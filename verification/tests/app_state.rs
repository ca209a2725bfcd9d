use op_loader::entities::{ItemField, Vault, VaultItem, VaultItemDetails};
use op_loader::nav::{App, Effect, FocusedPanel, Key, Modal};

fn make_vault_item(id: &str, title: &str) -> VaultItem {
    VaultItem {
        id: id.to_string(),
        title: title.to_string(),
        category: "LOGIN".to_string(),
        additional_information: None,
        urls: vec![],
    }
}

fn make_item_field(label: &str, reference: &str) -> ItemField {
    ItemField {
        label: label.to_string(),
        value: Some("secret-value".to_string()),
        field_type: "CONCEALED".to_string(),
        reference: reference.to_string(),
        section: None,
    }
}

#[test]
fn empty_query_returns_all_items() {
    let mut app = App::new();
    app.vault_items = vec![
        make_vault_item("1", "GitHub Token"),
        make_vault_item("2", "AWS Secret"),
        make_vault_item("3", "Database Password"),
    ];
    app.search_query = String::new();

    app.update_filtered_items();

    assert_eq!(app.filtered_item_indices, vec![0, 1, 2]);
}

#[test]
fn filters_by_fuzzy_match() {
    let mut app = App::new();
    app.vault_items = vec![
        make_vault_item("1", "GitHub Token"),
        make_vault_item("2", "AWS Secret"),
        make_vault_item("3", "GitLab Token"),
    ];
    app.search_query = "git".to_string();

    app.update_filtered_items();

    assert_eq!(app.filtered_item_indices.len(), 2);
    assert!(app.filtered_item_indices.contains(&0)); // GitHub
    assert!(app.filtered_item_indices.contains(&2)); // GitLab
}

#[test]
fn no_matches_returns_empty() {
    let mut app = App::new();
    app.vault_items = vec![
        make_vault_item("1", "GitHub Token"),
        make_vault_item("2", "AWS Secret"),
    ];
    app.search_query = "zzzzz".to_string();

    app.update_filtered_items();

    assert!(app.filtered_item_indices.is_empty());
    assert!(app.item_cursor.is_none());
}

#[test]
fn selects_first_item_when_results_exist() {
    let mut app = App::new();
    app.vault_items = vec![
        make_vault_item("1", "GitHub Token"),
        make_vault_item("2", "AWS Secret"),
    ];
    app.search_query = String::new();

    app.update_filtered_items();

    assert_eq!(app.item_cursor, Some(0));
}

#[test]
fn clears_selected_item_details() {
    let mut app = App::new();
    app.vault_items = vec![make_vault_item("1", "GitHub Token")];
    app.selected_vault_item_idx = Some(0);
    app.selected_item_details = Some(VaultItemDetails {
        id: "1".to_string(),
        title: "GitHub Token".to_string(),
        category: "LOGIN".to_string(),
        fields: vec![],
    });

    app.update_filtered_items();

    assert!(app.selected_vault_item_idx.is_none());
    assert!(app.selected_item_details.is_none());
}

#[test]
fn empty_vault_items_returns_empty() {
    let mut app = App::new();
    app.vault_items = vec![];
    app.search_query = "test".to_string();

    app.update_filtered_items();

    assert!(app.filtered_item_indices.is_empty());
}

#[test]
fn clears_query_and_deactivates() {
    let mut app = App::new();
    app.search_query = "some search".to_string();
    app.search_active = true;

    app.clear_search();

    assert!(app.search_query.is_empty());
    assert!(!app.search_active);
}

#[test]
fn resets_filtered_items_to_all() {
    let mut app = App::new();
    app.vault_items = vec![
        make_vault_item("1", "GitHub Token"),
        make_vault_item("2", "AWS Secret"),
    ];
    app.search_query = "git".to_string();
    app.update_filtered_items();

    app.clear_search();

    assert_eq!(app.filtered_item_indices, vec![0, 1]);
}

#[test]
fn sets_modal_state() {
    let mut app = App::new();
    let reference = "op://vault/item/field".to_string();

    app.open_modal(reference.clone());

    match &app.modal {
        Some(Modal::EnvVar {
            name,
            field_reference,
        }) => {
            assert!(name.is_empty());
            assert_eq!(field_reference, &reference);
        }
        _ => panic!("expected the binding modal to be open"),
    }
}

#[test]
fn clears_previous_env_var_name() {
    let mut app = App::new();
    app.modal = Some(Modal::EnvVar {
        name: "OLD_VAR".to_string(),
        field_reference: "op://old".to_string(),
    });

    app.open_modal("op://vault/item/field".to_string());

    match &app.modal {
        Some(Modal::EnvVar { name, .. }) => assert!(name.is_empty()),
        _ => panic!("expected the binding modal to be open"),
    }
}

#[test]
fn resets_all_modal_state() {
    let mut app = App::new();
    app.modal = Some(Modal::EnvVar {
        name: "MY_VAR".to_string(),
        field_reference: "op://vault/item/field".to_string(),
    });
    app.error_message = Some("some error".to_string());

    app.close_modal();

    assert!(app.modal.is_none());
    assert!(app.error_message.is_none());
}

#[test]
fn returns_matching_field() {
    let mut app = App::new();
    let reference = "op://vault/item/password".to_string();
    app.selected_item_details = Some(VaultItemDetails {
        id: "1".to_string(),
        title: "Test Item".to_string(),
        category: "LOGIN".to_string(),
        fields: vec![
            make_item_field("username", "op://vault/item/username"),
            make_item_field("password", "op://vault/item/password"),
        ],
    });
    app.modal = Some(Modal::EnvVar {
        name: String::new(),
        field_reference: reference,
    });

    let field = app.modal_selected_field();

    assert!(field.is_some());
    assert_eq!(field.unwrap().label, "password");
}

#[test]
fn returns_none_when_no_details() {
    let mut app = App::new();
    app.selected_item_details = None;
    app.modal = Some(Modal::EnvVar {
        name: String::new(),
        field_reference: "op://vault/item/field".to_string(),
    });

    assert!(app.modal_selected_field().is_none());
}

#[test]
fn returns_none_when_no_reference() {
    let mut app = App::new();
    app.selected_item_details = Some(VaultItemDetails {
        id: "1".to_string(),
        title: "Test Item".to_string(),
        category: "LOGIN".to_string(),
        fields: vec![make_item_field("password", "op://vault/item/password")],
    });
    app.modal = None;

    assert!(app.modal_selected_field().is_none());
}

#[test]
fn returns_none_when_reference_not_found() {
    let mut app = App::new();
    app.selected_item_details = Some(VaultItemDetails {
        id: "1".to_string(),
        title: "Test Item".to_string(),
        category: "LOGIN".to_string(),
        fields: vec![make_item_field("password", "op://vault/item/password")],
    });
    app.modal = Some(Modal::EnvVar {
        name: String::new(),
        field_reference: "op://vault/item/nonexistent".to_string(),
    });

    assert!(app.modal_selected_field().is_none());
}

#[test]
fn returns_vault_at_index() {
    let mut app = App::new();
    app.vaults = vec![
        Vault {
            id: "v1".to_string(),
            name: "Personal".to_string(),
        },
        Vault {
            id: "v2".to_string(),
            name: "Work".to_string(),
        },
    ];
    app.selected_vault_idx = Some(1);

    let vault = app.selected_vault();

    assert!(vault.is_some());
    assert_eq!(vault.unwrap().name, "Work");
}

#[test]
fn returns_none_when_no_selection() {
    let mut app = App::new();
    app.vaults = vec![Vault {
        id: "v1".to_string(),
        name: "Personal".to_string(),
    }];
    app.selected_vault_idx = None;

    assert!(app.selected_vault().is_none());
}

#[test]
fn returns_none_when_index_out_of_bounds() {
    let mut app = App::new();
    app.vaults = vec![Vault {
        id: "v1".to_string(),
        name: "Personal".to_string(),
    }];
    app.selected_vault_idx = Some(5);

    assert!(app.selected_vault().is_none());
}

fn make_account(uuid: &str) -> op_loader::entities::Account {
    op_loader::entities::Account {
        email: format!("{uuid}@example.com"),
        user_uuid: format!("user-{uuid}"),
        account_uuid: uuid.to_string(),
    }
}

// Committing a new account clears every deeper selection and the search.
#[test]
fn committing_account_clears_hierarchy() {
    let mut app = App::new();
    app.accounts = vec![make_account("a1")];
    app.account_cursor = Some(0);
    app.selected_vault_idx = Some(0);
    app.vault_items = vec![make_vault_item("1", "GitHub Token")];
    app.update_filtered_items();
    app.selected_vault_item_idx = Some(0);
    app.selected_item_details = Some(VaultItemDetails {
        id: "1".to_string(),
        title: "GitHub Token".to_string(),
        category: "LOGIN".to_string(),
        fields: vec![],
    });
    app.search_query = "tok".to_string();
    app.search_active = true;

    let effects = app.select_account();

    assert_eq!(app.selected_account_idx, Some(0));
    assert!(app.selected_vault_idx.is_none());
    assert!(app.selected_vault_item_idx.is_none());
    assert!(app.selected_item_details.is_none());
    assert!(app.search_query.is_empty());
    assert!(!app.search_active);
    assert_eq!(effects.len(), 1);
    match &effects[0] {
        Effect::LoadVaults { account } => assert_eq!(account.as_deref(), Some("a1")),
        other => panic!("expected a vault load, got {other:?}"),
    }
}

// Selecting the second vault of an account commits it and asks for its
// items.
#[test]
fn committing_second_vault_loads_its_items() {
    let mut app = App::new();
    app.accounts = vec![make_account("a1")];
    app.account_cursor = Some(0);
    app.selected_account_idx = Some(0);
    app.vaults = vec![
        Vault {
            id: "v1".to_string(),
            name: "Personal".to_string(),
        },
        Vault {
            id: "v2".to_string(),
            name: "Work".to_string(),
        },
    ];
    app.vault_cursor = Some(0);
    app.focused_panel = FocusedPanel::VaultList;

    app.move_cursor_down();
    assert_eq!(app.vault_cursor, Some(1));

    let effects = app.handle_key(Key::Enter);

    assert_eq!(app.selected_vault_idx, Some(1));
    assert_eq!(effects.len(), 1);
    match &effects[0] {
        Effect::LoadItems { account, vault } => {
            assert_eq!(account, "a1");
            assert_eq!(vault, "v2");
        }
        other => panic!("expected an item load, got {other:?}"),
    }
}

// Typing a binding name through the modal: the space is dropped, not
// converted, and letters are upper-cased.
#[test]
fn modal_name_drops_space_and_uppercases() {
    let mut app = App::new();
    app.open_modal("op://vault/item/password".to_string());

    for c in ['m', 'y', ' ', 'v', 'a', 'r'] {
        app.handle_key(Key::Char(c));
    }

    match &app.modal {
        Some(Modal::EnvVar { name, .. }) => assert_eq!(name, "MYVAR"),
        _ => panic!("expected the binding modal to stay open"),
    }
}

#[test]
fn modal_backspace_removes_last_character() {
    let mut app = App::new();
    app.open_modal("op://vault/item/password".to_string());
    for c in ['a', 'b'] {
        app.handle_key(Key::Char(c));
    }

    app.handle_key(Key::Backspace);

    match &app.modal {
        Some(Modal::EnvVar { name, .. }) => assert_eq!(name, "A"),
        _ => panic!("expected the binding modal to stay open"),
    }
}

#[test]
fn modal_enter_with_empty_name_reports_error() {
    let mut app = App::new();
    app.open_modal("op://vault/item/password".to_string());

    app.handle_key(Key::Enter);

    assert!(app.modal.is_some());
    assert!(app.error_message.is_some());
}

#[test]
fn modal_takes_keys_before_panels() {
    let mut app = App::new();
    app.accounts = vec![make_account("a1"), make_account("a2")];
    app.account_cursor = Some(0);
    app.focused_panel = FocusedPanel::AccountList;
    app.open_modal("op://vault/item/password".to_string());

    app.handle_key(Key::Down);

    // the cursor did not move: the modal swallowed the key
    assert_eq!(app.account_cursor, Some(0));
}

#[test]
fn quit_key_sets_flag() {
    let mut app = App::new();
    app.handle_key(Key::Char('q'));
    assert!(app.should_quit);
}

#[test]
fn cursor_wraps_at_both_ends() {
    let mut app = App::new();
    app.accounts = vec![make_account("a1"), make_account("a2"), make_account("a3")];
    app.account_cursor = Some(0);
    app.focused_panel = FocusedPanel::AccountList;

    app.move_cursor_up();
    assert_eq!(app.account_cursor, Some(2));
    app.move_cursor_down();
    assert_eq!(app.account_cursor, Some(0));
    app.move_cursor_down();
    assert_eq!(app.account_cursor, Some(1));
}

#[test]
fn empty_list_ignores_navigation() {
    let mut app = App::new();
    app.focused_panel = FocusedPanel::AccountList;
    app.move_cursor_down();
    assert!(app.account_cursor.is_none());
}

#[test]
fn search_keystrokes_refilter() {
    let mut app = App::new();
    app.vault_items = vec![
        make_vault_item("1", "GitHub Token"),
        make_vault_item("2", "AWS Secret"),
    ];
    app.update_filtered_items();
    app.focused_panel = FocusedPanel::VaultItemList;

    app.handle_key(Key::Char('/'));
    assert!(app.search_active);

    for c in ['a', 'w', 's'] {
        app.handle_key(Key::Char(c));
    }
    assert_eq!(app.search_query, "aws");
    assert_eq!(app.filtered_item_indices, vec![1]);

    app.handle_key(Key::Esc);
    assert!(app.search_query.is_empty());
    assert_eq!(app.filtered_item_indices, vec![0, 1]);
}

#[test]
fn saving_binding_requires_loaded_config() {
    let mut app = App::new();
    let r = app.save_op_item_config(
        "TOKEN".to_string(),
        "a1".to_string(),
        "op://v/i/f".to_string(),
    );
    assert!(r.is_err());
}

#[test]
fn favorite_persists_default_account_and_reselects() {
    let mut app = App::new();
    app.config = Some(op_loader::entities::OpLoadConfig::new());
    app.accounts = vec![make_account("a1")];
    app.account_cursor = Some(0);
    app.focused_panel = FocusedPanel::AccountList;

    let effects = app.handle_key(Key::Char('f'));

    assert_eq!(
        app.config.as_ref().unwrap().default_account_id.as_deref(),
        Some("a1")
    );
    assert!(matches!(effects[0], Effect::PersistConfig));
    assert!(matches!(effects[1], Effect::LoadVaults { .. }));
}

#[test]
fn commit_vaults_auto_commits_stored_default() {
    let mut app = App::new();
    let mut config = op_loader::entities::OpLoadConfig::new();
    config.set_default_vault("a1".to_string(), "v2".to_string());
    app.config = Some(config);
    app.accounts = vec![make_account("a1")];
    app.selected_account_idx = Some(0);

    let effects = app.commit_vaults(vec![
        Vault {
            id: "v1".to_string(),
            name: "Personal".to_string(),
        },
        Vault {
            id: "v2".to_string(),
            name: "Work".to_string(),
        },
    ]);

    assert_eq!(app.selected_vault_idx, Some(1));
    assert_eq!(app.vault_cursor, Some(1));
    assert_eq!(effects.len(), 1);
    match &effects[0] {
        Effect::LoadItems { account, vault } => {
            assert_eq!(account, "a1");
            assert_eq!(vault, "v2");
        }
        other => panic!("expected an item load, got {other:?}"),
    }
}

#[test]
fn detail_selection_skips_notes_field() {
    let mut app = App::new();
    app.selected_item_details = Some(VaultItemDetails {
        id: "1".to_string(),
        title: "Test Item".to_string(),
        category: "LOGIN".to_string(),
        fields: vec![
            make_item_field("notesPlain", "op://vault/item/notesPlain"),
            make_item_field("password", "op://vault/item/password"),
        ],
    });
    app.detail_cursor = Some(0);

    app.select_detail_field();

    match &app.modal {
        Some(Modal::EnvVar {
            field_reference, ..
        }) => assert_eq!(field_reference, "op://vault/item/password"),
        _ => panic!("expected the binding modal to open on the non-notes field"),
    }
}

#[test]
fn delete_confirm_removes_bindings() {
    let mut app = App::new();
    let mut config = op_loader::entities::OpLoadConfig::new();
    config.set_binding(
        "TOKEN".to_string(),
        op_loader::entities::InjectVarConfig {
            account_id: "a1".to_string(),
            op_reference: "op://v/i/f".to_string(),
        },
    );
    app.config = Some(config);
    app.load_managed_vars();
    assert_eq!(app.managed_vars, vec!["TOKEN".to_string()]);

    app.modal = Some(Modal::VarDeleteConfirm {
        targets: vec!["TOKEN".to_string()],
    });
    let effects = app.handle_key(Key::Char('y'));

    assert!(app.modal.is_none());
    assert!(app.managed_vars.is_empty());
    assert!(app.config.as_ref().unwrap().inject_vars.is_empty());
    assert!(matches!(effects[0], Effect::PersistConfig));
}

#[test]
fn vars_panel_toggles_and_copies_marked_names() {
    let mut app = App::new();
    let mut config = op_loader::entities::OpLoadConfig::new();
    config.set_binding(
        "TOKEN".to_string(),
        op_loader::entities::InjectVarConfig {
            account_id: "a1".to_string(),
            op_reference: "op://v/i/f".to_string(),
        },
    );
    config.set_binding(
        "USER".to_string(),
        op_loader::entities::InjectVarConfig {
            account_id: "a1".to_string(),
            op_reference: "op://v/i/u".to_string(),
        },
    );
    app.config = Some(config);
    app.load_managed_vars();
    app.focused_panel = FocusedPanel::VarsList;
    app.vars_cursor = Some(0);

    // mark in reverse order: the copied payload is still ascending
    app.move_cursor_down();
    app.handle_key(Key::Char(' '));
    assert_eq!(app.managed_vars_selected, vec!["USER".to_string()]);

    app.move_cursor_up();
    app.handle_key(Key::Char(' '));
    assert_eq!(
        app.managed_vars_selected,
        vec!["USER".to_string(), "TOKEN".to_string()]
    );

    let effects = app.handle_key(Key::Char('c'));
    match &effects[0] {
        Effect::CopyToClipboard { text } => assert_eq!(text, "TOKEN, USER"),
        other => panic!("expected a clipboard effect, got {other:?}"),
    }

    // toggling again unmarks
    app.handle_key(Key::Char(' '));
    assert_eq!(app.managed_vars_selected, vec!["USER".to_string()]);
}

#[test]
fn search_enter_commits_focused_item() {
    let mut app = App::new();
    app.accounts = vec![make_account("a1")];
    app.account_cursor = Some(0);
    app.selected_account_idx = Some(0);
    app.vaults = vec![Vault {
        id: "v1".to_string(),
        name: "Personal".to_string(),
    }];
    app.selected_vault_idx = Some(0);
    app.vault_items = vec![
        make_vault_item("i1", "GitHub Token"),
        make_vault_item("i2", "AWS Secret"),
    ];
    app.update_filtered_items();
    app.focused_panel = FocusedPanel::VaultItemList;

    app.handle_key(Key::Char('/'));
    for c in ['a', 'w', 's'] {
        app.handle_key(Key::Char(c));
    }
    let effects = app.handle_key(Key::Enter);

    assert!(!app.search_active);
    match &effects[0] {
        Effect::LoadItemDetails { item, .. } => assert_eq!(item, "i2"),
        other => panic!("expected a detail load, got {other:?}"),
    }
}

#[test]
fn failure_report_logs_and_shows_message() {
    let mut app = App::new();
    app.report_op_failure(
        "op vault list".to_string(),
        "authorization expired\n".to_string(),
    );
    assert!(app.error_message.is_some());
    assert_eq!(app.command_log.entries.len(), 1);
    assert_eq!(
        app.command_log.entries[0].display(),
        "\u{2717} op vault list: authorization expired"
    );
}
