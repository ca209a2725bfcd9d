use op_loader::entities::InjectVarConfig;
use op_loader::inject::{
    build_env_input, build_inject_input, group_vars_by_account, merge_resolved,
    parse_resolved_lines,
};

fn binding(name: &str, account: &str, reference: &str) -> (String, InjectVarConfig) {
    (
        name.to_string(),
        InjectVarConfig {
            account_id: account.to_string(),
            op_reference: reference.to_string(),
        },
    )
}

#[test]
fn grouping_splits_by_account_in_binding_order() {
    let vars = vec![
        binding("A", "acct1", "op://v/i/a"),
        binding("B", "acct2", "op://v/i/b"),
        binding("C", "acct1", "op://v/i/c"),
    ];

    let groups = group_vars_by_account(&vars);

    assert_eq!(groups.len(), 2);
    assert_eq!(groups[0].0, "acct1");
    assert_eq!(
        groups[0].1,
        vec![
            ("A".to_string(), "op://v/i/a".to_string()),
            ("C".to_string(), "op://v/i/c".to_string())
        ]
    );
    assert_eq!(groups[1].0, "acct2");
    assert_eq!(groups[1].1, vec![("B".to_string(), "op://v/i/b".to_string())]);
}

#[test]
fn env_input_is_one_export_line_per_binding() {
    let group = vec![
        ("FOO".to_string(), "op://v/i/foo".to_string()),
        ("BAR".to_string(), "op://v/i/bar".to_string()),
    ];
    assert_eq!(
        build_env_input(&group),
        "export FOO='op://v/i/foo'\nexport BAR='op://v/i/bar'\n"
    );
}

#[test]
fn inject_input_is_one_plain_line_per_binding() {
    let group = vec![
        ("FOO".to_string(), "op://v/i/foo".to_string()),
        ("BAR".to_string(), "op://v/i/bar".to_string()),
    ];
    assert_eq!(build_inject_input(&group), "FOO: op://v/i/foo\nBAR: op://v/i/bar\n");
}

#[test]
fn resolved_lines_parse_around_first_separator() {
    let out = b"FOO: secret one\nBAR: a: b\nbroken line\n".to_vec();
    let pairs = parse_resolved_lines(&out);
    assert_eq!(pairs.len(), 2);
    assert_eq!(pairs[0].0, b"FOO".to_vec());
    assert_eq!(pairs[0].1, b"secret one".to_vec());
    assert_eq!(pairs[1].0, b"BAR".to_vec());
    assert_eq!(pairs[1].1, b"a: b".to_vec());
}

#[test]
fn merging_later_account_wins_on_name_clash() {
    let mut table: Vec<(Vec<u8>, Vec<u8>)> = Vec::new();
    merge_resolved(
        &mut table,
        vec![
            (b"TOKEN".to_vec(), b"first".to_vec()),
            (b"USER".to_vec(), b"alice".to_vec()),
        ],
    );
    merge_resolved(&mut table, vec![(b"TOKEN".to_vec(), b"second".to_vec())]);

    assert_eq!(table.len(), 2);
    assert_eq!(table[0], (b"TOKEN".to_vec(), b"second".to_vec()));
    assert_eq!(table[1], (b"USER".to_vec(), b"alice".to_vec()));
}

// A failed inject of one account leaves the other's resolutions alone:
// merging an empty table changes nothing.
#[test]
fn merging_nothing_changes_nothing() {
    let mut table: Vec<(Vec<u8>, Vec<u8>)> = vec![(b"A".to_vec(), b"1".to_vec())];
    merge_resolved(&mut table, vec![]);
    assert_eq!(table, vec![(b"A".to_vec(), b"1".to_vec())]);
}

#[test]
fn grouping_orders_accounts_ascending() {
    let vars = vec![
        binding("A", "beta", "op://v/i/a"),
        binding("B", "alpha", "op://v/i/b"),
        binding("C", "beta", "op://v/i/c"),
    ];

    let groups = group_vars_by_account(&vars);

    assert_eq!(groups.len(), 2);
    assert_eq!(groups[0].0, "alpha");
    assert_eq!(groups[1].0, "beta");
    assert_eq!(
        groups[1].1,
        vec![
            ("A".to_string(), "op://v/i/a".to_string()),
            ("C".to_string(), "op://v/i/c".to_string())
        ]
    );
}
