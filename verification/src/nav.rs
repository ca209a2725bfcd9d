//! The navigation state machine: the hierarchical selection model, panel
//! cursors, search and modal sub-flows. Every transition is a pure state
//! update; whatever needs the outside world (the secret source, the
//! config store, the clipboard) is handed back to the caller as an
//! `Effect` to perform, whose outcome comes back through a `commit_`
//! method.
use vstd::prelude::*;

use crate::command_log::{CommandLog, CommandStatus};
use crate::entities::{Account, InjectVarConfig, ItemField, OpLoadConfig, Vault, VaultItem,
    VaultItemDetails};
use crate::filter::{is_refiltered, refilter};

verus! {

/// The panel that receives navigation keys.
#[derive(Debug, Clone, Copy, PartialEq, Eq, Structural)]
pub enum FocusedPanel {
    AccountList,
    VaultList,
    VaultItemList,
    VaultItemDetail,
    VarsList,
}

/// An open modal: binding a field to an environment variable, or
/// confirming removal of bindings.
#[derive(Debug)]
pub enum Modal {
    EnvVar { name: String, field_reference: String },
    VarDeleteConfirm { targets: Vec<String> },
}

/// A key press, as the host reads it from the terminal.
#[derive(Debug, Clone, Copy, PartialEq, Eq, Structural)]
pub enum Key {
    Up,
    Down,
    Enter,
    Esc,
    Backspace,
    Char(char),
}

/// Outside work a transition asks the host to perform.
#[derive(Debug)]
pub enum Effect {
    /// List the vaults, of one account or of all.
    LoadVaults { account: Option<String> },
    /// List the items of a vault.
    LoadItems { account: String, vault: String },
    /// Fetch one item's details.
    LoadItemDetails { account: String, vault: String, item: String },
    /// Write the configuration document out.
    PersistConfig,
    /// Put text on the system clipboard.
    CopyToClipboard { text: String },
}

/// A cursor either points into the list or is cleared.
pub open spec fn cursor_ok(c: Option<usize>, len: nat) -> bool {
    match c {
        Some(i) => (i as nat) < len,
        None => true,
    }
}

/// Whether a field may be offered for binding: multi-line note bodies
/// are excluded.
pub open spec fn is_notes_field(f: ItemField) -> bool {
    f.label@ == "notesPlain"@
}

/// The fields offered for binding, in order.
pub open spec fn selectable(fields: Seq<ItemField>) -> Seq<ItemField>
    decreases fields.len(),
{
    if fields.len() == 0 {
        fields
    } else {
        let rest = selectable(fields.drop_first());
        if is_notes_field(fields[0]) {
            rest
        } else {
            seq![fields[0]] + rest
        }
    }
}

/// The reference the open binding modal carries, if one is open.
pub open spec fn modal_reference_of(m: Option<Modal>) -> Option<Seq<char>> {
    match m {
        Some(Modal::EnvVar { field_reference, .. }) => Some(field_reference@),
        _ => None,
    }
}

/// The cursor of one panel.
pub open spec fn panel_cursor(a: App, p: FocusedPanel) -> Option<usize> {
    match p {
        FocusedPanel::AccountList => a.account_cursor,
        FocusedPanel::VaultList => a.vault_cursor,
        FocusedPanel::VaultItemList => a.item_cursor,
        FocusedPanel::VaultItemDetail => a.detail_cursor,
        FocusedPanel::VarsList => a.vars_cursor,
    }
}

/// The length of the list one panel shows.
pub open spec fn panel_list_len(a: App, p: FocusedPanel) -> nat {
    match p {
        FocusedPanel::AccountList => a.accounts@.len(),
        FocusedPanel::VaultList => a.vaults@.len(),
        FocusedPanel::VaultItemList => a.filtered_item_indices@.len(),
        FocusedPanel::VaultItemDetail => detail_len(a.selected_item_details),
        FocusedPanel::VarsList => a.managed_vars@.len(),
    }
}

/// Two snapshots agree on everything but the five panel cursors.
pub open spec fn same_but_cursors(a: App, b: App) -> bool {
    &&& a.config == b.config
    &&& a.should_quit == b.should_quit
    &&& a.focused_panel == b.focused_panel
    &&& a.error_message == b.error_message
    &&& a.command_log == b.command_log
    &&& a.accounts == b.accounts
    &&& a.selected_account_idx == b.selected_account_idx
    &&& a.vaults == b.vaults
    &&& a.selected_vault_idx == b.selected_vault_idx
    &&& a.vault_items == b.vault_items
    &&& a.selected_vault_item_idx == b.selected_vault_item_idx
    &&& a.selected_item_details == b.selected_item_details
    &&& a.selected_field_idx == b.selected_field_idx
    &&& a.search_query == b.search_query
    &&& a.search_active == b.search_active
    &&& a.filtered_item_indices == b.filtered_item_indices
    &&& a.managed_vars == b.managed_vars
    &&& a.managed_vars_selected == b.managed_vars_selected
    &&& a.modal == b.modal
}

/// The panel-visible state two snapshots share: everything but the
/// modal, the configuration, the log, the error message and the
/// managed-variables panel.
pub open spec fn panels_unchanged(a: App, b: App) -> bool {
    &&& a.accounts == b.accounts
    &&& a.account_cursor == b.account_cursor
    &&& a.selected_account_idx == b.selected_account_idx
    &&& a.vaults == b.vaults
    &&& a.vault_cursor == b.vault_cursor
    &&& a.selected_vault_idx == b.selected_vault_idx
    &&& a.vault_items == b.vault_items
    &&& a.item_cursor == b.item_cursor
    &&& a.selected_vault_item_idx == b.selected_vault_item_idx
    &&& a.selected_item_details == b.selected_item_details
    &&& a.detail_cursor == b.detail_cursor
    &&& a.selected_field_idx == b.selected_field_idx
    &&& a.search_query == b.search_query
    &&& a.search_active == b.search_active
    &&& a.filtered_item_indices == b.filtered_item_indices
    &&& a.focused_panel == b.focused_panel
    &&& a.should_quit == b.should_quit
}

/// The character a key types, if it is a character key.
pub open spec fn key_char_of(key: Key) -> Option<char> {
    match key {
        Key::Char(c) => Some(c),
        _ => None,
    }
}

/// A key that reaches plain panel navigation: no modal open, search
/// inactive, and none of the search, variables-panel or favorite
/// shortcuts captures it first.
pub open spec fn plain_nav_key(a: App, key: Key) -> bool {
    &&& a.modal is None
    &&& !a.search_active
    &&& !(key == Key::Char('/') && (a.focused_panel == FocusedPanel::VaultItemList
        || a.focused_panel == FocusedPanel::VaultItemDetail))
    &&& !(a.focused_panel == FocusedPanel::VarsList && vars_action_of(key) is Some)
    &&& key != Key::Char('f')
    &&& key != Key::Char('F')
}

/// A key that nothing handles: the state does not change.
pub open spec fn unknown_key(a: App, key: Key) -> bool {
    plain_nav_key(a, key) && nav_action_of(key) is None
}

/// The name buffer the open binding modal carries, if one is open.
pub open spec fn modal_name_of(m: Option<Modal>) -> Option<Seq<char>> {
    match m {
        Some(Modal::EnvVar { name, .. }) => Some(name@),
        _ => None,
    }
}

/// The payload of a vault-list request, if the effect is one.
pub open spec fn load_vaults_of(e: Effect) -> Option<Option<Seq<char>>> {
    match e {
        Effect::LoadVaults { account } => Some(
            match account {
                Some(a) => Some(a@),
                None => None,
            },
        ),
        _ => None,
    }
}

/// The `(account, vault)` payload of an item-list request, if the
/// effect is one.
pub open spec fn load_items_of(e: Effect) -> Option<(Seq<char>, Seq<char>)> {
    match e {
        Effect::LoadItems { account, vault } => Some((account@, vault@)),
        _ => None,
    }
}

/// The `(account, vault, item)` payload of a detail request, if the
/// effect is one.
pub open spec fn load_details_of(e: Effect) -> Option<(Seq<char>, Seq<char>, Seq<char>)> {
    match e {
        Effect::LoadItemDetails { account, vault, item } => Some((account@, vault@, item@)),
        _ => None,
    }
}

/// The clipboard payload of a copy effect, if the effect is one.
pub open spec fn copy_text_of(e: Effect) -> Option<Seq<char>> {
    match e {
        Effect::CopyToClipboard { text } => Some(text@),
        _ => None,
    }
}

/// The target names of an open delete confirmation, if one is open.
pub open spec fn modal_targets_of(m: Option<Modal>) -> Option<Seq<String>> {
    match m {
        Some(Modal::VarDeleteConfirm { targets }) => Some(targets@),
        _ => None,
    }
}

/// The diagnostic of a failure entry, if the status is one.
pub open spec fn failed_stderr_of(st: CommandStatus) -> Option<Seq<char>> {
    match st {
        CommandStatus::Failed { stderr } => Some(stderr@),
        _ => None,
    }
}

/// `s` is `orig` in strictly ascending text order.
pub open spec fn sorted_names_of(orig: Seq<String>, s: Seq<String>) -> bool {
    &&& s.len() == orig.len()
    &&& forall|k: int| 0 <= k < s.len() ==> orig.contains(#[trigger] s[k])
    &&& forall|j: int| 0 <= j < orig.len() ==> s.contains(#[trigger] orig[j])
    &&& forall|k1: int, k2: int|
        0 <= k1 < k2 < s.len() ==> crate::text::lex_lt(s[k1]@, s[k2]@)
}

/// An account is committed and still in range.
pub open spec fn committed_account_ok(a: App) -> bool {
    a.selected_account_idx is Some && (a.selected_account_idx.unwrap() as int) < a.accounts@.len()
}

/// The committed account's id.
pub open spec fn committed_account_uuid(a: App) -> Seq<char> {
    a.accounts@[a.selected_account_idx.unwrap() as int].account_uuid@
}

/// A vault is committed and still in range.
pub open spec fn committed_vault_ok(a: App) -> bool {
    a.selected_vault_idx is Some && (a.selected_vault_idx.unwrap() as int) < a.vaults@.len()
}

/// The committed vault's id.
pub open spec fn committed_vault_id(a: App) -> Seq<char> {
    a.vaults@[a.selected_vault_idx.unwrap() as int].id@
}

/// The first position holding a vault with id `vid`, or the length.
pub open spec fn first_vault_pos(vaults: Seq<Vault>, vid: Seq<char>) -> int
    decreases vaults.len(),
{
    if vaults.len() == 0 {
        0
    } else if vaults[0].id@ == vid {
        0
    } else {
        1 + first_vault_pos(vaults.drop_first(), vid)
    }
}

proof fn lemma_first_vault_pos_at(vaults: Seq<Vault>, vid: Seq<char>, i: int)
    requires
        0 <= i <= vaults.len(),
        forall|q: int| 0 <= q < i ==> (#[trigger] vaults[q]).id@ != vid,
        i < vaults.len() ==> vaults[i].id@ == vid,
    ensures
        first_vault_pos(vaults, vid) == i,
    decreases vaults.len(),
{
    if vaults.len() > 0 && vaults[0].id@ != vid {
        let t = vaults.drop_first();
        assert(forall|q: int| 0 <= q < t.len() ==> t[q] == vaults[q + 1]);
        lemma_first_vault_pos_at(t, vid, i - 1);
    }
}

/// The first position holding an account with id `uuid`, or the length.
pub open spec fn first_account_pos(accounts: Seq<Account>, uuid: Seq<char>) -> int
    decreases accounts.len(),
{
    if accounts.len() == 0 {
        0
    } else if accounts[0].account_uuid@ == uuid {
        0
    } else {
        1 + first_account_pos(accounts.drop_first(), uuid)
    }
}

proof fn lemma_first_account_pos_at(accounts: Seq<Account>, uuid: Seq<char>, i: int)
    requires
        0 <= i <= accounts.len(),
        forall|q: int| 0 <= q < i ==> (#[trigger] accounts[q]).account_uuid@ != uuid,
        i < accounts.len() ==> accounts[i].account_uuid@ == uuid,
    ensures
        first_account_pos(accounts, uuid) == i,
    decreases accounts.len(),
{
    if accounts.len() > 0 && accounts[0].account_uuid@ != uuid {
        let t = accounts.drop_first();
        assert(forall|q: int| 0 <= q < t.len() ==> t[q] == accounts[q + 1]);
        lemma_first_account_pos_at(t, uuid, i - 1);
    }
}

/// How many fields the detail panel offers.
pub open spec fn detail_len(details: Option<VaultItemDetails>) -> nat {
    match details {
        Some(d) => selectable(d.fields@).len(),
        None => 0,
    }
}

/// The whole interactive state.
pub struct App {
    pub config: Option<OpLoadConfig>,
    pub should_quit: bool,
    pub focused_panel: FocusedPanel,
    pub error_message: Option<String>,
    pub command_log: CommandLog,
    pub accounts: Vec<Account>,
    pub account_cursor: Option<usize>,
    pub selected_account_idx: Option<usize>,
    pub vaults: Vec<Vault>,
    pub vault_cursor: Option<usize>,
    pub selected_vault_idx: Option<usize>,
    pub vault_items: Vec<VaultItem>,
    pub item_cursor: Option<usize>,
    pub selected_vault_item_idx: Option<usize>,
    pub selected_item_details: Option<VaultItemDetails>,
    pub detail_cursor: Option<usize>,
    pub selected_field_idx: Option<usize>,
    pub search_query: String,
    pub search_active: bool,
    pub filtered_item_indices: Vec<usize>,
    pub managed_vars: Vec<String>,
    pub vars_cursor: Option<usize>,
    pub managed_vars_selected: Vec<String>,
    pub modal: Option<Modal>,
}

impl App {
    /// Cursors point into their lists, the filtered projection points
    /// into the item list, and the configuration maps are well-formed.
    pub open spec fn wf(&self) -> bool {
        &&& match self.config {
            Some(ref c) => c.wf(),
            None => true,
        }
        &&& cursor_ok(self.account_cursor, self.accounts@.len())
        &&& cursor_ok(self.vault_cursor, self.vaults@.len())
        &&& cursor_ok(self.item_cursor, self.filtered_item_indices@.len())
        &&& cursor_ok(self.detail_cursor, detail_len(self.selected_item_details))
        &&& cursor_ok(self.vars_cursor, self.managed_vars@.len())
        &&& forall|k: int|
            0 <= k < self.filtered_item_indices@.len()
                ==> (#[trigger] self.filtered_item_indices@[k]) < self.vault_items@.len()
        &&& forall|i: int, j: int|
            0 <= i < j < self.managed_vars_selected@.len()
                ==> self.managed_vars_selected@[i]@ != self.managed_vars_selected@[j]@
    }

    /// A fresh state: nothing loaded, nothing selected, the vault panel
    /// focused.
    pub fn new() -> (r: App)
        ensures
            r.wf(),
            r.config is None,
            !r.should_quit,
            r.focused_panel == FocusedPanel::VaultList,
            r.error_message is None,
            r.command_log.entries@.len() == 0,
            r.accounts@.len() == 0,
            r.account_cursor is None,
            r.selected_account_idx is None,
            r.vaults@.len() == 0,
            r.vault_cursor is None,
            r.selected_vault_idx is None,
            r.vault_items@.len() == 0,
            r.item_cursor is None,
            r.selected_vault_item_idx is None,
            r.selected_item_details is None,
            r.detail_cursor is None,
            r.selected_field_idx is None,
            r.search_query@.len() == 0,
            !r.search_active,
            r.filtered_item_indices@.len() == 0,
            r.managed_vars@.len() == 0,
            r.vars_cursor is None,
            r.managed_vars_selected@.len() == 0,
            r.modal is None,
    {
        App {
            config: None,
            should_quit: false,
            focused_panel: FocusedPanel::VaultList,
            error_message: None,
            command_log: CommandLog::new(),
            accounts: Vec::new(),
            account_cursor: None,
            selected_account_idx: None,
            vaults: Vec::new(),
            vault_cursor: None,
            selected_vault_idx: None,
            vault_items: Vec::new(),
            item_cursor: None,
            selected_vault_item_idx: None,
            selected_item_details: None,
            detail_cursor: None,
            selected_field_idx: None,
            search_query: String::new(),
            search_active: false,
            filtered_item_indices: Vec::new(),
            managed_vars: Vec::new(),
            vars_cursor: None,
            managed_vars_selected: Vec::new(),
            modal: None,
        }
    }

    /// The vault the rest of the system operates against, if one is
    /// committed and still in range.
    pub fn selected_vault(&self) -> (r: Option<&Vault>)
        ensures
            match r {
                Some(v) => self.selected_vault_idx matches Some(i) && (i as int)
                    < self.vaults@.len() && *v == self.vaults@[self.selected_vault_idx.unwrap()
                    as int],
                None => match self.selected_vault_idx {
                    Some(i) => (i as int) >= self.vaults@.len(),
                    None => true,
                },
            },
    {
        match self.selected_vault_idx {
            Some(i) => {
                if i < self.vaults.len() {
                    Some(&self.vaults[i])
                } else {
                    None
                }
            },
            None => None,
        }
    }

    /// The account the rest of the system operates against, if one is
    /// committed and still in range.
    pub fn selected_account(&self) -> (r: Option<&Account>)
        ensures
            match r {
                Some(a) => self.selected_account_idx matches Some(i) && (i as int)
                    < self.accounts@.len() && *a == self.accounts@[self.selected_account_idx.unwrap()
                    as int],
                None => match self.selected_account_idx {
                    Some(i) => (i as int) >= self.accounts@.len(),
                    None => true,
                },
            },
    {
        match self.selected_account_idx {
            Some(i) => {
                if i < self.accounts.len() {
                    Some(&self.accounts[i])
                } else {
                    None
                }
            },
            None => None,
        }
    }

    /// Recomputes the filtered projection for the current query, resets
    /// the item cursor to its top (or clears it when nothing matches),
    /// and drops the committed item and its details, which may no longer
    /// be visible.
    pub fn update_filtered_items(&mut self)
        requires
            old(self).wf(),
        ensures
            final (self).wf(),
            is_refiltered(
                old(self).vault_items@,
                old(self).search_query@,
                final (self).filtered_item_indices@,
            ),
            final (self).item_cursor == if final (self).filtered_item_indices@.len() > 0 {
                Some(0usize)
            } else {
                None::<usize>
            },
            final (self).selected_vault_item_idx is None,
            final (self).selected_item_details is None,
            final (self).detail_cursor is None,
            final (self).vault_items == old(self).vault_items,
            final (self).search_query == old(self).search_query,
            final (self).search_active == old(self).search_active,
            final (self).accounts == old(self).accounts,
            final (self).account_cursor == old(self).account_cursor,
            final (self).selected_account_idx == old(self).selected_account_idx,
            final (self).vaults == old(self).vaults,
            final (self).vault_cursor == old(self).vault_cursor,
            final (self).selected_vault_idx == old(self).selected_vault_idx,
            final (self).config == old(self).config,
            final (self).focused_panel == old(self).focused_panel,
            final (self).modal == old(self).modal,
            final (self).should_quit == old(self).should_quit,
            final (self).error_message == old(self).error_message,
            final (self).command_log == old(self).command_log,
            final (self).managed_vars == old(self).managed_vars,
            final (self).vars_cursor == old(self).vars_cursor,
            final (self).managed_vars_selected == old(self).managed_vars_selected,
            final (self).selected_field_idx == old(self).selected_field_idx,
    {
        let filtered = refilter(&self.vault_items, self.search_query.as_str());
        proof {
            crate::filter::lemma_refiltered_in_range(
                self.vault_items@,
                self.search_query@,
                filtered@,
            );
        }
        self.filtered_item_indices = filtered;
        self.item_cursor = if self.filtered_item_indices.len() > 0 {
            Some(0)
        } else {
            None
        };
        self.selected_vault_item_idx = None;
        self.selected_item_details = None;
        self.detail_cursor = None;
    }

    /// Clears the query, leaves search mode, and refilters — the same
    /// projection an empty query gives.
    pub fn clear_search(&mut self)
        requires
            old(self).wf(),
        ensures
            final (self).wf(),
            final (self).search_query@.len() == 0,
            !final (self).search_active,
            is_refiltered(
                old(self).vault_items@,
                Seq::<char>::empty(),
                final (self).filtered_item_indices@,
            ),
            final (self).selected_vault_item_idx is None,
            final (self).selected_item_details is None,
            final (self).vault_items == old(self).vault_items,
            final (self).accounts == old(self).accounts,
            final (self).account_cursor == old(self).account_cursor,
            final (self).selected_account_idx == old(self).selected_account_idx,
            final (self).vaults == old(self).vaults,
            final (self).vault_cursor == old(self).vault_cursor,
            final (self).selected_vault_idx == old(self).selected_vault_idx,
            final (self).config == old(self).config,
            final (self).modal == old(self).modal,
            final (self).focused_panel == old(self).focused_panel,
            final (self).should_quit == old(self).should_quit,
            final (self).error_message == old(self).error_message,
            final (self).command_log == old(self).command_log,
            final (self).managed_vars == old(self).managed_vars,
            final (self).vars_cursor == old(self).vars_cursor,
            final (self).managed_vars_selected == old(self).managed_vars_selected,
    {
        self.search_query = String::new();
        self.search_active = false;
        self.update_filtered_items();
    }

    /// Opens the binding modal over one field, with an empty name
    /// buffer.
    pub fn open_modal(&mut self, field_reference: String)
        requires
            old(self).wf(),
        ensures
            final (self).wf(),
            final (self).modal matches Some(Modal::EnvVar { name, field_reference: r }) && name@
                == Seq::<char>::empty() && r == field_reference,
            *final (self) == (App { modal: final (self).modal, ..*old(self) }),
    {
        self.modal = Some(Modal::EnvVar { name: String::new(), field_reference });
    }

    /// Closes any modal, discarding its state and any transient error.
    pub fn close_modal(&mut self)
        requires
            old(self).wf(),
        ensures
            final (self).wf(),
            final (self).modal is None,
            final (self).error_message is None,
            *final (self) == (App {
                modal: None,
                error_message: None,
                ..*old(self)
            }),
    {
        self.modal = None;
        self.error_message = None;
    }

    /// The field the open binding modal points at: the first field of
    /// the loaded details carrying the modal's reference.
    pub fn modal_selected_field(&self) -> (r: Option<&ItemField>)
        ensures
            match r {
                Some(f) => modal_reference_of(self.modal) is Some
                    && self.selected_item_details is Some && f.reference@ == modal_reference_of(
                    self.modal,
                ).unwrap() && exists|k: int|
                    0 <= k < self.selected_item_details.unwrap().fields@.len() && *f == (
                    #[trigger] self.selected_item_details.unwrap().fields@[k]),
                None => self.selected_item_details is None || modal_reference_of(self.modal)
                    is None || (forall|k: int|
                    0 <= k < self.selected_item_details.unwrap().fields@.len() ==> (
                    #[trigger] self.selected_item_details.unwrap().fields@[k]).reference@
                        != modal_reference_of(self.modal).unwrap()),
            },
    {
        let details = match &self.selected_item_details {
            Some(d) => d,
            None => {
                return None;
            },
        };
        let reference = match &self.modal {
            Some(Modal::EnvVar { field_reference, .. }) => field_reference,
            _ => {
                return None;
            },
        };
        let mut k: usize = 0;
        while k < details.fields.len()
            invariant
                k <= details.fields@.len(),
                self.selected_item_details is Some,
                *details == self.selected_item_details.unwrap(),
                modal_reference_of(self.modal) == Some(reference@),
                forall|k2: int|
                    0 <= k2 < k ==> (#[trigger] details.fields@[k2]).reference@ != reference@,
            decreases details.fields@.len() - k,
        {
            if details.fields[k].reference == *reference {
                proof {
                    assert(self.selected_item_details is Some);
                    assert(*details == self.selected_item_details.unwrap());
                    assert(modal_reference_of(self.modal) == Some(reference@));
                    assert(details.fields@[k as int]
                        == self.selected_item_details.unwrap().fields@[k as int]);
                    assert(details.fields@[k as int].reference@ == reference@);
                }
                return Some(&details.fields[k]);
            }
            k = k + 1;
        }
        None
    }
}


/// A state operation that needs the configuration document before it
/// is loaded.
#[derive(Debug, Clone, Copy, PartialEq, Eq, Structural)]
pub enum AppError {
    ConfigNotLoaded,
}

impl App {
    /// Records a failed secret-source invocation: one log entry, and the
    /// failure as the visible error message.
    pub fn report_op_failure(&mut self, command: String, stderr: String)
        requires
            old(self).wf(),
        ensures
            final (self).wf(),
            final (self).error_message is Some,
            final (self).command_log.entries@ == (old(self).command_log.entries@ + seq![
                crate::command_log::CommandLogEntry {
                    command,
                    status: crate::command_log::CommandStatus::Failed { stderr },
                },
            ]).skip(
                if old(self).command_log.entries@.len() + 1
                    > crate::command_log::MAX_LOG_ENTRIES {
                    old(self).command_log.entries@.len() + 1
                        - crate::command_log::MAX_LOG_ENTRIES
                } else {
                    0
                },
            ),
    {
        let mut msg = "`".to_owned();
        msg.append(command.as_str());
        msg.append("` failed: ");
        msg.append(stderr.as_str());
        self.error_message = Some(msg);
        self.command_log.log_failure(command, stderr);
    }

    /// Takes a freshly listed account set: the cursor starts at the
    /// top, and the load is logged with its count.
    pub fn commit_accounts(&mut self, accounts: Vec<Account>)
        requires
            old(self).wf(),
        ensures
            final (self).wf(),
            final (self).accounts == accounts,
            final (self).account_cursor == if accounts@.len() > 0 {
                Some(0usize)
            } else {
                None::<usize>
            },
            final (self).command_log.entries@.len() > 0,
            final (self).command_log.entries@.last().command@ == "op account list"@,
            final (self).command_log.entries@.last().status == (CommandStatus::Success {
                item_count: Some(accounts@.len() as usize),
            }),
    {
        let count = accounts.len();
        self.accounts = accounts;
        self.account_cursor = if count > 0 {
            Some(0)
        } else {
            None
        };
        let cmd = "op account list".to_owned();
        self.command_log.log_success(cmd, Some(count));
        proof {
            crate::command_log::lemma_log_keeps_last(
                old(self).command_log.entries@,
                crate::command_log::CommandLogEntry {
                    command: cmd,
                    status: CommandStatus::Success { item_count: Some(count) },
                },
                self.command_log.entries@,
            );
        }
    }

    /// Takes a freshly listed vault set for the committed account: the
    /// committed vault is cleared and the cursor starts at the top —
    /// unless a default vault is stored for the account, which is then
    /// committed at once, asking for its items.
    pub fn commit_vaults(&mut self, vaults: Vec<Vault>) -> (effects: Vec<Effect>)
        requires
            old(self).wf(),
        ensures
            final (self).wf(),
            final (self).vaults == vaults,
            ({
                let has_default = committed_account_ok(*old(self)) && old(self).config is Some
                    && crate::assoc::has_key(
                    old(self).config.unwrap().default_vault_per_account@,
                    committed_account_uuid(*old(self)),
                );
                let vid = crate::assoc::val_of(
                    old(self).config.unwrap().default_vault_per_account@,
                    committed_account_uuid(*old(self)),
                )@;
                let pos = first_vault_pos(vaults@, vid);
                if has_default && pos < vaults@.len() {
                    &&& final (self).selected_vault_idx == Some(pos as usize)
                    &&& final (self).vault_cursor == Some(pos as usize)
                    &&& effects@.len() == 1
                    &&& load_items_of(effects@[0]) == Some(
                        (committed_account_uuid(*old(self)), vid),
                    )
                } else {
                    &&& final (self).selected_vault_idx is None
                    &&& effects@.len() == 0
                    &&& final (self).vault_cursor == (if vaults@.len() > 0 {
                        Some(0usize)
                    } else {
                        None::<usize>
                    })
                }
            }),
            final (self).accounts == old(self).accounts,
            final (self).selected_account_idx == old(self).selected_account_idx,
            final (self).config == old(self).config,
            final (self).command_log.entries@.len() > 0,
            final (self).command_log.entries@.last().command@ == "op vault list"@,
            final (self).command_log.entries@.last().status == (CommandStatus::Success {
                item_count: Some(vaults@.len() as usize),
            }),
    {
        let count = vaults.len();
        self.vaults = vaults;
        self.selected_vault_idx = None;
        self.vault_cursor = if count > 0 {
            Some(0)
        } else {
            None
        };
        let cmd = "op vault list".to_owned();
        self.command_log.log_success(cmd, Some(count));
        proof {
            crate::command_log::lemma_log_keeps_last(
                old(self).command_log.entries@,
                crate::command_log::CommandLogEntry {
                    command: cmd,
                    status: CommandStatus::Success { item_count: Some(count) },
                },
                self.command_log.entries@,
            );
        }
        let account_uuid = match self.selected_account() {
            Some(a) => Some(a.account_uuid.clone()),
            None => None,
        };
        let mut effects: Vec<Effect> = Vec::new();
        if let Some(uuid) = account_uuid {
            let default_vault = match &self.config {
                Some(cfg) => match cfg.default_vault_for(&uuid) {
                    Some(v) => Some(v.clone()),
                    None => None,
                },
                None => None,
            };
            if let Some(vault_id) = default_vault {
                let mut p: usize = 0;
                let mut pos: Option<usize> = None;
                while p < self.vaults.len() && pos.is_none()
                    invariant
                        p <= self.vaults@.len(),
                        match pos {
                            Some(q) => (q as int) < self.vaults@.len() && self.vaults@[q as int].id@
                                == vault_id@ && (forall|q2: int|
                                0 <= q2 < q ==> (#[trigger] self.vaults@[q2]).id@ != vault_id@),
                            None => forall|q2: int|
                                0 <= q2 < p ==> (#[trigger] self.vaults@[q2]).id@ != vault_id@,
                        },
                    decreases self.vaults@.len() - p,
                {
                    if self.vaults[p].id == vault_id {
                        pos = Some(p);
                    }
                    p = p + 1;
                }
                proof {
                    match pos {
                        Some(q) => lemma_first_vault_pos_at(
                            self.vaults@,
                            vault_id@,
                            q as int,
                        ),
                        None => lemma_first_vault_pos_at(
                            self.vaults@,
                            vault_id@,
                            self.vaults@.len() as int,
                        ),
                    }
                }
                if let Some(q) = pos {
                    self.selected_vault_idx = Some(q);
                    self.vault_cursor = Some(q);
                    effects.push(
                        Effect::LoadItems { account: uuid, vault: self.vaults[q].id.clone() },
                    );
                }
            }
        }
        effects
    }

    /// Takes a freshly listed item set for the committed vault: logs the
    /// load and refilters, which resets the item cursor and drops the
    /// committed item and its details.
    pub fn commit_items(&mut self, vault_id: &String, items: Vec<VaultItem>)
        requires
            old(self).wf(),
        ensures
            final (self).wf(),
            final (self).vault_items == items,
            is_refiltered(items@, old(self).search_query@, final (self).filtered_item_indices@),
            final (self).item_cursor == if final (self).filtered_item_indices@.len() > 0 {
                Some(0usize)
            } else {
                None::<usize>
            },
            final (self).selected_vault_item_idx is None,
            final (self).selected_item_details is None,
            final (self).search_query == old(self).search_query,
            final (self).accounts == old(self).accounts,
            final (self).selected_account_idx == old(self).selected_account_idx,
            final (self).vaults == old(self).vaults,
            final (self).selected_vault_idx == old(self).selected_vault_idx,
            final (self).config == old(self).config,
            final (self).command_log.entries@.len() > 0,
            final (self).command_log.entries@.last().command@ == "op item list --vault "@
                + vault_id@,
            final (self).command_log.entries@.last().status == (CommandStatus::Success {
                item_count: Some(items@.len() as usize),
            }),
    {
        let count = items.len();
        let mut cmd = "op item list --vault ".to_owned();
        cmd.append(vault_id.as_str());
        self.command_log.log_success(cmd, Some(count));
        proof {
            crate::command_log::lemma_log_keeps_last(
                old(self).command_log.entries@,
                crate::command_log::CommandLogEntry {
                    command: cmd,
                    status: CommandStatus::Success { item_count: Some(count) },
                },
                self.command_log.entries@,
            );
        }
        self.vault_items = items;
        self.filtered_item_indices = Vec::new();
        self.item_cursor = None;
        self.update_filtered_items();
    }

    /// Takes one item's freshly fetched details: logs the fetch, shows
    /// the details with the field cursor at the top, and focuses the
    /// detail panel.
    pub fn commit_item_details(&mut self, item_id: &String, details: VaultItemDetails)
        requires
            old(self).wf(),
        ensures
            final (self).wf(),
            final (self).selected_item_details == Some(details),
            final (self).detail_cursor == if selectable(details.fields@).len() > 0 {
                Some(0usize)
            } else {
                None::<usize>
            },
            final (self).selected_field_idx is None,
            final (self).focused_panel == FocusedPanel::VaultItemDetail,
            final (self).accounts == old(self).accounts,
            final (self).vaults == old(self).vaults,
            final (self).vault_items == old(self).vault_items,
            final (self).filtered_item_indices == old(self).filtered_item_indices,
            final (self).config == old(self).config,
            final (self).command_log.entries@.len() > 0,
            final (self).command_log.entries@.last().command@ == "op item get "@ + item_id@,
            final (self).command_log.entries@.last().status == (CommandStatus::Success {
                item_count: Some(details.fields@.len() as usize),
            }),
    {
        let count = details.fields.len();
        let mut cmd = "op item get ".to_owned();
        cmd.append(item_id.as_str());
        self.command_log.log_success(cmd, Some(count));
        proof {
            crate::command_log::lemma_log_keeps_last(
                old(self).command_log.entries@,
                crate::command_log::CommandLogEntry {
                    command: cmd,
                    status: CommandStatus::Success { item_count: Some(count) },
                },
                self.command_log.entries@,
            );
        }
        let selectable_n = selectable_count(&details.fields);
        self.detail_cursor = if selectable_n > 0 {
            Some(0)
        } else {
            None
        };
        self.selected_item_details = Some(details);
        self.selected_field_idx = None;
        self.focused_panel = FocusedPanel::VaultItemDetail;
    }

    /// Commits the account under the cursor. The committed vault, item
    /// and details are cleared, the pending search is dropped, the item
    /// list is emptied, the vault panel takes focus, and the account's
    /// vaults are asked for.
    pub fn select_account(&mut self) -> (effects: Vec<Effect>)
        requires
            old(self).wf(),
        ensures
            final (self).wf(),
            final (self).selected_account_idx == old(self).account_cursor,
            final (self).selected_vault_idx is None,
            final (self).selected_vault_item_idx is None,
            final (self).selected_item_details is None,
            final (self).search_query@.len() == 0,
            !final (self).search_active,
            final (self).vault_items@.len() == 0,
            final (self).filtered_item_indices@.len() == 0,
            final (self).focused_panel == FocusedPanel::VaultList,
            effects@.len() == 1 && load_vaults_of(effects@[0]) == Some(
                match old(self).account_cursor {
                    Some(i) => Some(old(self).accounts@[i as int].account_uuid@),
                    None => None::<Seq<char>>,
                },
            ),
            final (self).accounts == old(self).accounts,
            final (self).account_cursor == old(self).account_cursor,
            final (self).vaults == old(self).vaults,
            final (self).config == old(self).config,
            final (self).modal == old(self).modal,
            final (self).managed_vars == old(self).managed_vars,
    {
        self.selected_account_idx = self.account_cursor;
        self.selected_vault_idx = None;
        self.vault_items = Vec::new();
        self.filtered_item_indices = Vec::new();
        self.item_cursor = None;
        self.clear_search();
        self.focused_panel = FocusedPanel::VaultList;
        let account_uuid = match self.selected_account() {
            Some(a) => Some(a.account_uuid.clone()),
            None => None,
        };
        let mut effects: Vec<Effect> = Vec::new();
        effects.push(Effect::LoadVaults { account: account_uuid });
        effects
    }

    /// Commits the vault under the cursor. The pending search and the
    /// committed item are dropped, the item panel takes focus, and the
    /// vault's items are asked for — or, with no account and vault
    /// committed, the failure is shown instead.
    pub fn select_vault(&mut self) -> (effects: Vec<Effect>)
        requires
            old(self).wf(),
        ensures
            final (self).wf(),
            final (self).selected_vault_idx == old(self).vault_cursor,
            final (self).selected_vault_item_idx is None,
            final (self).selected_item_details is None,
            final (self).search_query@.len() == 0,
            !final (self).search_active,
            final (self).focused_panel == FocusedPanel::VaultItemList,
            final (self).accounts == old(self).accounts,
            final (self).vaults == old(self).vaults,
            final (self).config == old(self).config,
            effects@.len() <= 1,
            (committed_account_ok(*old(self)) && old(self).vault_cursor is Some) ==> (
            effects@.len() == 1 && load_items_of(effects@[0]) == Some(
                (
                    committed_account_uuid(*old(self)),
                    old(self).vaults@[old(self).vault_cursor.unwrap() as int].id@,
                ),
            ) && final (self).error_message == old(self).error_message),
            !(committed_account_ok(*old(self)) && old(self).vault_cursor is Some) ==> (
            effects@.len() == 0 && final (self).error_message is Some),
    {
        self.selected_vault_idx = self.vault_cursor;
        self.clear_search();
        self.focused_panel = FocusedPanel::VaultItemList;
        let account_uuid = match self.selected_account() {
            Some(a) => Some(a.account_uuid.clone()),
            None => None,
        };
        let vault_id = match self.selected_vault() {
            Some(v) => Some(v.id.clone()),
            None => None,
        };
        let mut effects: Vec<Effect> = Vec::new();
        match (account_uuid, vault_id) {
            (Some(account), Some(vault)) => {
                effects.push(Effect::LoadItems { account, vault });
            },
            _ => {
                self.error_message = Some(
                    "Cannot list vault items when account/vault are not selected".to_owned(),
                );
            },
        }
        effects
    }

    /// Commits the item under the cursor and asks for its details — or,
    /// with no account and vault committed, shows the failure instead.
    pub fn select_item(&mut self) -> (effects: Vec<Effect>)
        requires
            old(self).wf(),
        ensures
            final (self).wf(),
            final (self).selected_vault_item_idx == old(self).item_cursor,
            effects@.len() <= 1,
            (old(self).item_cursor is Some && committed_account_ok(*old(self))
                && committed_vault_ok(*old(self))) ==> (effects@.len() == 1 && load_details_of(
                effects@[0],
            ) == Some(
                (
                    committed_account_uuid(*old(self)),
                    committed_vault_id(*old(self)),
                    old(self).vault_items@[old(self).filtered_item_indices@[old(
                        self,
                    ).item_cursor.unwrap() as int] as int].id@,
                ),
            )),
            (old(self).item_cursor is Some && !(committed_account_ok(*old(self))
                && committed_vault_ok(*old(self)))) ==> (effects@.len() == 0 && final (
            self).error_message is Some),
            old(self).item_cursor is None ==> effects@.len() == 0,
            final (self).accounts == old(self).accounts,
            final (self).vaults == old(self).vaults,
            final (self).vault_items == old(self).vault_items,
            final (self).filtered_item_indices == old(self).filtered_item_indices,
            final (self).config == old(self).config,
            final (self).search_active == old(self).search_active,
            final (self).search_query == old(self).search_query,
            final (self).item_cursor == old(self).item_cursor,
    {
        self.selected_vault_item_idx = self.item_cursor;
        let mut effects: Vec<Effect> = Vec::new();
        let list_idx = match self.item_cursor {
            Some(i) => i,
            None => {
                return effects;
            },
        };
        let real_idx = self.filtered_item_indices[list_idx];
        let item_id = self.vault_items[real_idx].id.clone();
        let account_uuid = match self.selected_account() {
            Some(a) => Some(a.account_uuid.clone()),
            None => None,
        };
        let vault_id = match self.selected_vault() {
            Some(v) => Some(v.id.clone()),
            None => None,
        };
        match (account_uuid, vault_id) {
            (Some(account), Some(vault)) => {
                effects.push(Effect::LoadItemDetails { account, vault, item: item_id });
            },
            _ => {
                self.error_message = Some(
                    "Cannot fetch item details when account/vault are not selected".to_owned(),
                );
            },
        }
        effects
    }

    /// Commits the detail row under the cursor and opens the binding
    /// modal over that field's reference.
    pub fn select_detail_field(&mut self)
        requires
            old(self).wf(),
        ensures
            final (self).wf(),
            final (self).selected_field_idx == old(self).detail_cursor,
            (old(self).detail_cursor is Some && old(self).selected_item_details is Some) ==> (
            modal_name_of(final (self).modal) == Some(Seq::<char>::empty())
                && modal_reference_of(final (self).modal) == Some(
                selectable(old(self).selected_item_details.unwrap().fields@)[old(
                    self,
                ).detail_cursor.unwrap() as int].reference@,
            )),
            old(self).detail_cursor is None ==> final (self).modal == old(self).modal,
            final (self).accounts == old(self).accounts,
            final (self).vaults == old(self).vaults,
            final (self).vault_items == old(self).vault_items,
            final (self).config == old(self).config,
    {
        self.selected_field_idx = self.detail_cursor;
        let idx = match self.detail_cursor {
            Some(i) => i,
            None => {
                return ;
            },
        };
        let reference = match &self.selected_item_details {
            Some(d) => {
                let field = selectable_at(&d.fields, idx);
                Some(field.reference.clone())
            },
            None => None,
        };
        if let Some(r) = reference {
            self.open_modal(r);
        }
    }

    /// Stores one binding in the configuration: the variable name maps
    /// to the committed account and the field's reference, overwriting a
    /// binding of the same name. Fails when no configuration is loaded.
    pub fn save_op_item_config(
        &mut self,
        var_name: String,
        account_id: String,
        op_reference: String,
    ) -> (r: Result<(), AppError>)
        requires
            old(self).wf(),
        ensures
            final (self).wf(),
            panels_unchanged(*old(self), *final (self)),
            final (self).command_log == old(self).command_log,
            final (self).error_message == old(self).error_message,
            final (self).modal == old(self).modal,
            final (self).managed_vars == old(self).managed_vars,
            final (self).vars_cursor == old(self).vars_cursor,
            final (self).managed_vars_selected == old(self).managed_vars_selected,
            match old(self).config {
                Some(_) => {
                    &&& r is Ok
                    &&& final (self).config matches Some(cfg)
                    &&& crate::assoc::has_key(cfg.inject_vars@, var_name@)
                    &&& crate::assoc::val_of(cfg.inject_vars@, var_name@).account_id == account_id
                    &&& crate::assoc::val_of(cfg.inject_vars@, var_name@).op_reference
                        == op_reference
                },
                None => r == Err::<(), AppError>(AppError::ConfigNotLoaded) && final (self).config
                    is None,
            },
    {
        match &mut self.config {
            Some(cfg) => {
                cfg.set_binding(var_name, InjectVarConfig { account_id, op_reference });
                Ok(())
            },
            None => Err(AppError::ConfigNotLoaded),
        }
    }

    /// Remembers the account as the startup default. Fails when no
    /// configuration is loaded.
    pub fn set_default_account(&mut self, account_id: String) -> (r: Result<(), AppError>)
        requires
            old(self).wf(),
        ensures
            final (self).wf(),
            panels_unchanged(*old(self), *final (self)),
            final (self).command_log == old(self).command_log,
            final (self).error_message == old(self).error_message,
            final (self).modal == old(self).modal,
            final (self).managed_vars == old(self).managed_vars,
            final (self).vars_cursor == old(self).vars_cursor,
            final (self).managed_vars_selected == old(self).managed_vars_selected,
            match old(self).config {
                Some(_) => r is Ok && (final (self).config matches Some(cfg)
                    && cfg.default_account_id == Some(account_id)),
                None => r == Err::<(), AppError>(AppError::ConfigNotLoaded) && final (self).config
                    is None,
            },
    {
        match &mut self.config {
            Some(cfg) => {
                cfg.set_default_account(account_id);
                Ok(())
            },
            None => Err(AppError::ConfigNotLoaded),
        }
    }

    /// Remembers the vault as the default committed whenever its account
    /// is selected. Fails when no configuration is loaded.
    pub fn set_default_vault(&mut self, account_id: String, vault_id: String) -> (r: Result<
        (),
        AppError,
    >)
        requires
            old(self).wf(),
        ensures
            final (self).wf(),
            panels_unchanged(*old(self), *final (self)),
            final (self).command_log == old(self).command_log,
            final (self).error_message == old(self).error_message,
            final (self).modal == old(self).modal,
            final (self).managed_vars == old(self).managed_vars,
            final (self).vars_cursor == old(self).vars_cursor,
            final (self).managed_vars_selected == old(self).managed_vars_selected,
            match old(self).config {
                Some(_) => r is Ok && (final (self).config matches Some(cfg)
                    && crate::assoc::has_key(cfg.default_vault_per_account@, account_id@)
                    && crate::assoc::val_of(cfg.default_vault_per_account@, account_id@)@
                        == vault_id@),
                None => r == Err::<(), AppError>(AppError::ConfigNotLoaded) && final (self).config
                    is None,
            },
    {
        match &mut self.config {
            Some(cfg) => {
                cfg.set_default_vault(account_id, vault_id);
                Ok(())
            },
            None => Err(AppError::ConfigNotLoaded),
        }
    }

    /// Refreshes the managed-variables panel from the configuration's
    /// binding names, keeping the cursor in range.
    pub fn load_managed_vars(&mut self)
        requires
            old(self).wf(),
        ensures
            final (self).wf(),
            final (self).accounts == old(self).accounts,
            final (self).account_cursor == old(self).account_cursor,
            final (self).selected_account_idx == old(self).selected_account_idx,
            final (self).vaults == old(self).vaults,
            final (self).vault_cursor == old(self).vault_cursor,
            final (self).selected_vault_idx == old(self).selected_vault_idx,
            final (self).vault_items == old(self).vault_items,
            final (self).item_cursor == old(self).item_cursor,
            final (self).selected_vault_item_idx == old(self).selected_vault_item_idx,
            final (self).selected_item_details == old(self).selected_item_details,
            final (self).detail_cursor == old(self).detail_cursor,
            final (self).selected_field_idx == old(self).selected_field_idx,
            final (self).search_query == old(self).search_query,
            final (self).search_active == old(self).search_active,
            final (self).filtered_item_indices == old(self).filtered_item_indices,
            final (self).focused_panel == old(self).focused_panel,
            final (self).should_quit == old(self).should_quit,
            final (self).modal == old(self).modal,
            final (self).command_log == old(self).command_log,
            final (self).error_message == old(self).error_message,
            final (self).managed_vars_selected == old(self).managed_vars_selected,
            match final (self).config {
                Some(cfg) => final (self).managed_vars@.len() == cfg.inject_vars@.len() && (
                forall|i: int|
                    0 <= i < cfg.inject_vars@.len() ==> final (self).managed_vars@[i]@
                        == cfg.inject_vars@[i].0@),
                None => final (self).managed_vars@.len() == 0,
            },
            final (self).config == old(self).config,
            final (self).accounts == old(self).accounts,
            final (self).vaults == old(self).vaults,
            final (self).vault_items == old(self).vault_items,
    {
        let names = match &self.config {
            Some(cfg) => cfg.binding_names(),
            None => Vec::new(),
        };
        self.managed_vars = names;
        let len = self.managed_vars.len();
        self.vars_cursor = match self.vars_cursor {
            Some(i) => {
                if len == 0 {
                    None
                } else if i < len {
                    Some(i)
                } else {
                    Some(len - 1)
                }
            },
            None => None,
        };
    }

    /// Marks or unmarks one variable name in the multi-select set.
    pub fn toggle_managed_var_selection(&mut self, name: &String)
        requires
            old(self).wf(),
        ensures
            final (self).wf(),
            final (self).config == old(self).config,
            final (self).managed_vars == old(self).managed_vars,
            panels_unchanged(*old(self), *final (self)),
            (forall|j: int|
                0 <= j < old(self).managed_vars_selected@.len() ==> (
                #[trigger] old(self).managed_vars_selected@[j])@ != name@) ==> (final (
            self).managed_vars_selected@.len() == old(self).managed_vars_selected@.len() + 1
                && (forall|j: int|
                0 <= j < old(self).managed_vars_selected@.len()
                    ==> #[trigger] final (self).managed_vars_selected@[j] == old(
                    self,
                ).managed_vars_selected@[j]) && final (self).managed_vars_selected@[old(
                self,
            ).managed_vars_selected@.len() as int]@ == name@),
            (exists|j: int|
                0 <= j < old(self).managed_vars_selected@.len() && (#[trigger] old(
                    self,
                ).managed_vars_selected@[j])@ == name@) ==> exists|j: int|
                0 <= j < old(self).managed_vars_selected@.len() && (#[trigger] old(
                    self,
                ).managed_vars_selected@[j])@ == name@ && final (self).managed_vars_selected@
                    == old(self).managed_vars_selected@.remove(j),
    {
        let ghost pre = self.managed_vars_selected@;
        let mut i: usize = 0;
        let mut found: Option<usize> = None;
        while i < self.managed_vars_selected.len() && found.is_none()
            invariant
                i <= self.managed_vars_selected@.len(),
                self.managed_vars_selected@ == pre,
                match found {
                    Some(k) => (k as int) < pre.len() && pre[k as int]@ == name@,
                    None => forall|j: int| 0 <= j < i ==> (#[trigger] pre[j])@ != name@,
                },
            decreases self.managed_vars_selected@.len() - i,
        {
            if self.managed_vars_selected[i] == *name {
                found = Some(i);
            }
            i = i + 1;
        }
        match found {
            Some(j) => {
                self.managed_vars_selected.remove(j);
            },
            None => {
                self.managed_vars_selected.push(name.clone());
            },
        }
    }

    /// Removes the named bindings from the configuration and refreshes
    /// the managed-variables panel. Fails when no configuration is
    /// loaded.
    pub fn remove_managed_vars(&mut self, names: &Vec<String>) -> (r: Result<(), AppError>)
        requires
            old(self).wf(),
        ensures
            final (self).wf(),
            panels_unchanged(*old(self), *final (self)),
            final (self).command_log == old(self).command_log,
            final (self).error_message == old(self).error_message,
            final (self).modal == old(self).modal,
            match old(self).config {
                Some(_) => {
                    &&& r is Ok
                    &&& final (self).config matches Some(cfg)
                    &&& forall|i: int|
                        0 <= i < names@.len() ==> !crate::assoc::has_key(
                            cfg.inject_vars@,
                            names@[i]@,
                        )
                },
                None => r == Err::<(), AppError>(AppError::ConfigNotLoaded),
            },
    {
        match &mut self.config {
            Some(cfg) => {
                cfg.remove_bindings(names);
            },
            None => {
                return Err(AppError::ConfigNotLoaded);
            },
        }
        self.load_managed_vars();
        self.managed_vars_selected = Vec::new();
        Ok(())
    }

    /// Whether an account is the stored startup default.
    pub fn is_default_account(&self, account_uuid: &String) -> (r: bool)
        ensures
            r == match self.config {
                Some(cfg) => cfg.default_account_id matches Some(d) && d@ == account_uuid@,
                None => false,
            },
    {
        match &self.config {
            Some(cfg) => match &cfg.default_account_id {
                Some(d) => *d == *account_uuid,
                None => false,
            },
            None => false,
        }
    }

    /// Whether a vault is the stored default of the committed account.
    pub fn is_default_vault(&self, vault_id: &String) -> (r: bool)
        requires
            self.wf(),
        ensures
            r == (self.selected_account_idx is Some && (self.selected_account_idx.unwrap() as int)
                < self.accounts@.len() && self.config is Some && crate::assoc::has_key(
                self.config.unwrap().default_vault_per_account@,
                self.accounts@[self.selected_account_idx.unwrap() as int].account_uuid@,
            ) && crate::assoc::val_of(
                self.config.unwrap().default_vault_per_account@,
                self.accounts@[self.selected_account_idx.unwrap() as int].account_uuid@,
            )@ == vault_id@),
    {
        let account_uuid = match self.selected_account() {
            Some(a) => Some(a.account_uuid.clone()),
            None => None,
        };
        match (account_uuid, &self.config) {
            (Some(uuid), Some(cfg)) => match cfg.default_vault_for(&uuid) {
                Some(v) => *v == *vault_id,
                None => false,
            },
            _ => false,
        }
    }

    /// Applies the stored startup defaults to a freshly loaded account
    /// list: the default account when it is present, else the first.
    pub fn apply_default_account(&mut self)
        requires
            old(self).wf(),
        ensures
            final (self).wf(),
            final (self).selected_account_idx == final (self).account_cursor,
            final (self).accounts == old(self).accounts,
            final (self).config == old(self).config,
            ({
                let has_default = old(self).config is Some && old(
                    self,
                ).config.unwrap().default_account_id is Some;
                let pos = first_account_pos(
                    old(self).accounts@,
                    old(self).config.unwrap().default_account_id.unwrap()@,
                );
                if has_default && pos < old(self).accounts@.len() {
                    final (self).account_cursor == Some(pos as usize)
                } else if old(self).accounts@.len() > 0 {
                    final (self).account_cursor == Some(0usize)
                } else {
                    final (self).account_cursor is None
                }
            }),
    {
        let default_id = match &self.config {
            Some(cfg) => match &cfg.default_account_id {
                Some(d) => Some(d.clone()),
                None => None,
            },
            None => None,
        };
        let mut pos: Option<usize> = None;
        if let Some(id) = &default_id {
            let mut i: usize = 0;
            while i < self.accounts.len() && pos.is_none()
                invariant
                    i <= self.accounts@.len(),
                    match pos {
                        Some(p) => (p as int) < self.accounts@.len()
                            && self.accounts@[p as int].account_uuid@ == id@ && (forall|q: int|
                            0 <= q < p ==> (#[trigger] self.accounts@[q]).account_uuid@ != id@),
                        None => forall|q: int|
                            0 <= q < i ==> (#[trigger] self.accounts@[q]).account_uuid@ != id@,
                    },
                decreases self.accounts@.len() - i,
            {
                if self.accounts[i].account_uuid == *id {
                    pos = Some(i);
                }
                i = i + 1;
            }
            proof {
                match pos {
                    Some(p) => lemma_first_account_pos_at(self.accounts@, id@, p as int),
                    None => lemma_first_account_pos_at(
                        self.accounts@,
                        id@,
                        self.accounts@.len() as int,
                    ),
                }
            }
        }
        match pos {
            Some(p) => {
                self.selected_account_idx = Some(p);
                self.account_cursor = Some(p);
            },
            None => {
                if self.accounts.len() > 0 {
                    self.selected_account_idx = Some(0);
                    self.account_cursor = Some(0);
                } else {
                    self.selected_account_idx = None;
                    self.account_cursor = None;
                }
            },
        }
    }

    /// Applies the stored default vault of the committed account to a
    /// freshly loaded vault list, when both exist.
    pub fn apply_default_vault(&mut self)
        requires
            old(self).wf(),
        ensures
            final (self).wf(),
            final (self).vaults == old(self).vaults,
            final (self).config == old(self).config,
            ({
                let has_default = committed_account_ok(*old(self)) && old(self).config is Some
                    && crate::assoc::has_key(
                    old(self).config.unwrap().default_vault_per_account@,
                    committed_account_uuid(*old(self)),
                );
                let vid = crate::assoc::val_of(
                    old(self).config.unwrap().default_vault_per_account@,
                    committed_account_uuid(*old(self)),
                )@;
                let pos = first_vault_pos(old(self).vaults@, vid);
                if has_default && pos < old(self).vaults@.len() {
                    final (self).selected_vault_idx == Some(pos as usize) && final (
                    self).vault_cursor == Some(pos as usize)
                } else {
                    final (self).selected_vault_idx == old(self).selected_vault_idx && final (
                    self).vault_cursor == old(self).vault_cursor
                }
            }),
    {
        let account_uuid = match self.selected_account() {
            Some(a) => Some(a.account_uuid.clone()),
            None => None,
        };
        let default_vault = match (&account_uuid, &self.config) {
            (Some(uuid), Some(cfg)) => match cfg.default_vault_for(uuid) {
                Some(v) => Some(v.clone()),
                None => None,
            },
            _ => None,
        };
        if let Some(vault_id) = &default_vault {
            let mut i: usize = 0;
            let mut pos: Option<usize> = None;
            while i < self.vaults.len() && pos.is_none()
                invariant
                    i <= self.vaults@.len(),
                    match pos {
                        Some(q) => (q as int) < self.vaults@.len() && self.vaults@[q as int].id@
                            == vault_id@ && (forall|q2: int|
                            0 <= q2 < q ==> (#[trigger] self.vaults@[q2]).id@ != vault_id@),
                        None => forall|q2: int|
                            0 <= q2 < i ==> (#[trigger] self.vaults@[q2]).id@ != vault_id@,
                    },
                decreases self.vaults@.len() - i,
            {
                if self.vaults[i].id == *vault_id {
                    pos = Some(i);
                }
                i = i + 1;
            }
            proof {
                match pos {
                    Some(q) => lemma_first_vault_pos_at(self.vaults@, vault_id@, q as int),
                    None => lemma_first_vault_pos_at(
                        self.vaults@,
                        vault_id@,
                        self.vaults@.len() as int,
                    ),
                }
            }
            if let Some(q) = pos {
                self.selected_vault_idx = Some(q);
                self.vault_cursor = Some(q);
            }
        }
    }
}

/// Where the cursor lands on an up key: one step back, wrapping to the
/// bottom; a cleared cursor starts from the top; an empty list is left
/// alone.
pub open spec fn wrap_up_spec(cur: Option<usize>, len: usize) -> Option<usize> {
    if len == 0 {
        cur
    } else {
        let idx = match cur {
            Some(i) => i,
            None => 0,
        };
        if idx == 0 {
            Some((len - 1) as usize)
        } else {
            Some((idx - 1) as usize)
        }
    }
}

/// Where the cursor lands on a down key: one step forward, wrapping to
/// the top.
pub open spec fn wrap_down_spec(cur: Option<usize>, len: usize) -> Option<usize> {
    if len == 0 {
        cur
    } else {
        let idx = match cur {
            Some(i) => i,
            None => 0,
        };
        if idx + 1 >= len {
            Some(0usize)
        } else {
            Some((idx + 1) as usize)
        }
    }
}

fn wrap_up(cur: Option<usize>, len: usize) -> (r: Option<usize>)
    requires
        cursor_ok(cur, len as nat),
    ensures
        r == wrap_up_spec(cur, len),
        cursor_ok(r, len as nat),
{
    if len == 0 {
        return cur;
    }
    let idx = match cur {
        Some(i) => i,
        None => 0,
    };
    if idx == 0 {
        Some(len - 1)
    } else {
        Some(idx - 1)
    }
}

fn wrap_down(cur: Option<usize>, len: usize) -> (r: Option<usize>)
    requires
        cursor_ok(cur, len as nat),
    ensures
        r == wrap_down_spec(cur, len),
        cursor_ok(r, len as nat),
{
    if len == 0 {
        return cur;
    }
    let idx = match cur {
        Some(i) => i,
        None => 0,
    };
    if idx + 1 >= len {
        Some(0)
    } else {
        Some(idx + 1)
    }
}

/// How many fields of an item the detail panel offers.
fn selectable_count(fields: &Vec<ItemField>) -> (n: usize)
    ensures
        n == selectable(fields@).len(),
{
    let mut n: usize = 0;
    let mut i: usize = 0;
    let ghost mut done: Seq<ItemField> = Seq::empty();
    let notes = "notesPlain".to_owned();
    proof {
        assert(fields@.skip(0) =~= fields@);
        assert(done + selectable(fields@.skip(0)) =~= selectable(fields@));
    }
    while i < fields.len()
        invariant
            i <= fields@.len(),
            notes@ == "notesPlain"@,
            n == done.len(),
            n <= i,
            selectable(fields@) == done + selectable(fields@.skip(i as int)),
        decreases fields@.len() - i,
    {
        let ghost tail = fields@.skip(i as int);
        proof {
            assert(tail[0] == fields@[i as int]);
            assert(tail.drop_first() =~= fields@.skip(i + 1));
        }
        if !(fields[i].label == notes) {
            proof {
                assert(selectable(tail) == seq![fields@[i as int]] + selectable(
                    fields@.skip(i + 1),
                ));
                done = done.push(fields@[i as int]);
                assert(done + selectable(fields@.skip(i + 1)) =~= selectable(fields@));
            }
            n = n + 1;
        } else {
            proof {
                assert(selectable(tail) == selectable(fields@.skip(i + 1)));
            }
        }
        i = i + 1;
    }
    proof {
        assert(fields@.skip(fields@.len() as int) =~= Seq::<ItemField>::empty());
        assert(done + selectable(fields@.skip(fields@.len() as int)) =~= done);
    }
    n
}

/// The field the detail panel shows at `idx`, notes excluded.
fn selectable_at(fields: &Vec<ItemField>, idx: usize) -> (r: &ItemField)
    requires
        (idx as int) < selectable(fields@).len(),
    ensures
        *r == selectable(fields@)[idx as int],
{
    let mut n: usize = 0;
    let mut i: usize = 0;
    let ghost mut done: Seq<ItemField> = Seq::empty();
    let notes = "notesPlain".to_owned();
    proof {
        assert(fields@.skip(0) =~= fields@);
        assert(done + selectable(fields@.skip(0)) =~= selectable(fields@));
    }
    while i < fields.len()
        invariant
            i <= fields@.len(),
            notes@ == "notesPlain"@,
            n == done.len(),
            n <= idx,
            (idx as int) < selectable(fields@).len(),
            selectable(fields@) == done + selectable(fields@.skip(i as int)),
        decreases fields@.len() - i,
    {
        let ghost tail = fields@.skip(i as int);
        proof {
            assert(tail[0] == fields@[i as int]);
            assert(tail.drop_first() =~= fields@.skip(i + 1));
        }
        if !(fields[i].label == notes) {
            proof {
                assert(selectable(tail) == seq![fields@[i as int]] + selectable(
                    fields@.skip(i + 1),
                ));
            }
            if n == idx {
                proof {
                    assert(selectable(fields@)[idx as int] == fields@[i as int]);
                }
                return &fields[i];
            }
            proof {
                done = done.push(fields@[i as int]);
                assert(done + selectable(fields@.skip(i + 1)) =~= selectable(fields@));
            }
            n = n + 1;
        } else {
            proof {
                assert(selectable(tail) == selectable(fields@.skip(i + 1)));
            }
        }
        i = i + 1;
    }
    proof {
        assert(fields@.skip(fields@.len() as int) =~= Seq::<ItemField>::empty());
        assert(done + selectable(fields@.skip(fields@.len() as int)) =~= done);
        assert(false);
    }
    vstd::pervasive::unreached()
}

/// The fields the detail panel shows, in order: every field except the
/// multi-line note bodies.
pub fn selectable_field_refs(fields: &Vec<ItemField>) -> (r: Vec<&ItemField>)
    ensures
        r@.len() == selectable(fields@).len(),
        forall|k: int| 0 <= k < r@.len() ==> *(#[trigger] r@[k]) == selectable(fields@)[k],
{
    let mut r: Vec<&ItemField> = Vec::new();
    let mut i: usize = 0;
    let ghost mut done: Seq<ItemField> = Seq::empty();
    let notes = "notesPlain".to_owned();
    proof {
        assert(fields@.skip(0) =~= fields@);
        assert(done + selectable(fields@.skip(0)) =~= selectable(fields@));
    }
    while i < fields.len()
        invariant
            i <= fields@.len(),
            notes@ == "notesPlain"@,
            r@.len() == done.len(),
            selectable(fields@) == done + selectable(fields@.skip(i as int)),
            forall|k: int| 0 <= k < r@.len() ==> *(#[trigger] r@[k]) == done[k],
        decreases fields@.len() - i,
    {
        let ghost tail = fields@.skip(i as int);
        proof {
            assert(tail[0] == fields@[i as int]);
            assert(tail.drop_first() =~= fields@.skip(i + 1));
        }
        if !(fields[i].label == notes) {
            proof {
                assert(selectable(tail) == seq![fields@[i as int]] + selectable(
                    fields@.skip(i + 1),
                ));
            }
            r.push(&fields[i]);
            proof {
                done = done.push(fields@[i as int]);
                assert(done + selectable(fields@.skip(i + 1)) =~= selectable(fields@));
            }
        } else {
            proof {
                assert(selectable(tail) == selectable(fields@.skip(i + 1)));
            }
        }
        i = i + 1;
    }
    proof {
        assert(fields@.skip(fields@.len() as int) =~= Seq::<ItemField>::empty());
        assert(done + selectable(fields@.skip(fields@.len() as int)) =~= done);
        assert(forall|k: int|
            0 <= k < r@.len() ==> done[k] == selectable(fields@)[k]);
    }
    r
}

/// Whether a typed character may enter an environment-variable name:
/// ASCII letters, digits and underscore.
pub open spec fn env_char_ok(c: char) -> bool {
    (48 <= (c as u32) && (c as u32) <= 57) || (65 <= (c as u32) && (c as u32) <= 90) || (97 <= (c
        as u32) && (c as u32) <= 122) || (c as u32) == 95
}

/// A lower-case letter maps to its upper-case form; everything else a
/// name accepts stays itself.
pub open spec fn env_char_upper_rel(c: char, d: char) -> bool {
    if 97 <= (c as u32) && (c as u32) <= 122 {
        (d as u32) == (c as u32) - 32
    } else {
        d == c
    }
}


/// The upper-cased form of a character a name accepts.
pub open spec fn env_upper_char(c: char) -> char {
    if 97 <= (c as u32) && (c as u32) <= 122 {
        ((((c as u32) - 32) as u8) as char)
    } else {
        c
    }
}

/// A string without its last character.
fn string_drop_last(s: &String) -> (r: String)
    ensures
        r@ == if s@.len() > 0 {
            s@.drop_last()
        } else {
            s@
        },
{
    let n = s.as_str().unicode_len();
    if n == 0 {
        s.clone()
    } else {
        let sub = s.as_str().substring_char(0, n - 1);
        proof {
            assert(sub@ =~= s@.drop_last());
        }
        sub.to_owned()
    }
}

/// The marked names joined for the clipboard: comma-separated.
pub open spec fn joined_names(names: Seq<String>) -> Seq<char>
    decreases names.len(),
{
    if names.len() == 0 {
        Seq::empty()
    } else if names.len() == 1 {
        names[0]@
    } else {
        names[0]@ + ", "@ + joined_names(names.drop_first())
    }
}

fn join_names_from(names: &Vec<String>, from: usize) -> (r: String)
    requires
        from <= names@.len(),
    ensures
        r@ == joined_names(names@.skip(from as int)),
    decreases names@.len() - from,
{
    let ghost tail = names@.skip(from as int);
    if from == names.len() {
        String::new()
    } else {
        proof {
            assert(tail[0] == names@[from as int]);
            assert(tail.drop_first() =~= names@.skip(from + 1));
        }
        let mut r = names[from].clone();
        if from + 1 < names.len() {
            r.append(", ");
            let rest = join_names_from(names, from + 1);
            r.append(rest.as_str());
            proof {
                assert(r@ =~= joined_names(tail));
            }
        } else {
            proof {
                assert(tail.len() == 1);
            }
        }
        r
    }
}

/// What a key means outside search and modals.
#[derive(Debug, Clone, Copy, PartialEq, Eq, Structural)]
pub enum NavAction {
    Up,
    Down,
    Select,
    Quit,
    PanelAccounts,
    PanelVaults,
    PanelItems,
    PanelDetail,
    PanelVars,
}

/// The navigation meaning of a key, if it has one.
pub open spec fn nav_action_of(key: Key) -> Option<NavAction> {
    match key {
        Key::Up => Some(NavAction::Up),
        Key::Down => Some(NavAction::Down),
        Key::Enter => Some(NavAction::Select),
        Key::Char(c) => {
            if c == 'k' || c == 'K' {
                Some(NavAction::Up)
            } else if c == 'j' || c == 'J' {
                Some(NavAction::Down)
            } else if c == 'q' || c == 'Q' {
                Some(NavAction::Quit)
            } else if c == '0' {
                Some(NavAction::PanelAccounts)
            } else if c == '1' {
                Some(NavAction::PanelVaults)
            } else if c == '2' {
                Some(NavAction::PanelItems)
            } else if c == '3' {
                Some(NavAction::PanelDetail)
            } else if c == 'v' || c == 'V' {
                Some(NavAction::PanelVars)
            } else {
                None
            }
        },
        _ => None,
    }
}

impl NavAction {
    fn from_key(key: Key) -> (r: Option<NavAction>)
        ensures
            r == nav_action_of(key),
    {
        match key {
            Key::Up => Some(NavAction::Up),
            Key::Down => Some(NavAction::Down),
            Key::Enter => Some(NavAction::Select),
            Key::Char(c) => {
                if c == 'k' || c == 'K' {
                    Some(NavAction::Up)
                } else if c == 'j' || c == 'J' {
                    Some(NavAction::Down)
                } else if c == 'q' || c == 'Q' {
                    Some(NavAction::Quit)
                } else if c == '0' {
                    Some(NavAction::PanelAccounts)
                } else if c == '1' {
                    Some(NavAction::PanelVaults)
                } else if c == '2' {
                    Some(NavAction::PanelItems)
                } else if c == '3' {
                    Some(NavAction::PanelDetail)
                } else if c == 'v' || c == 'V' {
                    Some(NavAction::PanelVars)
                } else {
                    None
                }
            },
            _ => None,
        }
    }
}

/// What a key means on the managed-variables panel.
#[derive(Debug, Clone, Copy, PartialEq, Eq, Structural)]
pub enum VarsAction {
    Toggle,
    Copy,
    Delete,
}

pub open spec fn vars_action_of(key: Key) -> Option<VarsAction> {
    match key {
        Key::Char(c) => {
            if c == ' ' {
                Some(VarsAction::Toggle)
            } else if c == 'c' || c == 'C' {
                Some(VarsAction::Copy)
            } else if c == 'd' || c == 'D' {
                Some(VarsAction::Delete)
            } else {
                None
            }
        },
        _ => None,
    }
}

impl VarsAction {
    fn from_key(key: Key) -> (r: Option<VarsAction>)
        ensures
            r == vars_action_of(key),
    {
        match key {
            Key::Char(c) => {
                if c == ' ' {
                    Some(VarsAction::Toggle)
                } else if c == 'c' || c == 'C' {
                    Some(VarsAction::Copy)
                } else if c == 'd' || c == 'D' {
                    Some(VarsAction::Delete)
                } else {
                    None
                }
            },
            _ => None,
        }
    }
}

impl App {
    /// Handles a key while a modal is open: list navigation never
    /// reaches the panels. Typing extends the binding name with the
    /// upper-cased character — anything but ASCII letters, digits and
    /// underscore is dropped, not converted. Enter validates and stores
    /// the binding; in the delete confirmation, `y` removes the listed
    /// bindings.
    pub fn handle_modal_key(&mut self, key: Key) -> (effects: Vec<Effect>)
        requires
            old(self).wf(),
            old(self).modal is Some,
        ensures
            final (self).wf(),
            final (self).accounts == old(self).accounts,
            final (self).vaults == old(self).vaults,
            final (self).vault_items == old(self).vault_items,
            final (self).filtered_item_indices == old(self).filtered_item_indices,
            final (self).focused_panel == old(self).focused_panel,
            final (self).search_query == old(self).search_query,
            final (self).search_active == old(self).search_active,
            final (self).selected_account_idx == old(self).selected_account_idx,
            final (self).selected_vault_idx == old(self).selected_vault_idx,
            final (self).account_cursor == old(self).account_cursor,
            final (self).vault_cursor == old(self).vault_cursor,
            final (self).item_cursor == old(self).item_cursor,
            final (self).detail_cursor == old(self).detail_cursor,
            final (self).selected_vault_item_idx == old(self).selected_vault_item_idx,
            final (self).selected_field_idx == old(self).selected_field_idx,
            final (self).selected_item_details == old(self).selected_item_details,
            final (self).should_quit == old(self).should_quit,
            key == Key::Esc ==> final (self).modal is None,
            (modal_name_of(old(self).modal) is Some && key_char_of(key) is Some && env_char_ok(
                key_char_of(key).unwrap(),
            )) ==> final (self).error_message is None,
            (modal_name_of(old(self).modal) is Some && key == Key::Backspace) ==> final (
            self).error_message is None,
            (modal_name_of(old(self).modal) == Some(Seq::<char>::empty()) && key == Key::Enter)
                ==> (final (self).error_message is Some && modal_name_of(final (self).modal)
                == Some(Seq::<char>::empty()) && modal_reference_of(final (self).modal)
                == modal_reference_of(old(self).modal) && final (self).config == old(self).config
                && effects@.len() == 0),
            ({
                &&& modal_name_of(old(self).modal) is Some
                &&& modal_name_of(old(self).modal).unwrap().len() > 0
                &&& key == Key::Enter
                &&& committed_account_ok(*old(self))
                &&& old(self).config is Some
            }) ==> ({
                let n = modal_name_of(old(self).modal).unwrap();
                &&& final (self).modal is None
                &&& final (self).error_message is None
                &&& final (self).config is Some
                &&& crate::assoc::has_key(final (self).config.unwrap().inject_vars@, n)
                &&& crate::assoc::val_of(final (self).config.unwrap().inject_vars@, n).account_id@
                    == committed_account_uuid(*old(self))
                &&& crate::assoc::val_of(
                    final (self).config.unwrap().inject_vars@,
                    n,
                ).op_reference@ == modal_reference_of(old(self).modal).unwrap()
                &&& final (self).managed_vars@.len() == final (
                self).config.unwrap().inject_vars@.len()
                &&& effects@.len() == 1
                &&& effects@[0] matches Effect::PersistConfig
                &&& final (self).command_log.entries@.len() > 0
                &&& final (self).command_log.entries@.last().command@ == "Saved "@ + n
                    + " to config"@
                &&& final (self).command_log.entries@.last().status == (CommandStatus::Success {
                    item_count: None,
                })
            }),
            ({
                &&& modal_name_of(old(self).modal) is Some
                &&& modal_name_of(old(self).modal).unwrap().len() > 0
                &&& key == Key::Enter
                &&& !(committed_account_ok(*old(self)) && old(self).config is Some)
            }) ==> (final (self).error_message is Some && modal_name_of(final (self).modal)
                == modal_name_of(old(self).modal) && final (self).config == old(self).config
                && effects@.len() == 0),
            (modal_name_of(old(self).modal) is Some && key_char_of(key) is Some) ==> ({
                let c = key_char_of(key).unwrap();
                (if env_char_ok(c) {
                    modal_name_of(final (self).modal) == Some(
                        modal_name_of(old(self).modal).unwrap().push(env_upper_char(c)),
                    )
                } else {
                    modal_name_of(final (self).modal) == modal_name_of(old(self).modal)
                }) && modal_reference_of(final (self).modal) == modal_reference_of(
                    old(self).modal,
                )
            }),
            (modal_name_of(old(self).modal) is Some && key == Key::Backspace) ==> modal_name_of(
                final (self).modal,
            ) == Some(
                if modal_name_of(old(self).modal).unwrap().len() > 0 {
                    modal_name_of(old(self).modal).unwrap().drop_last()
                } else {
                    modal_name_of(old(self).modal).unwrap()
                },
            ),
    {
        let mut effects: Vec<Effect> = Vec::new();
        let m = self.modal.take();
        match m {
            Some(Modal::EnvVar { name, field_reference }) => {
                match key {
                    Key::Esc => {
                        self.error_message = None;
                    },
                    Key::Backspace => {
                        let shorter = string_drop_last(&name);
                        self.error_message = None;
                        self.modal = Some(
                            Modal::EnvVar { name: shorter, field_reference },
                        );
                    },
                    Key::Char(c) => {
                        let u = c as u32;
                        let ok = (48 <= u && u <= 57) || (65 <= u && u <= 90) || (97 <= u && u
                            <= 122) || u == 95;
                        let mut name = name;
                        if ok {
                            let d: char = if 97 <= u && u <= 122 {
                                ((c as u8) - 32) as char
                            } else {
                                c
                            };
                            proof {
                                assert(d == env_upper_char(c));
                            }
                            crate::text::push_char(&mut name, d);
                            self.error_message = None;
                        }
                        self.modal = Some(Modal::EnvVar { name, field_reference });
                    },
                    Key::Enter => {
                        let empty = name.as_str().unicode_len() == 0;
                        if empty {
                            self.error_message = Some(
                                "Environment variable name cannot be empty".to_owned(),
                            );
                            self.modal = Some(Modal::EnvVar { name, field_reference });
                        } else {
                            let account_id = match self.selected_account() {
                                Some(a) => Some(a.account_uuid.clone()),
                                None => None,
                            };
                            match account_id {
                                Some(account) => {
                                    let saved = self.save_op_item_config(
                                        name.clone(),
                                        account,
                                        field_reference.clone(),
                                    );
                                    match saved {
                                        Ok(_) => {
                                            let mut msg = "Saved ".to_owned();
                                            msg.append(name.as_str());
                                            msg.append(" to config");
                                            self.command_log.log_success(msg, None);
                                            proof {
                                                crate::command_log::lemma_log_keeps_last(
                                                    old(self).command_log.entries@,
                                                    crate::command_log::CommandLogEntry {
                                                        command: msg,
                                                        status: CommandStatus::Success {
                                                            item_count: None,
                                                        },
                                                    },
                                                    self.command_log.entries@,
                                                );
                                            }
                                            self.load_managed_vars();
                                            if self.vars_cursor.is_none()
                                                && self.managed_vars.len() > 0 {
                                                self.vars_cursor = Some(0);
                                            }
                                            self.error_message = None;
                                            effects.push(Effect::PersistConfig);
                                        },
                                        Err(_) => {
                                            self.error_message = Some(
                                                "Configuration can't be saved because it is not loaded".to_owned(),
                                            );
                                            self.modal = Some(
                                                Modal::EnvVar { name, field_reference },
                                            );
                                        },
                                    }
                                },
                                None => {
                                    self.error_message = Some("No account selected".to_owned());
                                    self.modal = Some(Modal::EnvVar { name, field_reference });
                                },
                            }
                        }
                    },
                    _ => {
                        self.modal = Some(Modal::EnvVar { name, field_reference });
                    },
                }
            },
            Some(Modal::VarDeleteConfirm { targets }) => {
                match key {
                    Key::Esc => {
                        self.error_message = None;
                    },
                    Key::Char(c) => {
                        if c == 'n' || c == 'N' {
                            self.error_message = None;
                        } else if c == 'y' || c == 'Y' {
                            let removed = self.remove_managed_vars(&targets);
                            match removed {
                                Ok(_) => {
                                    self.command_log.log_success("Vars removed".to_owned(), None);
                                    self.error_message = None;
                                    effects.push(Effect::PersistConfig);
                                },
                                Err(_) => {
                                    self.error_message = Some(
                                        "Configuration can't be saved because it is not loaded".to_owned(),
                                    );
                                    self.modal = Some(Modal::VarDeleteConfirm { targets });
                                },
                            }
                        } else {
                            self.modal = Some(Modal::VarDeleteConfirm { targets });
                        }
                    },
                    _ => {
                        self.modal = Some(Modal::VarDeleteConfirm { targets });
                    },
                }
            },
            None => {},
        }
        effects
    }

    /// Handles a key while search is active: typing edits the query and
    /// refilters at every keystroke, Escape clears the search, Enter
    /// leaves search mode and commits the focused filtered item.
    pub fn handle_search_key(&mut self, key: Key) -> (effects: Vec<Effect>)
        requires
            old(self).wf(),
            old(self).search_active,
            old(self).modal is None,
        ensures
            final (self).wf(),
            final (self).accounts == old(self).accounts,
            final (self).vaults == old(self).vaults,
            final (self).vault_items == old(self).vault_items,
            key_char_of(key) is Some ==> final (self).search_query@ == old(
                self,
            ).search_query@.push(key_char_of(key).unwrap()) && is_refiltered(
                old(self).vault_items@,
                final (self).search_query@,
                final (self).filtered_item_indices@,
            ),
            key == Key::Backspace ==> final (self).search_query@ == (
            if old(self).search_query@.len() > 0 {
                old(self).search_query@.drop_last()
            } else {
                old(self).search_query@
            }) && is_refiltered(
                old(self).vault_items@,
                final (self).search_query@,
                final (self).filtered_item_indices@,
            ),
            key == Key::Esc ==> final (self).search_query@.len() == 0 && final (self).search_active
                == false,
            key == Key::Enter ==> (final (self).search_active == false && final (
            self).selected_vault_item_idx == old(self).item_cursor && ((old(self).item_cursor
                is Some && committed_account_ok(*old(self)) && committed_vault_ok(*old(self)))
                ==> (effects@.len() == 1 && load_details_of(effects@[0]) == Some(
                (
                    committed_account_uuid(*old(self)),
                    committed_vault_id(*old(self)),
                    old(self).vault_items@[old(self).filtered_item_indices@[old(
                        self,
                    ).item_cursor.unwrap() as int] as int].id@,
                ),
            )))),
            key == Key::Up ==> final (self).item_cursor == wrap_up_spec(
                old(self).item_cursor,
                old(self).filtered_item_indices@.len() as usize,
            ),
            key == Key::Down ==> final (self).item_cursor == wrap_down_spec(
                old(self).item_cursor,
                old(self).filtered_item_indices@.len() as usize,
            ),
    {
        let mut effects: Vec<Effect> = Vec::new();
        match key {
            Key::Esc => {
                self.clear_search();
            },
            Key::Enter => {
                self.search_active = false;
                effects = self.select_item();
            },
            Key::Backspace => {
                self.search_query = string_drop_last(&self.search_query);
                self.update_filtered_items();
            },
            Key::Char(c) => {
                crate::text::push_char(&mut self.search_query, c);
                self.update_filtered_items();
            },
            Key::Up => {
                self.item_cursor = wrap_up(self.item_cursor, self.filtered_item_indices.len());
            },
            Key::Down => {
                self.item_cursor = wrap_down(self.item_cursor, self.filtered_item_indices.len());
            },
        }
        effects
    }

    /// Handles a managed-variables action: toggling the mark under the
    /// cursor, copying the marked names (else the one under the cursor)
    /// to the clipboard, or asking to delete them.
    fn handle_vars_action(&mut self, action: VarsAction) -> (effects: Vec<Effect>)
        requires
            old(self).wf(),
        ensures
            final (self).wf(),
            final (self).accounts == old(self).accounts,
            final (self).vaults == old(self).vaults,
            final (self).vault_items == old(self).vault_items,
            final (self).filtered_item_indices == old(self).filtered_item_indices,
            final (self).config == old(self).config,
            final (self).managed_vars == old(self).managed_vars,
            (action == VarsAction::Toggle && old(self).vars_cursor is None) ==> final (
            self).managed_vars_selected == old(self).managed_vars_selected,
            (action == VarsAction::Toggle && old(self).vars_cursor is Some) ==> ({
                let name = old(self).managed_vars@[old(self).vars_cursor.unwrap() as int];
                &&& ((forall|j: int|
                    0 <= j < old(self).managed_vars_selected@.len() ==> (#[trigger] old(
                        self,
                    ).managed_vars_selected@[j])@ != name@) ==> (final (
                self).managed_vars_selected@.len() == old(self).managed_vars_selected@.len() + 1
                    && final (self).managed_vars_selected@[old(
                    self,
                ).managed_vars_selected@.len() as int]@ == name@))
                &&& ((exists|j: int|
                    0 <= j < old(self).managed_vars_selected@.len() && (#[trigger] old(
                        self,
                    ).managed_vars_selected@[j])@ == name@) ==> exists|j: int|
                    0 <= j < old(self).managed_vars_selected@.len() && (#[trigger] old(
                        self,
                    ).managed_vars_selected@[j])@ == name@ && final (self).managed_vars_selected@
                        == old(self).managed_vars_selected@.remove(j))
            }),
            (action == VarsAction::Copy && old(self).managed_vars_selected@.len() > 0) ==> (
            effects@.len() == 1 && exists|sn: Seq<String>|
                sorted_names_of(old(self).managed_vars_selected@, sn) && copy_text_of(
                    effects@[0],
                ) == Some(joined_names(sn))),
            (action == VarsAction::Copy && old(self).managed_vars_selected@.len() == 0 && old(
                self,
            ).vars_cursor is Some) ==> (effects@.len() == 1 && copy_text_of(effects@[0]) == Some(
                old(self).managed_vars@[old(self).vars_cursor.unwrap() as int]@,
            )),
            (action == VarsAction::Copy && old(self).managed_vars_selected@.len() == 0 && old(
                self,
            ).vars_cursor is None) ==> (effects@.len() == 0 && final (
            self).command_log.entries@.len() > 0 && final (
            self).command_log.entries@.last().command@ == "Vars copy"@ && failed_stderr_of(
                final (self).command_log.entries@.last().status,
            ) == Some("No vars selected"@)),
            (action == VarsAction::Delete && old(self).managed_vars_selected@.len() > 0) ==> (
            effects@.len() == 0 && exists|sn: Seq<String>|
                sorted_names_of(old(self).managed_vars_selected@, sn) && modal_targets_of(
                    final (self).modal,
                ) == Some(sn)),
            (action == VarsAction::Delete && old(self).managed_vars_selected@.len() == 0 && old(
                self,
            ).vars_cursor is Some) ==> (effects@.len() == 0 && modal_targets_of(
                final (self).modal,
            ) == Some(
                seq![old(self).managed_vars@[old(self).vars_cursor.unwrap() as int]],
            )),
            (action == VarsAction::Delete && old(self).managed_vars_selected@.len() == 0 && old(
                self,
            ).vars_cursor is None) ==> (final (self).modal == old(self).modal && final (
            self).command_log.entries@.len() > 0 && final (
            self).command_log.entries@.last().command@ == "Vars delete"@),
    {
        let mut effects: Vec<Effect> = Vec::new();
        match action {
            VarsAction::Toggle => {
                let name = match self.vars_cursor {
                    Some(i) => Some(self.managed_vars[i].clone()),
                    None => None,
                };
                if let Some(n) = name {
                    self.toggle_managed_var_selection(&n);
                }
            },
            VarsAction::Copy => {
                let marked = self.managed_vars_selected.len();
                let vars = self.vars_action_targets();
                if vars.len() == 0 {
                    let cmd = "Vars copy".to_owned();
                    let why = "No vars selected".to_owned();
                    self.command_log.log_failure(cmd, why);
                    proof {
                        crate::command_log::lemma_log_keeps_last(
                            old(self).command_log.entries@,
                            crate::command_log::CommandLogEntry {
                                command: cmd,
                                status: CommandStatus::Failed { stderr: why },
                            },
                            self.command_log.entries@,
                        );
                    }
                } else {
                    let payload = join_names_from(&vars, 0);
                    proof {
                        assert(vars@.skip(0) =~= vars@);
                        if marked == 0 {
                            assert(vars@.len() == 1);
                            assert(joined_names(vars@) == vars@[0]@);
                        }
                    }
                    effects.push(Effect::CopyToClipboard { text: payload });
                }
            },
            VarsAction::Delete => {
                let vars = self.vars_action_targets();
                if vars.len() == 0 {
                    let cmd = "Vars delete".to_owned();
                    let why = "No vars selected".to_owned();
                    self.command_log.log_failure(cmd, why);
                    proof {
                        crate::command_log::lemma_log_keeps_last(
                            old(self).command_log.entries@,
                            crate::command_log::CommandLogEntry {
                                command: cmd,
                                status: CommandStatus::Failed { stderr: why },
                            },
                            self.command_log.entries@,
                        );
                    }
                } else {
                    self.modal = Some(Modal::VarDeleteConfirm { targets: vars });
                }
            },
        }
        effects
    }

    /// The names a copy or delete acts on, in ascending order: the
    /// marked set when any mark exists, else the name under the cursor.
    fn vars_action_targets(&self) -> (r: Vec<String>)
        requires
            self.wf(),
        ensures
            self.managed_vars_selected@.len() > 0 ==> sorted_names_of(
                self.managed_vars_selected@,
                r@,
            ),
            (self.managed_vars_selected@.len() == 0 && self.vars_cursor is Some) ==> (r@.len()
                == 1 && r@[0] == self.managed_vars@[self.vars_cursor.unwrap() as int]),
            (self.managed_vars_selected@.len() == 0 && self.vars_cursor is None) ==> r@.len()
                == 0,
    {
        if self.managed_vars_selected.len() > 0 {
            crate::text::sort_distinct_names(&self.managed_vars_selected)
        } else {
            let mut r: Vec<String> = Vec::new();
            match self.vars_cursor {
                Some(i) => {
                    r.push(self.managed_vars[i].clone());
                },
                None => {},
            }
            r
        }
    }

    /// Records the outcome of putting the marked names on the
    /// clipboard.
    pub fn commit_copy_result(&mut self, ok: bool, stderr: String)
        requires
            old(self).wf(),
        ensures
            final (self).wf(),
            final (self).command_log.entries@.len() > 0,
            ok ==> final (self).command_log.entries@.last().command@ == "Vars copied"@
                && final (self).command_log.entries@.last().status == (CommandStatus::Success {
                item_count: None,
            }),
            !ok ==> final (self).command_log.entries@.last().command@ == "Vars copy"@
                && final (self).command_log.entries@.last().status == (CommandStatus::Failed {
                stderr,
            }),
    {
        if ok {
            let cmd = "Vars copied".to_owned();
            self.command_log.log_success(cmd, None);
            proof {
                crate::command_log::lemma_log_keeps_last(
                    old(self).command_log.entries@,
                    crate::command_log::CommandLogEntry {
                        command: cmd,
                        status: CommandStatus::Success { item_count: None },
                    },
                    self.command_log.entries@,
                );
            }
        } else {
            let cmd = "Vars copy".to_owned();
            self.command_log.log_failure(cmd, stderr);
            proof {
                crate::command_log::lemma_log_keeps_last(
                    old(self).command_log.entries@,
                    crate::command_log::CommandLogEntry {
                        command: cmd,
                        status: CommandStatus::Failed { stderr },
                    },
                    self.command_log.entries@,
                );
            }
        }
    }

    /// The favorite action: persists the entry under the cursor as the
    /// panel's default and re-runs the same commit cascade a Select
    /// would.
    fn handle_favorite(&mut self) -> (effects: Vec<Effect>)
        requires
            old(self).wf(),
        ensures
            final (self).wf(),
            (old(self).focused_panel == FocusedPanel::AccountList && old(self).account_cursor
                is Some && (old(self).account_cursor.unwrap() as int) < old(self).accounts@.len()
                && old(self).config is Some) ==> (final (self).config is Some && final (
            self).config.unwrap().default_account_id is Some && final (
            self).config.unwrap().default_account_id.unwrap()@ == old(self).accounts@[old(
                self,
            ).account_cursor.unwrap() as int].account_uuid@),
    {
        let mut effects: Vec<Effect> = Vec::new();
        match self.focused_panel {
            FocusedPanel::AccountList => {
                let account_id = match self.account_cursor {
                    Some(i) => {
                        if i < self.accounts.len() {
                            Some(self.accounts[i].account_uuid.clone())
                        } else {
                            None
                        }
                    },
                    None => None,
                };
                if let Some(id) = account_id {
                    let saved = self.set_default_account(id);
                    match saved {
                        Ok(_) => {
                            self.command_log.log_success(
                                "Saved default account configuration".to_owned(),
                                None,
                            );
                            effects.push(Effect::PersistConfig);
                            let mut more = self.select_account();
                            effects.append(&mut more);
                        },
                        Err(_) => {
                            self.command_log.log_failure(
                                "Failed to save default account configuration".to_owned(),
                                "configuration is not loaded".to_owned(),
                            );
                        },
                    }
                }
            },
            FocusedPanel::VaultList => {
                let account_id = match self.selected_account() {
                    Some(a) => Some(a.account_uuid.clone()),
                    None => None,
                };
                let vault_id = match self.vault_cursor {
                    Some(i) => {
                        if i < self.vaults.len() {
                            Some(self.vaults[i].id.clone())
                        } else {
                            None
                        }
                    },
                    None => None,
                };
                match (account_id, vault_id) {
                    (Some(aid), Some(vid)) => {
                        let saved = self.set_default_vault(aid, vid);
                        match saved {
                            Ok(_) => {
                                self.command_log.log_success(
                                    "Saved default vault configuration".to_owned(),
                                    None,
                                );
                                effects.push(Effect::PersistConfig);
                                let mut more = self.select_vault();
                                effects.append(&mut more);
                            },
                            Err(_) => {
                                self.command_log.log_failure(
                                    "Failed to save default vault configuration".to_owned(),
                                    "configuration is not loaded".to_owned(),
                                );
                            },
                        }
                    },
                    _ => {},
                }
            },
            _ => {},
        }
        effects
    }

    /// One key press drives at most one transition. Modals take the key
    /// first, then an active search, then the panel shortcuts and list
    /// navigation. While a modal is open no panel state moves.
    pub fn handle_key(&mut self, key: Key) -> (effects: Vec<Effect>)
        requires
            old(self).wf(),
        ensures
            final (self).wf(),
            old(self).modal is Some ==> final (self).accounts == old(self).accounts && final (self).vaults == old(self).vaults && final (self).vault_items == old(self).vault_items
                && final (self).filtered_item_indices == old(self).filtered_item_indices && final (self).focused_panel == old(self).focused_panel && final (self).search_query == old(
                self,
            ).search_query && final (self).search_active == old(self).search_active,
            old(self).modal is Some ==> final (self).account_cursor == old(self).account_cursor
                && final (self).vault_cursor == old(self).vault_cursor && final (self).item_cursor
                == old(self).item_cursor && final (self).detail_cursor == old(self).detail_cursor
                && final (self).selected_account_idx == old(self).selected_account_idx && final (
            self).selected_vault_idx == old(self).selected_vault_idx && final (
            self).selected_vault_item_idx == old(self).selected_vault_item_idx && final (
            self).selected_item_details == old(self).selected_item_details && final (
            self).should_quit == old(self).should_quit,
            (old(self).modal is None && !old(self).search_active && (key == Key::Char('q') || key
                == Key::Char('Q'))) ==> *final (self) == (App {
                should_quit: true,
                ..*old(self)
            }),
            (old(self).modal is None && !old(self).search_active && key == Key::Char('/') && (old(
                self,
            ).focused_panel == FocusedPanel::VaultItemList || old(self).focused_panel
                == FocusedPanel::VaultItemDetail)) ==> *final (self) == (App {
                search_active: true,
                ..*old(self)
            }),
            (plain_nav_key(*old(self), key) && nav_action_of(key) == Some(NavAction::Up)) ==> (
            same_but_cursors(*old(self), *final (self)) && panel_cursor(
                *final (self),
                old(self).focused_panel,
            ) == wrap_up_spec(
                panel_cursor(*old(self), old(self).focused_panel),
                panel_list_len(*old(self), old(self).focused_panel) as usize,
            ) && (forall|p: FocusedPanel|
                p != old(self).focused_panel ==> panel_cursor(*final (self), p) == panel_cursor(
                    *old(self),
                    p,
                )) && effects@.len() == 0),
            (plain_nav_key(*old(self), key) && nav_action_of(key) == Some(NavAction::Down)) ==> (
            same_but_cursors(*old(self), *final (self)) && panel_cursor(
                *final (self),
                old(self).focused_panel,
            ) == wrap_down_spec(
                panel_cursor(*old(self), old(self).focused_panel),
                panel_list_len(*old(self), old(self).focused_panel) as usize,
            ) && (forall|p: FocusedPanel|
                p != old(self).focused_panel ==> panel_cursor(*final (self), p) == panel_cursor(
                    *old(self),
                    p,
                )) && effects@.len() == 0),
            (plain_nav_key(*old(self), key) && key == Key::Enter && old(self).focused_panel
                == FocusedPanel::AccountList) ==> (final (self).selected_account_idx == old(
                self,
            ).account_cursor && final (self).selected_vault_idx is None && final (
            self).selected_vault_item_idx is None && final (self).selected_item_details is None
                && final (self).search_query@.len() == 0 && final (self).search_active == false
                && final (self).focused_panel == FocusedPanel::VaultList && effects@.len() == 1
                && load_vaults_of(effects@[0]) == Some(
                match old(self).account_cursor {
                    Some(i) => Some(old(self).accounts@[i as int].account_uuid@),
                    None => None::<Seq<char>>,
                },
            )),
            (plain_nav_key(*old(self), key) && key == Key::Enter && old(self).focused_panel
                == FocusedPanel::VaultList) ==> (final (self).selected_vault_idx == old(
                self,
            ).vault_cursor && final (self).focused_panel == FocusedPanel::VaultItemList && ((
            committed_account_ok(*old(self)) && old(self).vault_cursor is Some) ==> (
            effects@.len() == 1 && load_items_of(effects@[0]) == Some(
                (
                    committed_account_uuid(*old(self)),
                    old(self).vaults@[old(self).vault_cursor.unwrap() as int].id@,
                ),
            ))) && (!(committed_account_ok(*old(self)) && old(self).vault_cursor is Some) ==> (
            effects@.len() == 0 && final (self).error_message is Some))),
            (plain_nav_key(*old(self), key) && key == Key::Enter && old(self).focused_panel
                == FocusedPanel::VaultItemList) ==> (final (self).selected_vault_item_idx == old(
                self,
            ).item_cursor && ((old(self).item_cursor is Some && committed_account_ok(*old(self))
                && committed_vault_ok(*old(self))) ==> (effects@.len() == 1 && load_details_of(
                effects@[0],
            ) == Some(
                (
                    committed_account_uuid(*old(self)),
                    committed_vault_id(*old(self)),
                    old(self).vault_items@[old(self).filtered_item_indices@[old(
                        self,
                    ).item_cursor.unwrap() as int] as int].id@,
                ),
            )))),
            (plain_nav_key(*old(self), key) && key == Key::Enter && old(self).focused_panel
                == FocusedPanel::VaultItemDetail) ==> (final (self).selected_field_idx == old(
                self,
            ).detail_cursor && ((old(self).detail_cursor is Some && old(
                self,
            ).selected_item_details is Some) ==> (modal_name_of(final (self).modal) == Some(
                Seq::<char>::empty(),
            ) && modal_reference_of(final (self).modal) == Some(
                selectable(old(self).selected_item_details.unwrap().fields@)[old(
                    self,
                ).detail_cursor.unwrap() as int].reference@,
            ))) && effects@.len() == 0),
            (plain_nav_key(*old(self), key) && key == Key::Enter && old(self).focused_panel
                == FocusedPanel::VarsList) ==> (*final (self) == *old(self) && effects@.len()
                == 0),
            (plain_nav_key(*old(self), key) && nav_action_of(key) == Some(
                NavAction::PanelAccounts,
            )) ==> *final (self) == (App {
                focused_panel: FocusedPanel::AccountList,
                ..*old(self)
            }),
            (plain_nav_key(*old(self), key) && nav_action_of(key) == Some(
                NavAction::PanelVaults,
            )) ==> *final (self) == (App { focused_panel: FocusedPanel::VaultList, ..*old(self) }),
            (plain_nav_key(*old(self), key) && nav_action_of(key) == Some(NavAction::PanelItems))
                ==> *final (self) == (App {
                focused_panel: FocusedPanel::VaultItemList,
                ..*old(self)
            }),
            (plain_nav_key(*old(self), key) && nav_action_of(key) == Some(
                NavAction::PanelDetail,
            )) ==> *final (self) == (App {
                focused_panel: FocusedPanel::VaultItemDetail,
                ..*old(self)
            }),
            (plain_nav_key(*old(self), key) && nav_action_of(key) == Some(NavAction::PanelVars))
                ==> *final (self) == (App {
                focused_panel: FocusedPanel::VarsList,
                vars_cursor: if old(self).vars_cursor is None && old(self).managed_vars@.len()
                    > 0 {
                    Some(0usize)
                } else {
                    old(self).vars_cursor
                },
                ..*old(self)
            }),
            unknown_key(*old(self), key) ==> (*final (self) == *old(self) && effects@.len() == 0),
    {
        if self.modal.is_some() {
            return self.handle_modal_key(key);
        }
        if self.search_active {
            return self.handle_search_key(key);
        }
        if key == Key::Char('/') && (self.focused_panel == FocusedPanel::VaultItemList
            || self.focused_panel == FocusedPanel::VaultItemDetail) {
            self.search_active = true;
            return Vec::new();
        }
        if self.focused_panel == FocusedPanel::VarsList {
            if let Some(action) = VarsAction::from_key(key) {
                return self.handle_vars_action(action);
            }
        }
        if key == Key::Char('f') || key == Key::Char('F') {
            return self.handle_favorite();
        }
        let action = match NavAction::from_key(key) {
            Some(a) => a,
            None => {
                return Vec::new();
            },
        };
        match action {
            NavAction::Quit => {
                self.should_quit = true;
                Vec::new()
            },
            NavAction::PanelAccounts => {
                self.focused_panel = FocusedPanel::AccountList;
                Vec::new()
            },
            NavAction::PanelVaults => {
                self.focused_panel = FocusedPanel::VaultList;
                Vec::new()
            },
            NavAction::PanelItems => {
                self.focused_panel = FocusedPanel::VaultItemList;
                Vec::new()
            },
            NavAction::PanelDetail => {
                self.focused_panel = FocusedPanel::VaultItemDetail;
                Vec::new()
            },
            NavAction::PanelVars => {
                self.focused_panel = FocusedPanel::VarsList;
                if self.vars_cursor.is_none() && self.managed_vars.len() > 0 {
                    self.vars_cursor = Some(0);
                }
                Vec::new()
            },
            NavAction::Up => {
                self.move_cursor_up();
                Vec::new()
            },
            NavAction::Down => {
                self.move_cursor_down();
                Vec::new()
            },
            NavAction::Select => {
                match self.focused_panel {
                    FocusedPanel::AccountList => self.select_account(),
                    FocusedPanel::VaultList => self.select_vault(),
                    FocusedPanel::VaultItemList => self.select_item(),
                    FocusedPanel::VaultItemDetail => {
                        self.select_detail_field();
                        Vec::new()
                    },
                    FocusedPanel::VarsList => Vec::new(),
                }
            },
        }
    }

    /// Moves the focused panel's cursor one step up, wrapping at the
    /// top; an empty list is left alone, and nothing else changes.
    pub fn move_cursor_up(&mut self)
        requires
            old(self).wf(),
        ensures
            final (self).wf(),
            same_but_cursors(*old(self), *final (self)),
            panel_cursor(*final (self), old(self).focused_panel) == wrap_up_spec(
                panel_cursor(*old(self), old(self).focused_panel),
                panel_list_len(*old(self), old(self).focused_panel) as usize,
            ),
            forall|p: FocusedPanel|
                p != old(self).focused_panel ==> panel_cursor(*final (self), p) == panel_cursor(
                    *old(self),
                    p,
                ),
    {
        match self.focused_panel {
            FocusedPanel::AccountList => {
                self.account_cursor = wrap_up(self.account_cursor, self.accounts.len());
            },
            FocusedPanel::VaultList => {
                self.vault_cursor = wrap_up(self.vault_cursor, self.vaults.len());
            },
            FocusedPanel::VaultItemList => {
                self.item_cursor = wrap_up(self.item_cursor, self.filtered_item_indices.len());
            },
            FocusedPanel::VaultItemDetail => {
                let len = match &self.selected_item_details {
                    Some(d) => selectable_count(&d.fields),
                    None => 0,
                };
                self.detail_cursor = wrap_up(self.detail_cursor, len);
            },
            FocusedPanel::VarsList => {
                self.vars_cursor = wrap_up(self.vars_cursor, self.managed_vars.len());
            },
        }
    }

    /// Moves the focused panel's cursor one step down, wrapping at the
    /// bottom; an empty list is left alone, and nothing else changes.
    pub fn move_cursor_down(&mut self)
        requires
            old(self).wf(),
        ensures
            final (self).wf(),
            same_but_cursors(*old(self), *final (self)),
            panel_cursor(*final (self), old(self).focused_panel) == wrap_down_spec(
                panel_cursor(*old(self), old(self).focused_panel),
                panel_list_len(*old(self), old(self).focused_panel) as usize,
            ),
            forall|p: FocusedPanel|
                p != old(self).focused_panel ==> panel_cursor(*final (self), p) == panel_cursor(
                    *old(self),
                    p,
                ),
    {
        match self.focused_panel {
            FocusedPanel::AccountList => {
                self.account_cursor = wrap_down(self.account_cursor, self.accounts.len());
            },
            FocusedPanel::VaultList => {
                self.vault_cursor = wrap_down(self.vault_cursor, self.vaults.len());
            },
            FocusedPanel::VaultItemList => {
                self.item_cursor = wrap_down(self.item_cursor, self.filtered_item_indices.len());
            },
            FocusedPanel::VaultItemDetail => {
                let len = match &self.selected_item_details {
                    Some(d) => selectable_count(&d.fields),
                    None => 0,
                };
                self.detail_cursor = wrap_down(self.detail_cursor, len);
            },
            FocusedPanel::VarsList => {
                self.vars_cursor = wrap_down(self.vars_cursor, self.managed_vars.len());
            },
        }
    }
}

} // verus!
