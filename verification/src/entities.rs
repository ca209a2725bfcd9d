//! The entities served by the secret source, and the persistent
//! configuration document. The embedding application deserializes the
//! secret source's output and the stored configuration into these plain
//! shapes before handing them to the library.
use vstd::prelude::*;

use crate::assoc::{assoc_insert, assoc_keys, assoc_remove, has_key, unique_keys, val_of};

verus! {

/// One tenant of the secret source; scopes vaults.
#[derive(Debug, Clone)]
pub struct Account {
    pub email: String,
    pub user_uuid: String,
    pub account_uuid: String,
}

/// A named collection of items within an account.
#[derive(Debug, Clone)]
pub struct Vault {
    pub id: String,
    pub name: String,
}

/// A URL attached to an item.
#[derive(Debug, Clone)]
pub struct ItemUrl {
    pub label: Option<String>,
    pub primary: bool,
    pub href: String,
}

/// The summary view of a secret record, as listed for a vault.
#[derive(Debug, Clone)]
pub struct VaultItem {
    pub id: String,
    pub title: String,
    pub category: String,
    pub additional_information: Option<String>,
    pub urls: Vec<ItemUrl>,
}

/// A section grouping fields inside an item.
#[derive(Debug, Clone)]
pub struct FieldSection {
    pub id: String,
    pub label: Option<String>,
}

/// One named value within an item, addressable by its stable reference.
#[derive(Debug, Clone)]
pub struct ItemField {
    pub label: String,
    pub value: Option<String>,
    pub field_type: String,
    pub reference: String,
    pub section: Option<FieldSection>,
}

/// The full view of a secret record, with its fields.
#[derive(Debug, Clone)]
pub struct VaultItemDetails {
    pub id: String,
    pub title: String,
    pub category: String,
    pub fields: Vec<ItemField>,
}

/// A binding's target: which account it belongs to and the field reference
/// the inject operation resolves.
#[derive(Debug, Clone)]
pub struct InjectVarConfig {
    pub account_id: String,
    pub op_reference: String,
}

/// A managed template: the sidecar file name under the templates directory.
#[derive(Debug, Clone)]
pub struct TemplatedFile {
    pub template_name: String,
}

/// The persistent configuration document. The maps are association lists
/// with unique keys; insertion order is kept.
#[derive(Debug, Clone)]
pub struct OpLoadConfig {
    /// Environment-variable name -> binding, unique by name.
    pub inject_vars: Vec<(String, InjectVarConfig)>,
    /// The account selected by default at startup.
    pub default_account_id: Option<String>,
    /// Account id -> vault id committed by default for that account.
    pub default_vault_per_account: Vec<(String, String)>,
    /// Target path -> managed template, unique by canonicalized target path.
    pub templated_files: Vec<(String, TemplatedFile)>,
}

impl OpLoadConfig {
    /// All three maps have unique keys.
    pub open spec fn wf(&self) -> bool {
        unique_keys(self.inject_vars@) && unique_keys(self.default_vault_per_account@)
            && unique_keys(self.templated_files@)
    }

    pub fn new() -> (r: OpLoadConfig)
        ensures
            r.wf(),
            r.inject_vars@.len() == 0,
            r.default_account_id is None,
            r.default_vault_per_account@.len() == 0,
            r.templated_files@.len() == 0,
    {
        OpLoadConfig {
            inject_vars: Vec::new(),
            default_account_id: None,
            default_vault_per_account: Vec::new(),
            templated_files: Vec::new(),
        }
    }

    /// Stores a binding under `name`; a binding already stored under the
    /// same name is overwritten (last write wins).
    pub fn set_binding(&mut self, name: String, binding: InjectVarConfig)
        requires
            old(self).wf(),
        ensures
            final (self).wf(),
            has_key(final (self).inject_vars@, name@),
            val_of(final (self).inject_vars@, name@) == binding,
            final (self).default_account_id == old(self).default_account_id,
            final (self).default_vault_per_account == old(self).default_vault_per_account,
            final (self).templated_files == old(self).templated_files,
    {
        assoc_insert(&mut self.inject_vars, name, binding);
    }

    /// Removes every binding named in `names`.
    pub fn remove_bindings(&mut self, names: &Vec<String>)
        requires
            old(self).wf(),
        ensures
            final (self).wf(),
            forall|i: int|
                0 <= i < names@.len() ==> !has_key(final (self).inject_vars@, names@[i]@),
            final (self).default_account_id == old(self).default_account_id,
            final (self).default_vault_per_account == old(self).default_vault_per_account,
            final (self).templated_files == old(self).templated_files,
    {
        let mut i: usize = 0;
        while i < names.len()
            invariant
                i <= names@.len(),
                self.wf(),
                forall|j: int| 0 <= j < i ==> !has_key(self.inject_vars@, names@[j]@),
                self.default_account_id == old(self).default_account_id,
                self.default_vault_per_account == old(self).default_vault_per_account,
                self.templated_files == old(self).templated_files,
            decreases names@.len() - i,
        {
            let ghost before = self.inject_vars@;
            assoc_remove(&mut self.inject_vars, &names[i]);
            proof {
                assert(forall|j: int|
                    0 <= j < i && !has_key(before, names@[j]@) ==> !has_key(
                        self.inject_vars@,
                        names@[j]@,
                    ));
            }
            i = i + 1;
        }
    }

    /// The binding names, in storage order: what the managed-variables
    /// panel lists.
    pub fn binding_names(&self) -> (r: Vec<String>)
        ensures
            r@.len() == self.inject_vars@.len(),
            forall|i: int| 0 <= i < r@.len() ==> r@[i]@ == self.inject_vars@[i].0@,
    {
        assoc_keys(&self.inject_vars)
    }

    /// Remembers `account_id` as the account committed by default at
    /// startup.
    pub fn set_default_account(&mut self, account_id: String)
        requires
            old(self).wf(),
        ensures
            final (self).wf(),
            final (self).default_account_id == Some(account_id),
            final (self).inject_vars == old(self).inject_vars,
            final (self).default_vault_per_account == old(self).default_vault_per_account,
            final (self).templated_files == old(self).templated_files,
    {
        self.default_account_id = Some(account_id);
    }

    /// Remembers `vault_id` as the vault committed by default whenever
    /// `account_id` is selected.
    pub fn set_default_vault(&mut self, account_id: String, vault_id: String)
        requires
            old(self).wf(),
        ensures
            final (self).wf(),
            has_key(final (self).default_vault_per_account@, account_id@),
            val_of(final (self).default_vault_per_account@, account_id@)@ == vault_id@,
            final (self).inject_vars == old(self).inject_vars,
            final (self).default_account_id == old(self).default_account_id,
            final (self).templated_files == old(self).templated_files,
    {
        assoc_insert(&mut self.default_vault_per_account, account_id, vault_id);
    }

    /// Registers a managed template file; refuses a target that is
    /// already managed (the duplicate key), reporting whether the
    /// registration happened.
    pub fn add_templated_file(&mut self, target: String, template_name: String) -> (r: bool)
        requires
            old(self).wf(),
        ensures
            final (self).wf(),
            r == !has_key(old(self).templated_files@, target@),
            has_key(final (self).templated_files@, target@),
            r ==> val_of(final (self).templated_files@, target@).template_name == template_name,
            !r ==> final (self).templated_files == old(self).templated_files,
            final (self).inject_vars == old(self).inject_vars,
            final (self).default_account_id == old(self).default_account_id,
            final (self).default_vault_per_account == old(self).default_vault_per_account,
    {
        let found = crate::assoc::assoc_find(&self.templated_files, &target);
        match found {
            Some(_) => false,
            None => {
                assoc_insert(&mut self.templated_files, target, TemplatedFile { template_name });
                true
            },
        }
    }

    /// Stops managing a template file, handing back its sidecar name if
    /// it was managed.
    pub fn remove_templated_file(&mut self, target: &String) -> (r: Option<TemplatedFile>)
        requires
            old(self).wf(),
        ensures
            final (self).wf(),
            !has_key(final (self).templated_files@, target@),
            match r {
                Some(t) => has_key(old(self).templated_files@, target@) && t == val_of(
                    old(self).templated_files@,
                    target@,
                ),
                None => !has_key(old(self).templated_files@, target@) && final (
                self).templated_files@ == old(self).templated_files@,
            },
            final (self).inject_vars == old(self).inject_vars,
            final (self).default_account_id == old(self).default_account_id,
            final (self).default_vault_per_account == old(self).default_vault_per_account,
    {
        let ghost pre = self.templated_files@;
        let r = assoc_remove(&mut self.templated_files, target);
        proof {
            assert(match r {
                Some(ref t) => has_key(pre, target@) && *t == val_of(pre, target@),
                None => !has_key(pre, target@),
            });
        }
        r
    }

    /// The vault committed by default for `account_id`, if one is stored.
    pub fn default_vault_for(&self, account_id: &String) -> (r: Option<&String>)
        requires
            self.wf(),
        ensures
            match r {
                Some(v) => has_key(self.default_vault_per_account@, account_id@) && v@
                    == val_of(self.default_vault_per_account@, account_id@)@,
                None => !has_key(self.default_vault_per_account@, account_id@),
            },
    {
        let found = crate::assoc::assoc_find(&self.default_vault_per_account, account_id);
        match found {
            Some(i) => Some(&self.default_vault_per_account[i].1),
            None => None,
        }
    }
}

} // verus!
