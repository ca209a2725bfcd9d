//! The per-account result cache: file naming, and the freshness and
//! invalidation rules, stated over a model of the cache directory. The
//! embedding application mirrors every operation onto the real directory;
//! the rules themselves (which name a key maps to, when an entry is a hit,
//! a miss or expired, what invalidation removes) all live here.
use vstd::prelude::*;

use crate::assoc::{assoc_find, assoc_insert, assoc_remove, has_key, idx_of, unique_keys, val_of};
use crate::text::push_char;
use vstd::string::StringSliceAdditionalSpecFns;

verus! {

/// Which expensive operation's output an entry caches.
#[derive(Debug, Clone, Copy, PartialEq, Eq, Structural)]
pub enum CacheKind {
    EnvInject,
    TemplateRender,
}

/// Whether clearing one account's cache found anything to remove.
#[derive(Debug, Clone, Copy, PartialEq, Eq, Structural)]
pub enum CacheRemoval {
    Removed,
    NotFound,
}

/// What a cache read found.
#[derive(Debug, PartialEq, Eq)]
pub enum CacheReadOutcome {
    Hit(String),
    Miss,
    Expired,
}

/// A cache operation that had to touch an entry which is not a regular
/// file (the model's counterpart of a file-system error).
#[derive(Debug, Clone, Copy, PartialEq, Eq, Structural)]
pub enum CacheError {
    NotARegularFile,
}

/// Bytes kept as-is when an account id is embedded in a file name.
pub open spec fn safe_byte(b: u8) -> bool {
    (('a' as u8) <= b && b <= ('z' as u8)) || (('A' as u8) <= b && b <= ('Z' as u8)) || (('0'
        as u8) <= b && b <= ('9' as u8)) || b == ('_' as u8) || b == ('-' as u8) || b == ('.'
        as u8)
}

/// One byte of a sanitized account id: kept if safe, replaced by `_`.
pub open spec fn sanitize_byte(b: u8) -> char {
    if safe_byte(b) {
        b as char
    } else {
        '_'
    }
}

/// The sanitized form of an account id's bytes; an empty id maps to a
/// fixed placeholder token.
pub open spec fn sanitized_id_chars(bs: Seq<u8>) -> Seq<char> {
    if bs.len() == 0 {
        "account"@
    } else {
        bs.map(|i: int, b: u8| sanitize_byte(b))
    }
}

/// Replaces every byte outside `[A-Za-z0-9_.-]` with `_`; an empty id
/// becomes a fixed placeholder token.
pub fn sanitize_account_id(account_id: &str) -> (r: String)
    ensures
        r@ == sanitized_id_chars(account_id.spec_bytes()),
{
    let bs = account_id.as_bytes_vec();
    if bs.len() == 0 {
        return "account".to_owned();
    }
    let mut r = String::new();
    let mut i: usize = 0;
    while i < bs.len()
        invariant
            i <= bs@.len(),
            bs@.len() > 0,
            r@ == bs@.subrange(0, i as int).map(|j: int, b: u8| sanitize_byte(b)),
        decreases bs@.len() - i,
    {
        let b = bs[i];
        let c = if (('a' as u8) <= b && b <= ('z' as u8)) || (('A' as u8) <= b && b <= ('Z'
            as u8)) || (('0' as u8) <= b && b <= ('9' as u8)) || b == ('_' as u8) || b == ('-'
            as u8) || b == ('.' as u8) {
            b as char
        } else {
            '_'
        };
        push_char(&mut r, c);
        proof {
            assert(r@ =~= bs@.subrange(0, i + 1 as int).map(|j: int, b: u8| sanitize_byte(b)));
        }
        i = i + 1;
    }
    proof {
        assert(bs@.subrange(0, bs@.len() as int) =~= bs@);
    }
    r
}

/// The file-name prefix for a cache kind.
pub open spec fn kind_prefix_chars(kind: CacheKind) -> Seq<char> {
    match kind {
        CacheKind::EnvInject => "inject_env"@,
        CacheKind::TemplateRender => "inject_template"@,
    }
}

fn kind_prefix(kind: CacheKind) -> (r: &'static str)
    ensures
        r@ == kind_prefix_chars(kind),
{
    match kind {
        CacheKind::EnvInject => "inject_env",
        CacheKind::TemplateRender => "inject_template",
    }
}

/// The cache file name for one `(account, kind)` pair.
pub open spec fn cache_file_name_chars(account_bytes: Seq<u8>, kind: CacheKind) -> Seq<char> {
    kind_prefix_chars(kind) + "_"@ + sanitized_id_chars(account_bytes) + ".cache"@
}

/// The advisory lock file name beside it.
pub open spec fn lock_file_name_chars(account_bytes: Seq<u8>, kind: CacheKind) -> Seq<char> {
    kind_prefix_chars(kind) + "_"@ + sanitized_id_chars(account_bytes) + ".lock"@
}

/// The file name (without directory) of the cache entry for an account
/// and kind: `<prefix>_<sanitized account id>.cache`.
pub fn cache_file_name(account_id: &str, kind: CacheKind) -> (r: String)
    ensures
        r@ == cache_file_name_chars(account_id.spec_bytes(), kind),
{
    let mut r = kind_prefix(kind).to_owned();
    r.append("_");
    let sanitized = sanitize_account_id(account_id);
    r.append(sanitized.as_str());
    r.append(".cache");
    r
}

/// The file name of the advisory lock beside the cache entry:
/// `<prefix>_<sanitized account id>.lock`.
pub fn lock_file_name(account_id: &str, kind: CacheKind) -> (r: String)
    ensures
        r@ == lock_file_name_chars(account_id.spec_bytes(), kind),
{
    let mut r = kind_prefix(kind).to_owned();
    r.append("_");
    let sanitized = sanitize_account_id(account_id);
    r.append(sanitized.as_str());
    r.append(".lock");
    r
}

/// The full path of the cache entry under `cache_root`.
pub fn cache_path_for_account(cache_root: &str, account_id: &str, kind: CacheKind) -> (r: String)
    ensures
        r@ == cache_root@ + "/"@ + cache_file_name_chars(account_id.spec_bytes(), kind),
{
    let mut r = cache_root.to_owned();
    r.append("/");
    let name = cache_file_name(account_id, kind);
    r.append(name.as_str());
    proof {
        assert(r@ =~= cache_root@ + "/"@ + cache_file_name_chars(account_id.spec_bytes(), kind));
    }
    r
}

/// The full path of the advisory lock under `cache_root`.
pub fn lock_path_for_account(cache_root: &str, account_id: &str, kind: CacheKind) -> (r: String)
    ensures
        r@ == cache_root@ + "/"@ + lock_file_name_chars(account_id.spec_bytes(), kind),
{
    let mut r = cache_root.to_owned();
    r.append("/");
    let name = lock_file_name(account_id, kind);
    r.append(name.as_str());
    proof {
        assert(r@ =~= cache_root@ + "/"@ + lock_file_name_chars(account_id.spec_bytes(), kind));
    }
    r
}

/// One directory entry of the cache directory: a regular file with its
/// modification time and contents, or a subdirectory.
#[derive(Debug)]
pub struct CacheEntry {
    pub is_dir: bool,
    /// Modification time, in seconds.
    pub mtime: u64,
    pub contents: String,
}

/// A model of the cache directory: named entries, unique by name. The
/// embedding application keeps the real directory in step with it.
#[derive(Debug)]
pub struct CacheDir {
    pub entries: Vec<(String, CacheEntry)>,
}

/// The age of an entry written at `mtime` and read at `now`; a
/// modification time in the future counts as age zero.
pub open spec fn entry_age(mtime: u64, now: u64) -> int {
    if mtime <= now {
        now - mtime
    } else {
        0
    }
}

/// The age of an entry, as the freshness rule counts it.
pub fn cache_entry_age(mtime: u64, now: u64) -> (r: u64)
    ensures
        r == entry_age(mtime, now),
{
    if mtime <= now {
        now - mtime
    } else {
        0
    }
}

/// Whether an entry written at `mtime` is still within its time-to-live
/// at `now` — the one freshness rule, shared by the model and the host's
/// on-disk mirror.
pub fn cache_entry_fresh(mtime: u64, now: u64, ttl: u64) -> (r: bool)
    ensures
        r == (entry_age(mtime, now) <= ttl),
{
    cache_entry_age(mtime, now) <= ttl
}

/// What a read of `name` at time `now` with time-to-live `ttl` finds:
/// a miss when no entry exists, expired when the entry's age exceeds
/// `ttl`, otherwise a hit with the entry's contents — or an error when
/// the fresh entry is not a regular file.
pub open spec fn read_outcome_spec(
    entries: Seq<(String, CacheEntry)>,
    name: Seq<char>,
    ttl: u64,
    now: u64,
) -> Result<CacheReadOutcome, CacheError> {
    if !has_key(entries, name) {
        Ok(CacheReadOutcome::Miss)
    } else {
        let e = val_of(entries, name);
        if entry_age(e.mtime, now) > ttl {
            Ok(CacheReadOutcome::Expired)
        } else if e.is_dir {
            Err(CacheError::NotARegularFile)
        } else {
            Ok(CacheReadOutcome::Hit(e.contents))
        }
    }
}

impl CacheDir {
    pub open spec fn wf(&self) -> bool {
        unique_keys(self.entries@)
    }

    pub fn new() -> (r: CacheDir)
        ensures
            r.wf(),
            r.entries@.len() == 0,
    {
        CacheDir { entries: Vec::new() }
    }

    /// Writes `contents` for `(account, kind)` at time `now`, replacing
    /// any previous entry under the same name and leaving every other
    /// entry alone.
    pub fn write_cached_output(&mut self, account_id: &str, kind: CacheKind, contents: String, now: u64)
        requires
            old(self).wf(),
        ensures
            final (self).wf(),
            has_key(final (self).entries@, cache_file_name_chars(account_id.spec_bytes(), kind)),
            val_of(final (self).entries@, cache_file_name_chars(account_id.spec_bytes(), kind))
                == (CacheEntry { is_dir: false, mtime: now, contents }),
            forall|k: Seq<char>|
                k != cache_file_name_chars(account_id.spec_bytes(), kind) ==> (has_key(
                    final (self).entries@,
                    k,
                ) == has_key(old(self).entries@, k) && (has_key(old(self).entries@, k)
                    ==> val_of(final (self).entries@, k) == val_of(old(self).entries@, k))),
    {
        let name = cache_file_name(account_id, kind);
        let ghost pre = self.entries@;
        let ghost namev = name@;
        assoc_insert(
            &mut self.entries,
            name,
            CacheEntry { is_dir: false, mtime: now, contents },
        );
        proof {
            lemma_insert_preserves_others(pre, self.entries@, namev);
        }
    }

    /// Reads the entry for `(account, kind)` at time `now` against `ttl`.
    pub fn read_cached_output(&self, account_id: &str, kind: CacheKind, ttl: u64, now: u64) -> (r:
        Result<CacheReadOutcome, CacheError>)
        requires
            self.wf(),
        ensures
            r == read_outcome_spec(
                self.entries@,
                cache_file_name_chars(account_id.spec_bytes(), kind),
                ttl,
                now,
            ),
    {
        let name = cache_file_name(account_id, kind);
        let found = assoc_find(&self.entries, &name);
        match found {
            None => Ok(CacheReadOutcome::Miss),
            Some(i) => {
                proof {
                    assert(has_key(self.entries@, name@));
                    assert(idx_of(self.entries@, name@) == i as int);
                }
                let e = &self.entries[i].1;
                let age: u64 = if e.mtime <= now {
                    now - e.mtime
                } else {
                    0
                };
                if age > ttl {
                    Ok(CacheReadOutcome::Expired)
                } else if e.is_dir {
                    Err(CacheError::NotARegularFile)
                } else {
                    Ok(CacheReadOutcome::Hit(e.contents.clone()))
                }
            },
        }
    }

    /// Removes the cache entries of `account_id` for both kinds; reports
    /// whether anything was removed. Fails when an entry to remove is not
    /// a regular file, leaving later entries untouched.
    pub fn remove_cache_for_account(&mut self, account_id: &str) -> (r: Result<
        CacheRemoval,
        CacheError,
    >)
        requires
            old(self).wf(),
        ensures
            final (self).wf(),
            ({
                let n1 = cache_file_name_chars(account_id.spec_bytes(), CacheKind::EnvInject);
                let n2 = cache_file_name_chars(account_id.spec_bytes(), CacheKind::TemplateRender);
                let had1 = has_key(old(self).entries@, n1);
                let had2 = has_key(old(self).entries@, n2);
                let dir1 = had1 && val_of(old(self).entries@, n1).is_dir;
                let dir2 = had2 && val_of(old(self).entries@, n2).is_dir;
                if dir1 {
                    r is Err && final (self).entries@ == old(self).entries@
                } else if dir2 {
                    r is Err && !has_key(final (self).entries@, n1)
                } else {
                    r == Ok::<CacheRemoval, CacheError>(
                        if had1 || had2 {
                            CacheRemoval::Removed
                        } else {
                            CacheRemoval::NotFound
                        },
                    ) && !has_key(final (self).entries@, n1) && !has_key(final (self).entries@, n2)
                }
            }),
            forall|k: Seq<char>|
                k != cache_file_name_chars(account_id.spec_bytes(), CacheKind::EnvInject) && k
                    != cache_file_name_chars(account_id.spec_bytes(), CacheKind::TemplateRender)
                    ==> (has_key(final (self).entries@, k) == has_key(old(self).entries@, k) && (
                has_key(old(self).entries@, k) ==> val_of(final (self).entries@, k) == val_of(
                    old(self).entries@,
                    k,
                ))),
    {
        let mut removed_any = false;
        let n1 = cache_file_name(account_id, CacheKind::EnvInject);
        let found1 = assoc_find(&self.entries, &n1);
        match found1 {
            Some(i) => {
                proof {
                    assert(has_key(self.entries@, n1@));
                    assert(idx_of(self.entries@, n1@) == i as int);
                }
                if self.entries[i].1.is_dir {
                    return Err(CacheError::NotARegularFile);
                }
                assoc_remove(&mut self.entries, &n1);
                removed_any = true;
            },
            None => {},
        }
        let n2 = cache_file_name(account_id, CacheKind::TemplateRender);
        let ghost mid = self.entries@;
        let found2 = assoc_find(&self.entries, &n2);
        match found2 {
            Some(i) => {
                proof {
                    assert(has_key(self.entries@, n2@));
                    assert(idx_of(self.entries@, n2@) == i as int);
                    lemma_remove_preserves_others(old(self).entries@, mid, n1@);
                }
                if self.entries[i].1.is_dir {
                    return Err(CacheError::NotARegularFile);
                }
                assoc_remove(&mut self.entries, &n2);
                proof {
                    lemma_remove_preserves_others(mid, self.entries@, n2@);
                }
                removed_any = true;
            },
            None => {
                proof {
                    lemma_remove_preserves_others(old(self).entries@, mid, n1@);
                }
            },
        }
        if removed_any {
            Ok(CacheRemoval::Removed)
        } else {
            Ok(CacheRemoval::NotFound)
        }
    }

    /// Removes every regular file directly under the cache directory,
    /// leaving subdirectories alone, and reports how many were removed.
    pub fn clear_all_caches(&mut self) -> (removed: usize)
        requires
            old(self).wf(),
        ensures
            final (self).wf(),
            final (self).entries@ == dirs_only(old(self).entries@),
            removed == old(self).entries@.len() - final (self).entries@.len(),
    {
        let ghost orig = self.entries@;
        let mut kept: Vec<(String, CacheEntry)> = Vec::new();
        let mut removed: usize = 0;
        let n = self.entries.len();
        proof {
            assert(orig.len() == n as int);
            assert(orig.skip(0) =~= orig);
            assert(self.entries@ =~= orig.skip(0));
        }
        loop
            invariant
                orig.len() <= usize::MAX,
                self.entries@.len() <= orig.len(),
                self.entries@ == orig.skip(orig.len() - self.entries@.len()),
                dirs_only(orig) == kept@ + dirs_only(self.entries@),
                removed == (orig.len() - self.entries@.len()) - kept@.len(),
            ensures
                kept@ == dirs_only(orig),
                removed == orig.len() - kept@.len(),
            decreases self.entries@.len(),
        {
            if self.entries.len() == 0 {
                proof {
                    assert(kept@ + dirs_only(self.entries@) =~= kept@);
                }
                break ;
            }
            let ghost done = orig.len() - self.entries@.len();
            let ghost before = self.entries@;
            let e = self.entries.remove(0);
            proof {
                assert(self.entries@ =~= orig.skip(done + 1));
                assert(self.entries@ =~= before.drop_first());
                assert(e == before[0]);
            }
            if e.1.is_dir {
                kept.push(e);
                proof {
                    assert(dirs_only(before) == seq![before[0]] + dirs_only(
                        before.drop_first(),
                    ));
                    assert(dirs_only(orig) =~= kept@ + dirs_only(self.entries@));
                }
            } else {
                removed = removed + 1;
                proof {
                    assert(dirs_only(before) == dirs_only(before.drop_first()));
                }
            }
        }
        self.entries = kept;
        proof {
            lemma_dirs_only_len(orig);
            lemma_dirs_only_unique(orig);
        }
        removed
    }
}

/// The subsequence of directory entries: what survives clearing all
/// cache files.
pub open spec fn dirs_only(s: Seq<(String, CacheEntry)>) -> Seq<(String, CacheEntry)>
    decreases s.len(),
{
    if s.len() == 0 {
        s
    } else {
        let rest = dirs_only(s.drop_first());
        if s[0].1.is_dir {
            seq![s[0]] + rest
        } else {
            rest
        }
    }
}

/// Dropping entries cannot grow the list.
proof fn lemma_dirs_only_len(s: Seq<(String, CacheEntry)>)
    ensures
        dirs_only(s).len() <= s.len(),
    decreases s.len(),
{
    if s.len() > 0 {
        lemma_dirs_only_len(s.drop_first());
    }
}

/// Every surviving entry comes from the original list, so unique keys
/// stay unique.
proof fn lemma_dirs_only_unique(s: Seq<(String, CacheEntry)>)
    requires
        unique_keys(s),
    ensures
        unique_keys(dirs_only(s)),
        forall|i: int|
            0 <= i < dirs_only(s).len() ==> exists|j: int|
                0 <= j < s.len() && #[trigger] dirs_only(s)[i] == s[j],
    decreases s.len(),
{
    if s.len() > 0 {
        let t = s.drop_first();
        assert(forall|i: int| 0 <= i < t.len() ==> t[i] == s[i + 1]);
        assert(unique_keys(t));
        lemma_dirs_only_unique(t);
        let rest = dirs_only(t);
        assert(forall|i: int|
            0 <= i < rest.len() ==> exists|j: int| 0 <= j < s.len() && #[trigger] rest[i] == s[j]);
        if s[0].1.is_dir {
            let out = seq![s[0]] + rest;
            assert(dirs_only(s) == out);
            assert forall|i: int| 0 <= i < out.len() implies exists|j: int|
                0 <= j < s.len() && #[trigger] out[i] == s[j] by {
                if i == 0 {
                    assert(out[0] == s[0]);
                } else {
                    assert(out[i] == rest[i - 1]);
                }
            }
            assert forall|i1: int, i2: int| 0 <= i1 < i2 < out.len() implies out[i1].0@
                != out[i2].0@ by {
                if i1 == 0 {
                    let j = choose|j: int| 0 <= j < t.len() && rest[i2 - 1] == t[j];
                    assert(t[j] == s[j + 1]);
                    assert(s[0].0@ != s[j + 1].0@);
                } else {
                    assert(out[i1] == rest[i1 - 1]);
                    assert(out[i2] == rest[i2 - 1]);
                }
            }
        }
    }
}

/// After `assoc_insert` under `name`, every other key's presence and
/// value are unchanged (insertion either appended or replaced in place).
proof fn lemma_insert_preserves_others<V>(
    pre: Seq<(String, V)>,
    post: Seq<(String, V)>,
    name: Seq<char>,
)
    requires
        unique_keys(pre),
        unique_keys(post),
        !has_key(pre, name) ==> exists|kv: (String, V)| kv.0@ == name && post == pre + seq![kv],
        has_key(pre, name) ==> exists|kv: (String, V)|
            kv.0@ == name && post == pre.update(idx_of(pre, name), kv),
    ensures
        forall|k: Seq<char>|
            k != name ==> (has_key(post, k) == has_key(pre, k) && (has_key(pre, k) ==> val_of(
                post,
                k,
            ) == val_of(pre, k))),
{
    assert forall|k: Seq<char>| k != name implies (has_key(post, k) == has_key(pre, k) && (
    has_key(pre, k) ==> val_of(post, k) == val_of(pre, k))) by {
        if has_key(pre, name) {
            let kv = choose|kv: (String, V)|
                kv.0@ == name && post == pre.update(idx_of(pre, name), kv);
            let i = idx_of(pre, name);
            if has_key(pre, k) {
                let j = idx_of(pre, k);
                assert(post[j].0@ == k);
                assert(has_key(post, k));
                assert(idx_of(post, k) == j);
            }
            if has_key(post, k) {
                let j = idx_of(post, k);
                assert(pre[j].0@ == k);
                assert(has_key(pre, k));
            }
        } else {
            let kv = choose|kv: (String, V)| kv.0@ == name && post == pre + seq![kv];
            if has_key(pre, k) {
                let j = idx_of(pre, k);
                assert(post[j].0@ == k);
                assert(has_key(post, k));
                assert(idx_of(post, k) == j);
            }
            if has_key(post, k) {
                let j = idx_of(post, k);
                assert(pre[j].0@ == k);
                assert(has_key(pre, k));
            }
        }
    }
}

/// After `assoc_remove` of `name`, every other key's presence and value
/// are unchanged.
proof fn lemma_remove_preserves_others<V>(
    pre: Seq<(String, V)>,
    post: Seq<(String, V)>,
    name: Seq<char>,
)
    requires
        unique_keys(pre),
        unique_keys(post),
        has_key(pre, name) ==> post == pre.remove(idx_of(pre, name)),
        !has_key(pre, name) ==> post == pre,
    ensures
        forall|k: Seq<char>|
            k != name ==> (has_key(post, k) == has_key(pre, k) && (has_key(pre, k) ==> val_of(
                post,
                k,
            ) == val_of(pre, k))),
{
    assert forall|k: Seq<char>| k != name implies (has_key(post, k) == has_key(pre, k) && (
    has_key(pre, k) ==> val_of(post, k) == val_of(pre, k))) by {
        if has_key(pre, name) {
            let i = idx_of(pre, name);
            if has_key(pre, k) {
                let j = idx_of(pre, k);
                let j2 = if j < i {
                    j
                } else {
                    j - 1
                };
                assert(post[j2].0@ == k);
                assert(has_key(post, k));
                assert(idx_of(post, k) == j2);
            }
            if has_key(post, k) {
                let j = idx_of(post, k);
                let j2 = if j < i {
                    j
                } else {
                    j + 1
                };
                assert(pre[j2].0@ == k);
                assert(has_key(pre, k));
            }
        }
    }
}

/// A write at time `now` followed immediately by a read at the same time
/// with any time-to-live finds a hit carrying the written contents.
pub proof fn lemma_cache_round_trip(
    entries: Seq<(String, CacheEntry)>,
    name: Seq<char>,
    contents: String,
    ttl: u64,
    now: u64,
)
    requires
        unique_keys(entries),
        has_key(entries, name),
        val_of(entries, name) == (CacheEntry { is_dir: false, mtime: now, contents }),
    ensures
        read_outcome_spec(entries, name, ttl, now) == Ok::<CacheReadOutcome, CacheError>(CacheReadOutcome::Hit(contents)),
{
}

/// The freshness boundary: an entry older than the time-to-live reads as
/// expired, one at most that old reads as a hit.
pub proof fn lemma_ttl_boundary(
    entries: Seq<(String, CacheEntry)>,
    name: Seq<char>,
    ttl: u64,
    now: u64,
    eps: u64,
)
    requires
        unique_keys(entries),
        has_key(entries, name),
        !val_of(entries, name).is_dir,
        eps >= 1,
    ensures
        val_of(entries, name).mtime + ttl + eps == now ==> read_outcome_spec(entries, name, ttl, now)
            == Ok::<CacheReadOutcome, CacheError>(CacheReadOutcome::Expired),
        eps <= ttl && val_of(entries, name).mtime + ttl == now + eps ==> read_outcome_spec(
            entries,
            name,
            ttl,
            now,
        ) == Ok::<CacheReadOutcome, CacheError>(CacheReadOutcome::Hit(val_of(entries, name).contents)),
{
}

} // verus!
