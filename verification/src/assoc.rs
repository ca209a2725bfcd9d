//! Association lists keyed by strings, used for the configuration maps
//! (bindings, per-account defaults, managed template files). Keys are kept
//! unique; insertion replaces in place, so the last write wins.
use vstd::prelude::*;

verus! {

/// There is an entry whose key reads `k`.
pub open spec fn has_key<V>(s: Seq<(String, V)>, k: Seq<char>) -> bool {
    exists|i: int| 0 <= i < s.len() && s[i].0@ == k
}

/// The index of the entry whose key reads `k` (meaningful under `unique_keys`
/// when `has_key` holds).
pub open spec fn idx_of<V>(s: Seq<(String, V)>, k: Seq<char>) -> int {
    choose|i: int| 0 <= i < s.len() && s[i].0@ == k
}

/// The value stored under `k`.
pub open spec fn val_of<V>(s: Seq<(String, V)>, k: Seq<char>) -> V {
    s[idx_of(s, k)].1
}

/// No two entries share a key.
pub open spec fn unique_keys<V>(s: Seq<(String, V)>) -> bool {
    forall|i: int, j: int| 0 <= i < j < s.len() ==> s[i].0@ != s[j].0@
}

/// The index of the first entry whose key reads `k`, if any.
pub fn assoc_find<V>(m: &Vec<(String, V)>, k: &String) -> (r: Option<usize>)
    ensures
        match r {
            Some(i) => i < m@.len() && m@[i as int].0@ == k@,
            None => !has_key(m@, k@),
        },
{
    let mut i: usize = 0;
    while i < m.len()
        invariant
            i <= m@.len(),
            forall|j: int| 0 <= j < i ==> m@[j].0@ != k@,
        decreases m@.len() - i,
    {
        if m[i].0 == *k {
            return Some(i);
        }
        i = i + 1;
    }
    None
}

/// Inserts `v` under `k`; an existing entry with that key is replaced in
/// place, so every other entry keeps its position.
pub fn assoc_insert<V>(m: &mut Vec<(String, V)>, k: String, v: V)
    requires
        unique_keys(old(m)@),
    ensures
        unique_keys(final (m)@),
        has_key(final (m)@, k@),
        val_of(final (m)@, k@) == v,
        !has_key(old(m)@, k@) ==> final (m)@ == old(m)@ + seq![(k, v)],
        has_key(old(m)@, k@) ==> final (m)@ == old(m)@.update(idx_of(old(m)@, k@), (k, v)),
{
    let found = assoc_find(m, &k);
    match found {
        Some(i) => {
            proof {
                assert(has_key(m@, k@));
                assert(idx_of(m@, k@) == i as int);
            }
            m.remove(i);
            m.insert(i, (k, v));
            proof {
                assert(m@ =~= old(m)@.update(i as int, (k, v)));
                assert(m@[i as int].0@ == k@);
                assert(has_key(m@, k@));
                assert(idx_of(m@, k@) == i as int);
            }
        },
        None => {
            m.push((k, v));
            proof {
                let n = old(m)@.len() as int;
                assert(m@[n].0@ == k@);
                assert(has_key(m@, k@));
                assert(idx_of(m@, k@) == n);
            }
        },
    }
}

/// Removes the entry under `k`, if any, keeping the order of the rest.
pub fn assoc_remove<V>(m: &mut Vec<(String, V)>, k: &String) -> (r: Option<V>)
    requires
        unique_keys(old(m)@),
    ensures
        unique_keys(final (m)@),
        !has_key(final (m)@, k@),
        match r {
            Some(v) => has_key(old(m)@, k@) && v == val_of(old(m)@, k@) && final (m)@ == old(
                m,
            )@.remove(idx_of(old(m)@, k@)),
            None => !has_key(old(m)@, k@) && final (m)@ == old(m)@,
        },
{
    let found = assoc_find(m, k);
    match found {
        Some(i) => {
            proof {
                assert(has_key(m@, k@));
                assert(idx_of(m@, k@) == i as int);
            }
            let entry = m.remove(i);
            proof {
                assert(forall|j: int|
                    0 <= j < m@.len() ==> m@[j] == if j < i as int {
                        old(m)@[j]
                    } else {
                        old(m)@[j + 1]
                    });
                assert(!has_key(m@, k@));
            }
            Some(entry.1)
        },
        None => None,
    }
}

/// The keys of the list, in entry order.
pub fn assoc_keys<V>(m: &Vec<(String, V)>) -> (r: Vec<String>)
    ensures
        r@.len() == m@.len(),
        forall|i: int| 0 <= i < m@.len() ==> r@[i]@ == m@[i].0@,
{
    let mut r: Vec<String> = Vec::new();
    let mut i: usize = 0;
    while i < m.len()
        invariant
            i <= m@.len(),
            r@.len() == i,
            forall|j: int| 0 <= j < i ==> r@[j]@ == m@[j].0@,
        decreases m@.len() - i,
    {
        r.push(m[i].0.clone());
        i = i + 1;
    }
    r
}

} // verus!
