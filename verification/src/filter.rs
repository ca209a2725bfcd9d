//! The filter engine: fuzzy-matches item titles against a search query
//! and produces the display-order index projection — matching items only,
//! best score first, earlier list position breaking ties.
use vstd::prelude::*;

use crate::entities::VaultItem;

verus! {

/// The score the fuzzy matcher gives `choice` against `pattern`, or
/// `None` when they do not match. A name for the matcher's result: it
/// depends on the two texts alone.
pub uninterp spec fn fuzzy_score(choice: Seq<char>, pattern: Seq<char>) -> Option<i64>;

/// Relies on fuzzy_matcher's `SkimMatcherV2::fuzzy_match`, called on a
/// freshly built default matcher: the score is a function of the two
/// strings alone.
#[verifier::external_body]
fn fuzzy_match_score(choice: &str, pattern: &str) -> (r: Option<i64>)
    ensures
        r == fuzzy_score(choice@, pattern@),
{
    let matcher = fuzzy_matcher::skim::SkimMatcherV2::default();
    fuzzy_matcher::FuzzyMatcher::fuzzy_match(&matcher, choice, pattern)
}

/// Whether item `i`'s title fuzzy-matches the query.
pub open spec fn matched(items: Seq<VaultItem>, query: Seq<char>, i: int) -> bool {
    fuzzy_score(items[i].title@, query) is Some
}

/// The score of item `i` against the query (meaningful when it matched).
pub open spec fn score_at(items: Seq<VaultItem>, query: Seq<char>, i: int) -> i64 {
    fuzzy_score(items[i].title@, query)->Some_0
}

/// `a` is displayed before `b`: strictly higher score, or the same score
/// and the earlier original position.
pub open spec fn display_before(a: (usize, i64), b: (usize, i64)) -> bool {
    a.1 > b.1 || (a.1 == b.1 && a.0 < b.0)
}

/// What `refilter` returns. With an empty query, all indices in original
/// order. Otherwise exactly the indices of matching items, every pair in
/// display order: score descending, the original position breaking ties.
pub open spec fn is_refiltered(items: Seq<VaultItem>, query: Seq<char>, r: Seq<usize>) -> bool {
    if query.len() == 0 {
        r.len() == items.len() && (forall|k: int| 0 <= k < r.len() ==> r[k] == k)
    } else {
        (forall|k: int|
            0 <= k < r.len() ==> r[k] < items.len() && matched(items, query, r[k] as int)) && (
        forall|i: int|
            0 <= i < items.len() && matched(items, query, i) ==> exists|k: int|
                0 <= k < r.len() && r[k] == i) && (forall|k1: int, k2: int|
            0 <= k1 < k2 < r.len() ==> display_before(
                (r[k1], score_at(items, query, r[k1] as int)),
                (r[k2], score_at(items, query, r[k2] as int)),
            ))
    }
}

/// A query that matches no title leaves nothing to display.
pub proof fn lemma_refilter_no_match_empty(items: Seq<VaultItem>, query: Seq<char>, r: Seq<usize>)
    requires
        query.len() > 0,
        is_refiltered(items, query, r),
        forall|i: int| 0 <= i < items.len() ==> !matched(items, query, i),
    ensures
        r.len() == 0,
{
    if r.len() > 0 {
        assert(r[0] < items.len() && matched(items, query, r[0] as int));
    }
}

/// Sorts scored entries into display order. The entries arrive with
/// strictly ascending original positions, so display order is a total
/// order on them and the result is unique.
#[verifier::rlimit(60)]
fn sort_by_display_order(scored: &Vec<(usize, i64)>) -> (out: Vec<(usize, i64)>)
    requires
        forall|k1: int, k2: int| 0 <= k1 < k2 < scored@.len() ==> scored@[k1].0 < scored@[k2].0,
    ensures
        out@.len() == scored@.len(),
        forall|k: int| 0 <= k < out@.len() ==> scored@.contains(#[trigger] out@[k]),
        forall|j2: int| 0 <= j2 < scored@.len() ==> out@.contains(#[trigger] scored@[j2]),
        forall|k1: int, k2: int|
            0 <= k1 < k2 < out@.len() ==> display_before(out@[k1], out@[k2]),
{
    let mut out: Vec<(usize, i64)> = Vec::new();
    let mut j: usize = 0;
    while j < scored.len()
        invariant
            j <= scored@.len(),
            out@.len() == j,
            forall|k1: int, k2: int|
                0 <= k1 < k2 < scored@.len() ==> scored@[k1].0 < scored@[k2].0,
            forall|k: int|
                0 <= k < out@.len() ==> scored@.subrange(0, j as int).contains(
                    #[trigger] out@[k],
                ),
            forall|j2: int| 0 <= j2 < j ==> out@.contains(#[trigger] scored@[j2]),
            forall|k1: int, k2: int|
                0 <= k1 < k2 < out@.len() ==> display_before(out@[k1], out@[k2]),
        decreases scored@.len() - j,
    {
        let x = scored[j];
        let mut p: usize = 0;
        while p < out.len() && !(x.1 > out[p].1 || (x.1 == out[p].1 && x.0 < out[p].0))
            invariant
                p <= out@.len(),
                x == scored@[j as int],
                forall|k: int| 0 <= k < p ==> !display_before(x, out@[k]),
            decreases out@.len() - p,
        {
            p = p + 1;
        }
        let ghost out_pre = out@;
        out.insert(p, x);
        proof {
            assert(out@ == out_pre.insert(p as int, x));
            assert(forall|k: int| 0 <= k < p ==> out@[k] == out_pre[k]);
            assert(out@[p as int] == x);
            assert(forall|k: int| p < k < out@.len() ==> out@[k] == out_pre[k - 1]);
            if (p as int) < out_pre.len() {
                assert(display_before(x, out_pre[p as int]));
            }
            // entries before the insertion point precede x in display
            // order: they came from earlier positions of the scored
            // list, so their original index is smaller, deciding ties.
            assert forall|k: int| 0 <= k < p implies display_before(out_pre[k], x) by {
                assert(!display_before(x, out_pre[k]));
                assert(scored@.subrange(0, j as int).contains(out_pre[k]));
                let j2 = choose|j2: int|
                    0 <= j2 < j && scored@.subrange(0, j as int)[j2] == out_pre[k];
                assert(scored@[j2] == out_pre[k]);
                assert(scored@[j2].0 < scored@[j as int].0);
            }
            assert forall|k2: int| p < k2 < out@.len() implies display_before(
                x,
                #[trigger] out_pre[k2 - 1],
            ) by {
                assert(display_before(x, out_pre[p as int]));
                if k2 > p + 1 {
                    assert(display_before(out_pre[p as int], out_pre[k2 - 1]));
                }
            }
            assert forall|k1: int, k2: int|
                0 <= k1 < k2 < out@.len() implies display_before(out@[k1], out@[k2]) by {
                if k2 == p {
                    assert(out@[k1] == out_pre[k1]);
                    assert(display_before(out_pre[k1], x));
                } else if k1 == p {
                    assert(out@[k2] == out_pre[k2 - 1]);
                    assert(display_before(x, out_pre[k2 - 1]));
                } else if k1 < p && k2 > p {
                    assert(display_before(out_pre[k1], x));
                    assert(display_before(x, out_pre[k2 - 1]));
                } else if k2 < p {
                    assert(display_before(out_pre[k1], out_pre[k2]));
                } else {
                    assert(k1 > p);
                    assert(display_before(out_pre[k1 - 1], out_pre[k2 - 1]));
                }
            }
            assert forall|j2: int| 0 <= j2 < j + 1 implies out@.contains(
                #[trigger] scored@[j2],
            ) by {
                if j2 == j {
                    assert(out@[p as int] == scored@[j as int]);
                } else {
                    let k0 = choose|k0: int|
                        0 <= k0 < out_pre.len() && out_pre[k0] == scored@[j2];
                    if k0 < p {
                        assert(out@[k0] == scored@[j2]);
                    } else {
                        assert(out@[k0 + 1] == scored@[j2]);
                    }
                }
            }
            assert forall|k: int| 0 <= k < out@.len() implies scored@.subrange(
                0,
                j + 1,
            ).contains(#[trigger] out@[k]) by {
                if k == p {
                    assert(scored@.subrange(0, j + 1)[j as int] == scored@[j as int]);
                    assert(out@[k] == scored@[j as int]);
                } else {
                    let kp = if k < p {
                        k
                    } else {
                        k - 1
                    };
                    assert(out@[k] == out_pre[kp]);
                    assert(scored@.subrange(0, j as int).contains(out_pre[kp]));
                    let j2 = choose|j2: int|
                        0 <= j2 < j && scored@.subrange(0, j as int)[j2] == out_pre[kp];
                    assert(scored@.subrange(0, j + 1)[j2] == out_pre[kp]);
                }
            }
        }
        j = j + 1;
    }
    proof {
        assert(scored@.subrange(0, scored@.len() as int) =~= scored@);
    }
    out
}

/// Every index the projection holds points into the item list.
pub proof fn lemma_refiltered_in_range(items: Seq<VaultItem>, query: Seq<char>, r: Seq<usize>)
    requires
        is_refiltered(items, query, r),
    ensures
        forall|k: int| 0 <= k < r.len() ==> (#[trigger] r[k]) < items.len(),
{
    if query.len() == 0 {
        assert(forall|k: int| 0 <= k < r.len() ==> r[k] == k);
    }
}

/// The display-order index projection for `items` under `query`.
#[verifier::rlimit(30)]
pub fn refilter(items: &Vec<VaultItem>, query: &str) -> (r: Vec<usize>)
    ensures
        is_refiltered(items@, query@, r@),
{
    if query.is_empty() {
        let mut r: Vec<usize> = Vec::new();
        let mut i: usize = 0;
        while i < items.len()
            invariant
                i <= items@.len(),
                r@.len() == i,
                forall|k: int| 0 <= k < r@.len() ==> r@[k] == k,
            decreases items@.len() - i,
        {
            r.push(i);
            i = i + 1;
        }
        return r;
    }
    let ghost q = query@;
    let mut scored: Vec<(usize, i64)> = Vec::new();
    let mut i: usize = 0;
    while i < items.len()
        invariant
            i <= items@.len(),
            q == query@,
            forall|k1: int, k2: int|
                0 <= k1 < k2 < scored@.len() ==> scored@[k1].0 < scored@[k2].0,
            forall|k: int| 0 <= k < scored@.len() ==> (#[trigger] scored@[k]).0 < i,
            forall|k: int|
                0 <= k < scored@.len() ==> matched(items@, q, (#[trigger] scored@[k]).0 as int)
                    && scored@[k].1 == score_at(items@, q, scored@[k].0 as int),
            forall|j: int|
                0 <= j < i && matched(items@, q, j) ==> exists|k: int|
                    0 <= k < scored@.len() && (#[trigger] scored@[k]).0 == j,
        decreases items@.len() - i,
    {
        let ghost scored_pre = scored@;
        let outcome = fuzzy_match_score(items[i].title.as_str(), query);
        match outcome {
            Some(s) => {
                scored.push((i, s));
            },
            None => {},
        }
        proof {
            assert forall|j: int|
                0 <= j < i + 1 && matched(items@, q, j) implies exists|k: int|
                0 <= k < scored@.len() && (#[trigger] scored@[k]).0 == j by {
                if j == i {
                    assert(outcome is Some);
                    assert(scored@[scored@.len() - 1].0 == i);
                } else {
                    let k0 = choose|k0: int|
                        0 <= k0 < scored_pre.len() && (#[trigger] scored_pre[k0]).0 == j;
                    assert(scored@[k0].0 == j);
                }
            }
        }
        i = i + 1;
    }
    let out = sort_by_display_order(&scored);
    let mut r: Vec<usize> = Vec::new();
    let mut k: usize = 0;
    while k < out.len()
        invariant
            k <= out@.len(),
            r@.len() == k,
            forall|k2: int| 0 <= k2 < k ==> r@[k2] == (#[trigger] out@[k2]).0,
        decreases out@.len() - k,
    {
        r.push(out[k].0);
        k = k + 1;
    }
    proof {
        assert forall|k2: int|
            0 <= k2 < r@.len() implies r@[k2] < items@.len() && matched(
            items@,
            q,
            r@[k2] as int,
        ) by {
            let j2 = choose|j2: int| 0 <= j2 < scored@.len() && scored@[j2] == out@[k2];
            assert(scored@[j2].0 < items@.len());
        }
        assert forall|i2: int|
            0 <= i2 < items@.len() && matched(items@, q, i2) implies exists|k2: int|
            0 <= k2 < r@.len() && r@[k2] == i2 by {
            let k0 = choose|k0: int| 0 <= k0 < scored@.len() && (#[trigger] scored@[k0]).0 == i2;
            let k1 = choose|k1: int| 0 <= k1 < out@.len() && out@[k1] == scored@[k0];
            assert(r@[k1] == i2);
        }
        assert forall|k1: int, k2: int|
            0 <= k1 < k2 < r@.len() implies display_before(
            (r@[k1], score_at(items@, q, r@[k1] as int)),
            (r@[k2], score_at(items@, q, r@[k2] as int)),
        ) by {
            let ja = choose|ja: int| 0 <= ja < scored@.len() && scored@[ja] == out@[k1];
            let jb = choose|jb: int| 0 <= jb < scored@.len() && scored@[jb] == out@[k2];
            assert(display_before(out@[k1], out@[k2]));
            assert(out@[k1].1 == score_at(items@, q, out@[k1].0 as int));
            assert(out@[k2].1 == score_at(items@, q, out@[k2].0 as int));
        }
    }
    r
}

} // verus!
