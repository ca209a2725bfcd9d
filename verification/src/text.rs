//! Small text-building helpers shared by the rest of the library:
//! appending single characters to a `String`, formatting decimal numbers,
//! and ordering strings the way `str`'s own ordering does.
use vstd::prelude::*;

use vstd::string::StrSliceExecFns;

verus! {

/// Relies on `String::push`: appends exactly one character to the string.
#[verifier::external_body]
pub fn push_char(s: &mut String, c: char)
    ensures
        final(s)@ == old(s)@ + seq![c],
{
    s.push(c);
}

/// The decimal digit character for `n` (`n` must be below ten).
pub open spec fn digit_char(n: nat) -> char
    recommends
        n < 10,
{
    ((48 + n) as u8) as char
}

/// The decimal representation of `n`, most significant digit first.
pub open spec fn dec_chars(n: nat) -> Seq<char>
    decreases n,
{
    if n < 10 {
        seq![digit_char(n)]
    } else {
        dec_chars(n / 10) + seq![digit_char(n % 10)]
    }
}

/// Appends the decimal representation of `n` to `s`.
pub fn push_decimal(s: &mut String, n: usize)
    ensures
        final(s)@ == old(s)@ + dec_chars(n as nat),
    decreases n,
{
    if n >= 10 {
        proof {
            assert(n / 10 < n) by (nonlinear_arith)
                requires
                    n >= 10,
            ;
        }
        push_decimal(s, n / 10);
    }
    let d: u8 = (n % 10) as u8 + 48;
    push_char(s, d as char);
    proof {
        if n >= 10 {
            assert(s@ == old(s)@ + dec_chars(n as nat / 10) + seq![digit_char(n as nat % 10)]);
            assert(old(s)@ + dec_chars(n as nat / 10) + seq![digit_char(n as nat % 10)] == old(
                s,
            )@ + (dec_chars(n as nat / 10) + seq![digit_char(n as nat % 10)]));
        }
    }
}

/// The decimal representation of `n` as a fresh string.
pub fn decimal_string(n: usize) -> (r: String)
    ensures
        r@ == dec_chars(n as nat),
{
    let mut s = String::new();
    push_decimal(&mut s, n);
    proof {
        assert(s@ == Seq::<char>::empty() + dec_chars(n as nat));
        assert(Seq::<char>::empty() + dec_chars(n as nat) == dec_chars(n as nat));
    }
    s
}


/// Some name in the list reads `t`.
pub open spec fn has_text(s: Seq<String>, t: Seq<char>) -> bool {
    exists|i: int| 0 <= i < s.len() && (#[trigger] s[i])@ == t
}

/// Strict lexicographic order on texts, by scalar value — the order
/// `str`'s comparison gives.
pub open spec fn lex_lt(a: Seq<char>, b: Seq<char>) -> bool
    decreases a.len(),
{
    if b.len() == 0 {
        false
    } else if a.len() == 0 {
        true
    } else if a[0] != b[0] {
        (a[0] as u32) < (b[0] as u32)
    } else {
        lex_lt(a.drop_first(), b.drop_first())
    }
}

/// Two texts are ordered one way or the other, or are the same text.
pub proof fn lemma_lex_total(a: Seq<char>, b: Seq<char>)
    ensures
        lex_lt(a, b) || lex_lt(b, a) || a == b,
    decreases a.len(),
{
    if a.len() == 0 && b.len() == 0 {
        assert(a =~= b);
    } else if a.len() > 0 && b.len() > 0 {
        if a[0] == b[0] {
            lemma_lex_total(a.drop_first(), b.drop_first());
            if a.drop_first() == b.drop_first() {
                assert(a.drop_first().len() == a.len() - 1);
                assert(b.drop_first().len() == b.len() - 1);
                assert(forall|i: int|
                    1 <= i < a.len() ==> #[trigger] a[i] == a.drop_first()[i - 1]);
                assert(forall|i: int|
                    1 <= i < b.len() ==> #[trigger] b[i] == b.drop_first()[i - 1]);
                assert(a =~= b);
            }
        } else {
            vstd::utf8::char_u32_cast(a[0], a[0] as u32);
            vstd::utf8::char_u32_cast(b[0], b[0] as u32);
            assert((a[0] as u32) != (b[0] as u32));
        }
    }
}

/// Whether `a` reads strictly before `b`.
pub fn str_lt(a: &String, b: &String) -> (r: bool)
    ensures
        r == lex_lt(a@, b@),
{
    let sa = a.as_str();
    let sb = b.as_str();
    let na = sa.unicode_len();
    let nb = sb.unicode_len();
    let mut i: usize = 0;
    proof {
        assert(a@.skip(0) =~= a@);
        assert(b@.skip(0) =~= b@);
    }
    loop
        invariant
            i <= na,
            i <= nb,
            na == a@.len(),
            nb == b@.len(),
            sa@ == a@,
            sb@ == b@,
            forall|j: int| 0 <= j < i ==> a@[j] == b@[j],
            lex_lt(a@, b@) == lex_lt(a@.skip(i as int), b@.skip(i as int)),
        decreases na - i,
    {
        if i == nb {
            proof {
                assert(b@.skip(i as int).len() == 0);
            }
            return false;
        }
        if i == na {
            proof {
                assert(a@.skip(i as int).len() == 0);
                assert(b@.skip(i as int).len() > 0);
            }
            return true;
        }
        let ca = sa.get_char(i);
        let cb = sb.get_char(i);
        if ca != cb {
            proof {
                assert(a@.skip(i as int)[0] == a@[i as int]);
                assert(b@.skip(i as int)[0] == b@[i as int]);
            }
            return (ca as u32) < (cb as u32);
        }
        proof {
            assert(a@.skip(i as int)[0] == b@.skip(i as int)[0]);
            assert(a@.skip(i as int).drop_first() =~= a@.skip(i + 1));
            assert(b@.skip(i as int).drop_first() =~= b@.skip(i + 1));
        }
        i = i + 1;
    }
}

/// Inserting a name at its scan position keeps the list strictly
/// ascending and extends its contents by exactly that name.
#[verifier::rlimit(60)]
proof fn lemma_sorted_insert(
    pre: Seq<String>,
    names: Seq<String>,
    j: int,
    p: int,
    post: Seq<String>,
)
    requires
        0 <= j < names.len(),
        forall|i1: int, i2: int| 0 <= i1 < i2 < names.len() ==> names[i1]@ != names[i2]@,
        0 <= p <= pre.len(),
        post == pre.insert(p, names[j]),
        forall|k: int| 0 <= k < pre.len() ==> names.subrange(0, j).contains(#[trigger] pre[k]),
        forall|j2: int| 0 <= j2 < j ==> pre.contains(#[trigger] names[j2]),
        forall|k1: int, k2: int| 0 <= k1 < k2 < pre.len() ==> lex_lt(pre[k1]@, pre[k2]@),
        forall|k: int| 0 <= k < p ==> lex_lt(#[trigger] pre[k]@, names[j]@),
        p < pre.len() ==> !lex_lt(pre[p]@, names[j]@),
    ensures
        post.len() == pre.len() + 1,
        forall|k: int|
            0 <= k < post.len() ==> names.subrange(0, j + 1).contains(#[trigger] post[k]),
        forall|j2: int| 0 <= j2 < j + 1 ==> post.contains(#[trigger] names[j2]),
        forall|k1: int, k2: int| 0 <= k1 < k2 < post.len() ==> lex_lt(post[k1]@, post[k2]@),
{
    assert(forall|k: int| 0 <= k < p ==> post[k] == pre[k]);
    assert(post[p] == names[j]);
    assert(forall|k: int| p < k < post.len() ==> post[k] == pre[k - 1]);
    assert forall|k: int| p <= k < pre.len() implies lex_lt(
        names[j]@,
        #[trigger] pre[k]@,
    ) by {
        let i0 = choose|i0: int| 0 <= i0 < j && names.subrange(0, j)[i0] == pre[k];
        assert(names[i0] == pre[k]);
        assert(names[i0]@ != names[j]@);
        lemma_lex_total(pre[k]@, names[j]@);
        if k > p {
            if lex_lt(pre[k]@, names[j]@) {
                assert(lex_lt(pre[p]@, pre[k]@));
                lemma_lex_trans(pre[p]@, pre[k]@, names[j]@);
            }
        }
    }
    assert forall|k1: int, k2: int|
        0 <= k1 < k2 < post.len() implies lex_lt(post[k1]@, post[k2]@) by {
        if k2 == p {
            assert(lex_lt(pre[k1]@, names[j]@));
        } else if k1 == p {
            assert(lex_lt(names[j]@, pre[k2 - 1]@));
        } else if k1 < p && k2 > p {
            assert(lex_lt(pre[k1]@, names[j]@));
            assert(lex_lt(names[j]@, pre[k2 - 1]@));
            lemma_lex_trans(pre[k1]@, names[j]@, pre[k2 - 1]@);
        }
    }
    assert forall|j2: int| 0 <= j2 < j + 1 implies post.contains(#[trigger] names[j2]) by {
        if j2 == j {
            assert(post[p] == names[j]);
        } else {
            let k0 = choose|k0: int| 0 <= k0 < pre.len() && pre[k0] == names[j2];
            if k0 < p {
                assert(post[k0] == names[j2]);
            } else {
                assert(post[k0 + 1] == names[j2]);
            }
        }
    }
    assert forall|k: int| 0 <= k < post.len() implies names.subrange(0, j + 1).contains(
        #[trigger] post[k],
    ) by {
        if k == p {
            assert(names.subrange(0, j + 1)[j] == names[j]);
            assert(post[k] == names[j]);
        } else {
            let kp = if k < p {
                k
            } else {
                k - 1
            };
            assert(post[k] == pre[kp]);
            let i0 = choose|i0: int| 0 <= i0 < j && names.subrange(0, j)[i0] == pre[kp];
            assert(names.subrange(0, j + 1)[i0] == pre[kp]);
        }
    }
}

/// Sorts names with pairwise distinct texts into strictly ascending
/// order; the result holds the same names.
#[verifier::rlimit(60)]
pub fn sort_distinct_names(names: &Vec<String>) -> (r: Vec<String>)
    requires
        forall|i: int, j: int| 0 <= i < j < names@.len() ==> names@[i]@ != names@[j]@,
    ensures
        r@.len() == names@.len(),
        forall|k: int| 0 <= k < r@.len() ==> names@.contains(#[trigger] r@[k]),
        forall|j: int| 0 <= j < names@.len() ==> r@.contains(#[trigger] names@[j]),
        forall|k1: int, k2: int| 0 <= k1 < k2 < r@.len() ==> lex_lt(r@[k1]@, r@[k2]@),
{
    let mut out: Vec<String> = Vec::new();
    let mut j: usize = 0;
    while j < names.len()
        invariant
            j <= names@.len(),
            out@.len() == j,
            forall|i1: int, i2: int|
                0 <= i1 < i2 < names@.len() ==> names@[i1]@ != names@[i2]@,
            forall|k: int|
                0 <= k < out@.len() ==> names@.subrange(0, j as int).contains(
                    #[trigger] out@[k],
                ),
            forall|j2: int| 0 <= j2 < j ==> out@.contains(#[trigger] names@[j2]),
            forall|k1: int, k2: int| 0 <= k1 < k2 < out@.len() ==> lex_lt(out@[k1]@, out@[k2]@),
        decreases names@.len() - j,
    {
        let x = names[j].clone();
        let mut p: usize = 0;
        while p < out.len() && str_lt(&out[p], &x)
            invariant
                p <= out@.len(),
                x == names@[j as int],
                forall|k: int| 0 <= k < p ==> lex_lt(#[trigger] out@[k]@, x@),
            ensures
                p <= out@.len(),
                x == names@[j as int],
                forall|k: int| 0 <= k < p ==> lex_lt(#[trigger] out@[k]@, x@),
                p < out@.len() ==> !lex_lt(out@[p as int]@, x@),
            decreases out@.len() - p,
        {
            p = p + 1;
        }
        let ghost out_pre = out@;
        out.insert(p, x);
        proof {
            lemma_sorted_insert(out_pre, names@, j as int, p as int, out@);
        }
        j = j + 1;
    }
    proof {
        assert(names@.subrange(0, names@.len() as int) =~= names@);
    }
    out
}

/// The order is transitive.
pub proof fn lemma_lex_trans(a: Seq<char>, b: Seq<char>, c: Seq<char>)
    requires
        lex_lt(a, b),
        lex_lt(b, c),
    ensures
        lex_lt(a, c),
    decreases a.len() + b.len() + c.len(),
{
    if a.len() > 0 && b.len() > 0 && c.len() > 0 {
        if a[0] == b[0] && b[0] == c[0] {
            lemma_lex_trans(a.drop_first(), b.drop_first(), c.drop_first());
        }
    }
}

} // verus!
