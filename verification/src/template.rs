//! The template engine: deriving template names, generating the leading
//! comment of a fresh template, and rendering — stripping the engine's
//! own comment lines and substituting `{{NAME}}` placeholders. Rendering
//! works on raw bytes, so the written target is byte-identical whenever
//! template and resolved values are unchanged.
use vstd::prelude::*;
use vstd::string::StringSliceAdditionalSpecFns;
use vstd::string::StrSliceExecFns;
use vstd::string::StringExecFns;
use vstd::utf8::encode_utf8;

verus! {

/// The first index of a newline byte in `s`, or `s.len()` if none.
pub open spec fn nl_pos(s: Seq<u8>) -> int
    decreases s.len(),
{
    if s.len() == 0 {
        0
    } else if s[0] == ('\n' as u8) {
        0
    } else {
        1 + nl_pos(s.drop_first())
    }
}

pub proof fn lemma_nl_pos(s: Seq<u8>)
    ensures
        0 <= nl_pos(s) <= s.len(),
        forall|j: int| 0 <= j < nl_pos(s) ==> s[j] != ('\n' as u8),
        nl_pos(s) < s.len() ==> s[nl_pos(s)] == ('\n' as u8),
    decreases s.len(),
{
    if s.len() > 0 && s[0] != ('\n' as u8) {
        lemma_nl_pos(s.drop_first());
        assert(forall|j: int| 1 <= j < nl_pos(s) ==> s[j] == s.drop_first()[j - 1]);
    }
}

/// A carriage return closing a line before a newline is dropped, as
/// `str::lines` does.
pub open spec fn strip_cr(line: Seq<u8>) -> Seq<u8> {
    if line.len() > 0 && line[line.len() - 1] == ('\r' as u8) {
        line.drop_last()
    } else {
        line
    }
}

/// The lines of `s`, as `str::lines` reads them: split at newlines, a
/// carriage return before a newline dropped, no trailing empty line for
/// input that ends with a newline.
pub open spec fn split_lines(s: Seq<u8>) -> Seq<Seq<u8>>
    decreases s.len(),
    via split_lines_decreases
{
    if s.len() == 0 {
        Seq::empty()
    } else {
        let i = nl_pos(s);
        if i == s.len() {
            seq![s]
        } else {
            seq![strip_cr(s.subrange(0, i))] + split_lines(s.skip(i + 1))
        }
    }
}

#[via_fn]
proof fn split_lines_decreases(s: Seq<u8>) {
    lemma_nl_pos(s);
}

/// The engine's comment marker, opening every line it writes and strips.
pub open spec fn marker_bytes() -> Seq<u8> {
    seq![
        '#' as u8,
        ' ' as u8,
        'o' as u8,
        'p' as u8,
        '-' as u8,
        'l' as u8,
        'o' as u8,
        'a' as u8,
        'd' as u8,
        'e' as u8,
        'r' as u8,
        ':' as u8,
    ]
}

/// Whether a line begins with the engine's comment marker.
pub open spec fn is_marker_line(line: Seq<u8>) -> bool {
    line.len() >= marker_bytes().len() && line.subrange(0, marker_bytes().len() as int)
        == marker_bytes()
}

/// The lines that survive stripping: everything but marker lines.
pub open spec fn strip_markers(lines: Seq<Seq<u8>>) -> Seq<Seq<u8>>
    decreases lines.len(),
{
    if lines.len() == 0 {
        lines
    } else {
        let rest = strip_markers(lines.drop_first());
        if is_marker_line(lines[0]) {
            rest
        } else {
            seq![lines[0]] + rest
        }
    }
}

/// Lines joined with single newlines, none at the end.
pub open spec fn join_lines(lines: Seq<Seq<u8>>) -> Seq<u8>
    decreases lines.len(),
{
    if lines.len() == 0 {
        Seq::empty()
    } else if lines.len() == 1 {
        lines[0]
    } else {
        lines[0] + seq![('\n' as u8)] + join_lines(lines.drop_first())
    }
}

/// The template content with the engine's comment lines removed and the
/// original trailing-newline presence preserved.
pub open spec fn stripped_content(t: Seq<u8>) -> Seq<u8> {
    let joined = join_lines(strip_markers(split_lines(t)));
    if t.len() > 0 && t[t.len() - 1] == ('\n' as u8) && !(joined.len() > 0 && joined[joined.len()
        - 1] == ('\n' as u8)) {
        joined + seq![('\n' as u8)]
    } else {
        joined
    }
}

/// The placeholder spelled for a variable name: `{{NAME}}`.
pub open spec fn placeholder_of(name: Seq<u8>) -> Seq<u8> {
    seq![('{' as u8), ('{' as u8)] + name + seq![('}' as u8), ('}' as u8)]
}

/// `s` with every occurrence of `pat` replaced by `val`, scanning left
/// to right; occurrences never overlap, and `val` is not rescanned.
pub open spec fn replace_all(s: Seq<u8>, pat: Seq<u8>, val: Seq<u8>) -> Seq<u8>
    recommends
        pat.len() > 0,
    decreases s.len(),
{
    if pat.len() == 0 || s.len() < pat.len() {
        s
    } else if s.subrange(0, pat.len() as int) == pat {
        val + replace_all(s.skip(pat.len() as int), pat, val)
    } else {
        seq![s[0]] + replace_all(s.drop_first(), pat, val)
    }
}

/// `s` after substituting each variable in turn: every `{{NAME}}` is
/// replaced by that variable's value, in the order the variables are
/// listed.
pub open spec fn substituted(s: Seq<u8>, vars: Seq<(Vec<u8>, Vec<u8>)>) -> Seq<u8>
    decreases vars.len(),
{
    if vars.len() == 0 {
        s
    } else {
        substituted(
            replace_all(s, placeholder_of(vars[0].0@), vars[0].1@),
            vars.drop_first(),
        )
    }
}

/// What rendering produces from a template and the resolved variables.
pub open spec fn rendered_content(t: Seq<u8>, vars: Seq<(Vec<u8>, Vec<u8>)>) -> Seq<u8> {
    substituted(stripped_content(t), vars)
}

/// Rendering is a function of the template bytes and the resolved
/// variables alone: two renders from unchanged inputs produce
/// byte-identical target content.
pub proof fn lemma_render_idempotent(
    t: Seq<u8>,
    vars: Seq<(Vec<u8>, Vec<u8>)>,
    first: Seq<u8>,
    second: Seq<u8>,
)
    requires
        first == rendered_content(t, vars),
        second == rendered_content(t, vars),
    ensures
        first == second,
{
}

/// Whether `pat` occurs in `s` at position `at`.
fn bytes_match_at(s: &Vec<u8>, at: usize, pat: &Vec<u8>) -> (r: bool)
    requires
        at <= s@.len(),
    ensures
        r == (at + pat@.len() <= s@.len() && s@.subrange(at as int, at + pat@.len()) == pat@),
{
    if s.len() - at < pat.len() {
        return false;
    }
    let mut k: usize = 0;
    while k < pat.len()
        invariant
            k <= pat@.len(),
            at + pat@.len() <= s@.len(),
            s@.len() <= usize::MAX,
            forall|j: int| 0 <= j < k ==> s@[at + j] == pat@[j],
        decreases pat@.len() - k,
    {
        if s[at + k] != pat[k] {
            proof {
                assert(s@.subrange(at as int, at + pat@.len())[k as int] != pat@[k as int]);
            }
            return false;
        }
        k = k + 1;
    }
    proof {
        assert(s@.subrange(at as int, at + pat@.len()) =~= pat@);
    }
    true
}

/// `s` with every occurrence of `pat` replaced by `val`.
pub fn replace_all_bytes(s: &Vec<u8>, pat: &Vec<u8>, val: &Vec<u8>) -> (r: Vec<u8>)
    requires
        pat@.len() > 0,
    ensures
        r@ == replace_all(s@, pat@, val@),
{
    let mut out: Vec<u8> = Vec::new();
    let mut i: usize = 0;
    proof {
        assert(s@.skip(0) =~= s@);
        assert(out@ + replace_all(s@.skip(0), pat@, val@) =~= replace_all(s@, pat@, val@));
    }
    while i < s.len()
        invariant
            i <= s@.len(),
            pat@.len() > 0,
            replace_all(s@, pat@, val@) == out@ + replace_all(s@.skip(i as int), pat@, val@),
        decreases s@.len() - i,
    {
        let ghost pre = out@;
        if bytes_match_at(s, i, pat) {
            let mut k: usize = 0;
            while k < val.len()
                invariant
                    k <= val@.len(),
                    out@ == pre + val@.subrange(0, k as int),
                decreases val@.len() - k,
            {
                out.push(val[k]);
                proof {
                    assert(out@ =~= pre + val@.subrange(0, k + 1 as int));
                }
                k = k + 1;
            }
            proof {
                assert(val@.subrange(0, val@.len() as int) =~= val@);
                let tail = s@.skip(i as int);
                assert(tail.subrange(0, pat@.len() as int) =~= s@.subrange(
                    i as int,
                    i + pat@.len(),
                ));
                assert(tail.skip(pat@.len() as int) =~= s@.skip(i + pat@.len()));
                assert(replace_all(tail, pat@, val@) == val@ + replace_all(
                    s@.skip(i + pat@.len()),
                    pat@,
                    val@,
                ));
                assert(out@ + replace_all(s@.skip(i + pat@.len()), pat@, val@) =~= pre
                    + replace_all(tail, pat@, val@));
            }
            i = i + pat.len();
        } else {
            out.push(s[i]);
            proof {
                let tail = s@.skip(i as int);
                if tail.len() >= pat@.len() {
                    assert(tail.subrange(0, pat@.len() as int) =~= s@.subrange(
                        i as int,
                        i + pat@.len(),
                    ));
                }
                assert(tail.drop_first() =~= s@.skip(i + 1));
                assert(tail[0] == s@[i as int]);
                assert(replace_all(tail, pat@, val@) == seq![s@[i as int]] + replace_all(
                    s@.skip(i + 1),
                    pat@,
                    val@,
                ));
                assert(out@ + replace_all(s@.skip(i + 1), pat@, val@) =~= pre + replace_all(
                    tail,
                    pat@,
                    val@,
                ));
            }
            i = i + 1;
        }
    }
    proof {
        assert(s@.skip(s@.len() as int) =~= Seq::<u8>::empty());
        assert(out@ + Seq::<u8>::empty() =~= out@);
    }
    out
}


/// Copies `s[from..to]` into a fresh vector.
pub fn subrange_vec(s: &Vec<u8>, from: usize, to: usize) -> (r: Vec<u8>)
    requires
        from <= to <= s@.len(),
    ensures
        r@ == s@.subrange(from as int, to as int),
{
    let mut r: Vec<u8> = Vec::new();
    let mut k: usize = from;
    while k < to
        invariant
            from <= k <= to <= s@.len(),
            r@ == s@.subrange(from as int, k as int),
        decreases to - k,
    {
        r.push(s[k]);
        proof {
            assert(r@ =~= s@.subrange(from as int, k + 1 as int));
        }
        k = k + 1;
    }
    r
}

/// The position of the first newline at or after `from`, or the length.
fn find_nl(s: &Vec<u8>, from: usize) -> (r: usize)
    requires
        from <= s@.len(),
    ensures
        from <= r <= s@.len(),
        forall|j: int| from <= j < r ==> s@[j] != ('\n' as u8),
        r < s@.len() ==> s@[r as int] == ('\n' as u8),
{
    let mut k: usize = from;
    while k < s.len()
        invariant
            from <= k <= s@.len(),
            forall|j: int| from <= j < k ==> s@[j] != ('\n' as u8),
        ensures
            from <= k <= s@.len(),
            forall|j: int| from <= j < k ==> s@[j] != ('\n' as u8),
            k < s@.len() ==> s@[k as int] == ('\n' as u8),
        decreases s@.len() - k,
    {
        if s[k] == ('\n' as u8) {
            break ;
        }
        k = k + 1;
    }
    k
}

/// Pointwise knowledge of where the first newline is pins `nl_pos` down.
proof fn lemma_nl_pos_at(t: Seq<u8>, i: int)
    requires
        0 <= i <= t.len(),
        forall|j: int| 0 <= j < i ==> t[j] != ('\n' as u8),
        i < t.len() ==> t[i] == ('\n' as u8),
    ensures
        nl_pos(t) == i,
    decreases t.len(),
{
    if t.len() > 0 && t[0] != ('\n' as u8) {
        assert(forall|j: int| 0 <= j < i - 1 ==> t.drop_first()[j] == t[j + 1]);
        lemma_nl_pos_at(t.drop_first(), i - 1);
    }
}

/// The lines of `t`, as `split_lines` describes them.
pub fn split_into_lines(t: &Vec<u8>) -> (r: Vec<Vec<u8>>)
    ensures
        r.deep_view() == split_lines(t@),
{
    let mut lines: Vec<Vec<u8>> = Vec::new();
    let mut pos: usize = 0;
    proof {
        assert(t@.skip(0) =~= t@);
        assert(lines.deep_view() + split_lines(t@.skip(0)) =~= split_lines(t@));
    }
    while pos < t.len()
        invariant
            pos <= t@.len(),
            split_lines(t@) == lines.deep_view() + split_lines(t@.skip(pos as int)),
        decreases t@.len() - pos,
    {
        let ghost dv_pre = lines.deep_view();
        let ghost tail = t@.skip(pos as int);
        let e = find_nl(t, pos);
        proof {
            assert(forall|j: int| 0 <= j < tail.len() ==> tail[j] == t@[pos + j]);
            lemma_nl_pos_at(tail, e - pos);
        }
        if e == t.len() {
            let line = subrange_vec(t, pos, e);
            lines.push(line);
            proof {
                assert(tail =~= t@.subrange(pos as int, e as int));
                assert(split_lines(tail) == seq![tail]);
                assert(lines.deep_view() =~~= dv_pre.push(t@.subrange(pos as int, e as int)));
                assert(t@.skip(e as int) =~= Seq::<u8>::empty());
                assert(lines.deep_view() + split_lines(t@.skip(e as int)) =~= split_lines(t@));
            }
            pos = e;
        } else {
            let end = if e > pos && t[e - 1] == ('\r' as u8) {
                e - 1
            } else {
                e
            };
            let line = subrange_vec(t, pos, end);
            lines.push(line);
            proof {
                let raw = tail.subrange(0, e - pos);
                assert(raw =~= t@.subrange(pos as int, e as int));
                if e > pos && t@[e - 1] == ('\r' as u8) {
                    assert(raw[raw.len() - 1] == ('\r' as u8));
                    assert(strip_cr(raw) =~= t@.subrange(pos as int, end as int));
                } else {
                    assert(strip_cr(raw) =~= t@.subrange(pos as int, end as int));
                }
                assert(split_lines(tail) == seq![strip_cr(raw)] + split_lines(
                    tail.skip(e - pos + 1),
                ));
                assert(tail.skip(e - pos + 1) =~= t@.skip(e + 1));
                assert(lines.deep_view() =~~= dv_pre.push(strip_cr(raw)));
                assert(lines.deep_view() + split_lines(t@.skip(e + 1)) =~= split_lines(t@));
            }
            pos = e + 1;
        }
    }
    proof {
        assert(t@.skip(t@.len() as int) =~= Seq::<u8>::empty());
        assert(lines.deep_view() + split_lines(t@.skip(pos as int)) =~= lines.deep_view());
    }
    lines
}

/// The engine's comment marker as bytes.
fn marker_vec() -> (r: Vec<u8>)
    ensures
        r@ == marker_bytes(),
{
    let mut r: Vec<u8> = Vec::new();
    r.push('#' as u8);
    r.push(' ' as u8);
    r.push('o' as u8);
    r.push('p' as u8);
    r.push('-' as u8);
    r.push('l' as u8);
    r.push('o' as u8);
    r.push('a' as u8);
    r.push('d' as u8);
    r.push('e' as u8);
    r.push('r' as u8);
    r.push(':' as u8);
    proof {
        assert(r@ =~= marker_bytes());
    }
    r
}

/// Drops every line that begins with the engine's comment marker.
fn drop_marker_lines(lines: Vec<Vec<u8>>) -> (r: Vec<Vec<u8>>)
    ensures
        r.deep_view() == strip_markers(lines.deep_view()),
{
    let ghost orig = lines.deep_view();
    let marker = marker_vec();
    let mut rest = lines;
    let mut kept: Vec<Vec<u8>> = Vec::new();
    let n = rest.len();
    proof {
        assert(orig.len() == n as int);
        assert(rest.deep_view() =~= orig.skip(0));
        assert(strip_markers(orig) =~= kept.deep_view() + strip_markers(rest.deep_view()));
    }
    loop
        invariant
            marker@ == marker_bytes(),
            orig.len() <= usize::MAX,
            rest.deep_view().len() <= orig.len(),
            rest.deep_view() == orig.skip(orig.len() - rest.deep_view().len()),
            strip_markers(orig) == kept.deep_view() + strip_markers(rest.deep_view()),
        ensures
            kept.deep_view() == strip_markers(orig),
        decreases rest.deep_view().len(),
    {
        if rest.len() == 0 {
            proof {
                assert(kept.deep_view() + strip_markers(rest.deep_view()) =~= kept.deep_view());
            }
            break ;
        }
        let ghost before = rest.deep_view();
        let ghost kept_pre = kept.deep_view();
        let line = rest.remove(0);
        proof {
            assert(rest.deep_view() =~= before.drop_first());
            assert(line.deep_view() =~= line@);
            assert(line@ == before[0]);
        }
        let is_marker = bytes_match_at(&line, 0, &marker);
        proof {
            if is_marker {
                assert(line@.subrange(0, marker_bytes().len() as int) == marker_bytes());
                assert(is_marker_line(before[0]));
            } else {
                if before[0].len() >= marker_bytes().len() {
                    assert(!(line@.subrange(0, marker_bytes().len() as int) == marker_bytes()));
                }
                assert(!is_marker_line(before[0]));
            }
            assert(strip_markers(before) == if is_marker_line(before[0]) {
                strip_markers(before.drop_first())
            } else {
                seq![before[0]] + strip_markers(before.drop_first())
            });
        }
        if is_marker {
        } else {
            kept.push(line);
            proof {
                assert(kept.deep_view() =~~= kept_pre.push(before[0]));
                assert(kept.deep_view() + strip_markers(rest.deep_view()) =~= kept_pre + (seq![
                    before[0],
                ] + strip_markers(before.drop_first())));
            }
        }
    }
    kept
}

/// Appending one line to a joined text adds a separating newline
/// whenever the text already holds a line.
proof fn lemma_join_push(lines: Seq<Seq<u8>>, l: Seq<u8>)
    ensures
        join_lines(lines.push(l)) == if lines.len() == 0 {
            l
        } else {
            join_lines(lines) + seq![('\n' as u8)] + l
        },
    decreases lines.len(),
{
    let p = lines.push(l);
    if lines.len() == 0 {
        assert(p.len() == 1);
        assert(join_lines(p) == p[0]);
    } else if lines.len() == 1 {
        assert(p.len() == 2);
        assert(p.drop_first() =~= seq![l]);
        assert(join_lines(p) == p[0] + seq![('\n' as u8)] + join_lines(p.drop_first()));
    } else {
        assert(p.drop_first() =~= lines.drop_first().push(l));
        lemma_join_push(lines.drop_first(), l);
        assert(join_lines(p) == p[0] + seq![('\n' as u8)] + join_lines(p.drop_first()));
        assert(join_lines(lines) == lines[0] + seq![('\n' as u8)] + join_lines(
            lines.drop_first(),
        ));
    }
}

/// Joins lines with single newlines.
fn join_lines_vec(lines: &Vec<Vec<u8>>) -> (r: Vec<u8>)
    ensures
        r@ == join_lines(lines.deep_view()),
{
    let mut out: Vec<u8> = Vec::new();
    let mut k: usize = 0;
    proof {
        assert(lines.deep_view().subrange(0, 0) =~= Seq::<Seq<u8>>::empty());
    }
    while k < lines.len()
        invariant
            k <= lines.deep_view().len(),
            lines.deep_view().len() == lines@.len(),
            out@ == join_lines(lines.deep_view().subrange(0, k as int)),
        decreases lines@.len() - k,
    {
        let ghost dv = lines.deep_view();
        let ghost pre = out@;
        if k > 0 {
            out.push('\n' as u8);
        }
        out.extend_from_slice(lines[k].as_slice());
        proof {
            assert(dv.subrange(0, k + 1 as int) =~= dv.subrange(0, k as int).push(dv[k as int]));
            lemma_join_push(dv.subrange(0, k as int), dv[k as int]);
            if k == 0 {
                assert(out@ =~= dv[0]);
            } else {
                assert(out@ =~= pre + seq![('\n' as u8)] + dv[k as int]);
            }
        }
        k = k + 1;
    }
    proof {
        assert(lines.deep_view().subrange(0, lines.deep_view().len() as int) =~= (
        lines.deep_view()));
    }
    out
}

/// The template content with the engine's comment lines removed and the
/// trailing-newline presence of the input preserved.
pub fn strip_marker_content(t: &Vec<u8>) -> (r: Vec<u8>)
    ensures
        r@ == stripped_content(t@),
{
    let lines = split_into_lines(t);
    let kept = drop_marker_lines(lines);
    let mut joined = join_lines_vec(&kept);
    let ends_nl = t.len() > 0 && t[t.len() - 1] == ('\n' as u8);
    let joined_ends_nl = joined.len() > 0 && joined[joined.len() - 1] == ('\n' as u8);
    if ends_nl && !joined_ends_nl {
        joined.push('\n' as u8);
        proof {
            assert(joined@ =~= join_lines(strip_markers(split_lines(t@))) + seq![('\n' as u8)]);
        }
    }
    joined
}

/// The placeholder bytes `{{NAME}}` for a variable name.
fn placeholder_vec(name: &Vec<u8>) -> (r: Vec<u8>)
    ensures
        r@ == placeholder_of(name@),
{
    let mut r: Vec<u8> = Vec::new();
    r.push('{' as u8);
    r.push('{' as u8);
    r.extend_from_slice(name.as_slice());
    r.push('}' as u8);
    r.push('}' as u8);
    proof {
        assert(r@ =~= placeholder_of(name@));
    }
    r
}

/// Renders a template: strips the engine's comment lines, then replaces
/// every `{{NAME}}` placeholder with its resolved value, variable by
/// variable in list order. Unmatched placeholders stay verbatim.
pub fn render_template_content(template: &Vec<u8>, vars: &Vec<(Vec<u8>, Vec<u8>)>) -> (r: Vec<
    u8,
>)
    ensures
        r@ == rendered_content(template@, vars@),
{
    let mut content = strip_marker_content(template);
    let ghost base = content@;
    let mut k: usize = 0;
    proof {
        assert(vars@.skip(0) =~= vars@);
    }
    while k < vars.len()
        invariant
            k <= vars@.len(),
            substituted(base, vars@) == substituted(content@, vars@.skip(k as int)),
        decreases vars@.len() - k,
    {
        let ghost tailv = vars@.skip(k as int);
        let pat = placeholder_vec(&vars[k].0);
        proof {
            assert(pat@.len() >= 4);
            assert(tailv[0] == vars@[k as int]);
            assert(tailv.drop_first() =~= vars@.skip(k + 1));
            assert(substituted(content@, tailv) == substituted(
                replace_all(content@, placeholder_of(vars@[k as int].0@), vars@[k as int].1@),
                vars@.skip(k + 1),
            ));
        }
        content = replace_all_bytes(&content, &pat, &vars[k].1);
        k = k + 1;
    }
    proof {
        assert(vars@.skip(vars@.len() as int) =~= Seq::<(Vec<u8>, Vec<u8>)>::empty());
    }
    content
}


/// The part of a path after its last slash: the file name, or empty for
/// a path that ends in a slash.
pub open spec fn after_last_slash(s: Seq<char>) -> Seq<char>
    decreases s.len(),
{
    if s.len() == 0 {
        s
    } else if s[s.len() - 1] == '/' {
        Seq::empty()
    } else {
        after_last_slash(s.drop_last()) + seq![s[s.len() - 1]]
    }
}

/// With the last slash at `idx` known, the file part is the suffix
/// after it.
proof fn lemma_after_last_slash_at(s: Seq<char>, idx: int)
    requires
        0 <= idx < s.len(),
        s[idx] == '/',
        forall|j: int| idx < j < s.len() ==> s[j] != '/',
    ensures
        after_last_slash(s) == s.subrange(idx + 1, s.len() as int),
    decreases s.len(),
{
    if idx == s.len() - 1 {
        assert(after_last_slash(s) =~= s.subrange(idx + 1, s.len() as int));
    } else {
        assert(forall|j: int|
            idx < j < s.drop_last().len() ==> s.drop_last()[j] == s[j]);
        lemma_after_last_slash_at(s.drop_last(), idx);
        assert(after_last_slash(s) =~= s.subrange(idx + 1, s.len() as int));
    }
}

/// A path without slashes is its own file part.
proof fn lemma_after_last_slash_none(s: Seq<char>)
    requires
        forall|j: int| 0 <= j < s.len() ==> s[j] != '/',
    ensures
        after_last_slash(s) == s,
    decreases s.len(),
{
    if s.len() > 0 {
        assert(forall|j: int| 0 <= j < s.drop_last().len() ==> s.drop_last()[j] == s[j]);
        lemma_after_last_slash_none(s.drop_last());
        assert(after_last_slash(s) =~= s);
    }
}

/// The template name derived from a target path: its file name with
/// `.tmpl` appended, or a fixed fallback for a path without one.
pub open spec fn template_name_chars(path: Seq<char>) -> Seq<char> {
    if after_last_slash(path).len() == 0 {
        "template"@ + ".tmpl"@
    } else {
        after_last_slash(path) + ".tmpl"@
    }
}

/// Derives the sidecar template name for a target path.
pub fn path_to_template_name(path: &str) -> (r: String)
    ensures
        r@ == template_name_chars(path@),
{
    let n = path.unicode_len();
    let mut last: Option<usize> = None;
    let mut i: usize = 0;
    while i < n
        invariant
            i <= n,
            n == path@.len(),
            match last {
                Some(idx) => idx < i && path@[idx as int] == '/' && (forall|j: int|
                    idx < j < i ==> path@[j] != '/'),
                None => forall|j: int| 0 <= j < i ==> path@[j] != '/',
            },
        decreases n - i,
    {
        if path.get_char(i) == '/' {
            last = Some(i);
        }
        i = i + 1;
    }
    let mut r = match last {
        Some(idx) => {
            proof {
                lemma_after_last_slash_at(path@, idx as int);
            }
            path.substring_char(idx + 1, n).to_owned()
        },
        None => {
            proof {
                lemma_after_last_slash_none(path@);
            }
            path.to_owned()
        },
    };
    if r.as_str().unicode_len() == 0 {
        r = "template".to_owned();
        r.append(".tmpl");
        proof {
            assert(r@ =~= template_name_chars(path@));
        }
    } else {
        proof {
            assert(r@ =~= after_last_slash(path@));
        }
        r.append(".tmpl");
    }
    r
}

/// The comment written when no binding variables exist yet.
pub open spec fn no_vars_comment_bytes() -> Seq<u8> {
    encode_utf8("# op-loader: No variables configured yet. Use the TUI to add variables.\n"@)
}

/// The known variable names, each as a `{{NAME}}` placeholder, joined
/// with commas.
pub open spec fn var_list_bytes(names: Seq<String>) -> Seq<u8>
    decreases names.len(),
{
    if names.len() == 0 {
        Seq::empty()
    } else if names.len() == 1 {
        placeholder_of(encode_utf8(names[0]@))
    } else {
        placeholder_of(encode_utf8(names[0]@)) + encode_utf8(", "@) + var_list_bytes(
            names.drop_first(),
        )
    }
}

/// The generated first line of a fresh template: the engine's marker
/// followed by the placeholders available, or a note that none exist.
pub open spec fn template_comment_bytes(names: Seq<String>) -> Seq<u8> {
    if names.len() == 0 {
        no_vars_comment_bytes()
    } else {
        encode_utf8("# op-loader: Available variables: "@) + var_list_bytes(names) + seq![
            ('\n' as u8),
        ]
    }
}

/// What a freshly added template file holds: the generated comment line
/// followed by the target's current content.
pub open spec fn new_template_content(original: Seq<u8>, names: Seq<String>) -> Seq<u8> {
    template_comment_bytes(names) + original
}

fn var_list_vec(names: &Vec<String>, from: usize) -> (r: Vec<u8>)
    requires
        from <= names@.len(),
    ensures
        r@ == var_list_bytes(names@.skip(from as int)),
    decreases names@.len() - from,
{
    let ghost tail = names@.skip(from as int);
    if from == names.len() {
        proof {
            assert(tail.len() == 0);
        }
        Vec::new()
    } else {
        let name_bytes = names[from].as_str().as_bytes_vec();
        let mut r = placeholder_vec(&name_bytes);
        proof {
            assert(tail[0] == names@[from as int]);
        }
        if from + 1 == names.len() {
            proof {
                assert(tail.len() == 1);
                assert(r@ =~= var_list_bytes(tail));
            }
            r
        } else {
            r.extend_from_slice(", ".as_bytes());
            let rest = var_list_vec(names, from + 1);
            r.extend_from_slice(rest.as_slice());
            proof {
                assert(tail.drop_first() =~= names@.skip(from + 1));
                assert(r@ =~= var_list_bytes(tail));
            }
            r
        }
    }
}

/// The content written for a freshly added template: the generated
/// comment enumerating the known variable names, then the target's
/// current content unchanged.
pub fn make_template_content(original: &Vec<u8>, names: &Vec<String>) -> (r: Vec<u8>)
    ensures
        r@ == new_template_content(original@, names@),
{
    let mut r: Vec<u8>;
    if names.len() == 0 {
        r =
        "# op-loader: No variables configured yet. Use the TUI to add variables.\n".as_bytes_vec();
    } else {
        r = "# op-loader: Available variables: ".as_bytes_vec();
        let list = var_list_vec(names, 0);
        r.extend_from_slice(list.as_slice());
        r.push('\n' as u8);
        proof {
            assert(names@.skip(0) =~= names@);
            assert(r@ =~= template_comment_bytes(names@));
        }
    }
    r.extend_from_slice(original.as_slice());
    r
}

} // verus!
