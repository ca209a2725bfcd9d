//! Preparing and digesting the secret source's batch-inject operation:
//! grouping bindings by account, building the line-oriented input body,
//! parsing the resolved `name: value` lines that come back, and merging
//! the tables of several accounts (last account wins on a name clash).
use vstd::prelude::*;

use crate::assoc::{has_key, unique_keys};
use crate::entities::InjectVarConfig;
use crate::template::split_lines;

verus! {

/// The `(name, reference)` pairs bound to one account, in binding order.
pub open spec fn account_group(
    vars: Seq<(String, InjectVarConfig)>,
    account: Seq<char>,
) -> Seq<(String, String)>
    decreases vars.len(),
{
    if vars.len() == 0 {
        Seq::empty()
    } else {
        let rest = account_group(vars.drop_first(), account);
        if vars[0].1.account_id@ == account {
            seq![(vars[0].0, vars[0].1.op_reference)] + rest
        } else {
            rest
        }
    }
}

/// Collects the `(name, reference)` pairs of one account.
fn collect_group(vars: &Vec<(String, InjectVarConfig)>, account: &String) -> (r: Vec<
    (String, String),
>)
    ensures
        r@ == account_group(vars@, account@),
{
    let mut r: Vec<(String, String)> = Vec::new();
    let mut i: usize = 0;
    proof {
        assert(vars@.skip(0) =~= vars@);
        assert(r@ + account_group(vars@.skip(0), account@) =~= account_group(vars@, account@));
    }
    while i < vars.len()
        invariant
            i <= vars@.len(),
            account_group(vars@, account@) == r@ + account_group(
                vars@.skip(i as int),
                account@,
            ),
        decreases vars@.len() - i,
    {
        let ghost tail = vars@.skip(i as int);
        let ghost pre = r@;
        proof {
            assert(tail[0] == vars@[i as int]);
            assert(tail.drop_first() =~= vars@.skip(i + 1));
        }
        if vars[i].1.account_id == *account {
            r.push((vars[i].0.clone(), vars[i].1.op_reference.clone()));
            proof {
                assert(account_group(tail, account@) == seq![
                    (vars@[i as int].0, vars@[i as int].1.op_reference),
                ] + account_group(vars@.skip(i + 1), account@));
                assert(r@ + account_group(vars@.skip(i + 1), account@) =~= pre + account_group(
                    tail,
                    account@,
                ));
            }
        } else {
            proof {
                assert(account_group(tail, account@) == account_group(
                    vars@.skip(i + 1),
                    account@,
                ));
            }
        }
        i = i + 1;
    }
    proof {
        assert(vars@.skip(vars@.len() as int) =~= Seq::<(String, InjectVarConfig)>::empty());
        assert(r@ + Seq::<(String, String)>::empty() =~= r@);
    }
    r
}

/// Groups the bindings by their account id. Each account appears once,
/// in ascending id order, carrying all of its `(name, reference)` pairs
/// in binding order.
/// Some binding names the account `t`.
pub open spec fn has_account(vars: Seq<(String, InjectVarConfig)>, t: Seq<char>) -> bool {
    exists|j: int| 0 <= j < vars.len() && (#[trigger] vars[j]).1.account_id@ == t
}

/// The distinct account ids the bindings name, in order of first
/// appearance.
fn collect_accounts(vars: &Vec<(String, InjectVarConfig)>) -> (r: Vec<String>)
    ensures
        forall|a1: int, a2: int| 0 <= a1 < a2 < r@.len() ==> r@[a1]@ != r@[a2]@,
        forall|a: int| 0 <= a < r@.len() ==> has_account(vars@, (#[trigger] r@[a])@),
        forall|j: int|
            0 <= j < vars@.len() ==> crate::text::has_text(
                r@,
                (#[trigger] vars@[j]).1.account_id@,
            ),
{
    let mut accounts: Vec<String> = Vec::new();
    let mut i: usize = 0;
    while i < vars.len()
        invariant
            i <= vars@.len(),
            forall|a1: int, a2: int|
                0 <= a1 < a2 < accounts@.len() ==> accounts@[a1]@ != accounts@[a2]@,
            forall|a: int|
                0 <= a < accounts@.len() ==> has_account(vars@, (#[trigger] accounts@[a])@),
            forall|j: int|
                0 <= j < i ==> crate::text::has_text(
                    accounts@,
                    (#[trigger] vars@[j]).1.account_id@,
                ),
        decreases vars@.len() - i,
    {
        let account = &vars[i].1.account_id;
        let mut seen = false;
        let mut a: usize = 0;
        while a < accounts.len() && !seen
            invariant
                a <= accounts@.len(),
                seen ==> crate::text::has_text(accounts@, account@),
                !seen ==> forall|a2: int| 0 <= a2 < a ==> accounts@[a2]@ != account@,
            decreases accounts@.len() - a,
        {
            if accounts[a] == *account {
                seen = true;
            }
            a = a + 1;
        }
        let ghost acc_pre = accounts@;
        if !seen {
            accounts.push(account.clone());
            proof {
                assert((accounts@[acc_pre.len() as int])@ == vars@[i as int].1.account_id@);
                assert(forall|a2: int|
                    0 <= a2 < acc_pre.len() ==> accounts@[a2] == acc_pre[a2]);
            }
        }
        proof {
            assert forall|j: int| 0 <= j < i + 1 implies crate::text::has_text(
                accounts@,
                (#[trigger] vars@[j]).1.account_id@,
            ) by {
                if j == i {
                    if seen {
                        let a2 = choose|a2: int|
                            0 <= a2 < acc_pre.len() && (#[trigger] acc_pre[a2])@ == account@;
                        assert((accounts@[a2])@ == vars@[i as int].1.account_id@);
                    } else {
                        assert((accounts@[acc_pre.len() as int])@
                            == vars@[i as int].1.account_id@);
                    }
                } else {
                    let a2 = choose|a2: int|
                        0 <= a2 < acc_pre.len() && (#[trigger] acc_pre[a2])@
                            == vars@[j].1.account_id@;
                    assert((accounts@[a2])@ == vars@[j].1.account_id@);
                }
            }
        }
        i = i + 1;
    }
    accounts
}

/// Groups the bindings by their account id. Each account appears once,
/// in ascending id order, carrying all of its `(name, reference)` pairs
/// in binding order.
#[verifier::rlimit(60)]
pub fn group_vars_by_account(vars: &Vec<(String, InjectVarConfig)>) -> (r: Vec<
    (String, Vec<(String, String)>),
>)
    ensures
        forall|k1: int, k2: int|
            0 <= k1 < k2 < r@.len() ==> crate::text::lex_lt(r@[k1].0@, r@[k2].0@),
        forall|k: int| 0 <= k < r@.len() ==> (#[trigger] r@[k]).1@ == account_group(vars@, r@[k].0@),
        forall|j: int| 0 <= j < vars@.len() ==> has_key(r@, (#[trigger] vars@[j]).1.account_id@),
        forall|k: int| 0 <= k < r@.len() ==> has_account(vars@, (#[trigger] r@[k]).0@),
{
    let accounts = collect_accounts(vars);
    let sorted = crate::text::sort_distinct_names(&accounts);
    let mut r: Vec<(String, Vec<(String, String)>)> = Vec::new();
    let mut k: usize = 0;
    while k < sorted.len()
        invariant
            k <= sorted@.len(),
            r@.len() == k,
            sorted@.len() == accounts@.len(),
            forall|a: int|
                0 <= a < accounts@.len() ==> has_account(vars@, (#[trigger] accounts@[a])@),
            forall|j: int|
                0 <= j < vars@.len() ==> crate::text::has_text(
                    accounts@,
                    (#[trigger] vars@[j]).1.account_id@,
                ),
            forall|k2: int| 0 <= k2 < sorted@.len() ==> accounts@.contains(#[trigger] sorted@[k2]),
            forall|a: int|
                0 <= a < accounts@.len() ==> sorted@.contains(#[trigger] accounts@[a]),
            forall|k1: int, k2: int|
                0 <= k1 < k2 < sorted@.len() ==> crate::text::lex_lt(sorted@[k1]@, sorted@[k2]@),
            forall|k2: int| 0 <= k2 < k ==> (#[trigger] r@[k2]).0 == sorted@[k2],
            forall|k2: int|
                0 <= k2 < k ==> (#[trigger] r@[k2]).1@ == account_group(vars@, r@[k2].0@),
        decreases sorted@.len() - k,
    {
        let group = collect_group(vars, &sorted[k]);
        r.push((sorted[k].clone(), group));
        k = k + 1;
    }
    proof {
        assert forall|j: int| 0 <= j < vars@.len() implies has_key(
            r@,
            (#[trigger] vars@[j]).1.account_id@,
        ) by {
            let a = choose|a: int|
                0 <= a < accounts@.len() && (#[trigger] accounts@[a])@
                    == vars@[j].1.account_id@;
            let k2 = choose|k2: int| 0 <= k2 < sorted@.len() && sorted@[k2] == accounts@[a];
            assert(r@[k2].0@ == vars@[j].1.account_id@);
        }
        assert forall|k2: int| 0 <= k2 < r@.len() implies has_account(
            vars@,
            (#[trigger] r@[k2]).0@,
        ) by {
            let a = choose|a: int| 0 <= a < accounts@.len() && accounts@[a] == sorted@[k2];
            assert(r@[k2].0@ == accounts@[a]@);
        }
    }
    r
}

/// One shell-export line per binding: `export NAME='REFERENCE'`.
pub open spec fn env_input_chars(group: Seq<(String, String)>) -> Seq<char>
    decreases group.len(),
{
    if group.len() == 0 {
        Seq::empty()
    } else {
        "export "@ + group[0].0@ + "='"@ + group[0].1@ + "'\n"@ + env_input_chars(
            group.drop_first(),
        )
    }
}

/// One plain line per binding: `NAME: REFERENCE`.
pub open spec fn inject_input_chars(group: Seq<(String, String)>) -> Seq<char>
    decreases group.len(),
{
    if group.len() == 0 {
        Seq::empty()
    } else {
        group[0].0@ + ": "@ + group[0].1@ + "\n"@ + inject_input_chars(group.drop_first())
    }
}

fn build_env_input_from(group: &Vec<(String, String)>, from: usize) -> (r: String)
    requires
        from <= group@.len(),
    ensures
        r@ == env_input_chars(group@.skip(from as int)),
    decreases group@.len() - from,
{
    let ghost tail = group@.skip(from as int);
    if from == group.len() {
        String::new()
    } else {
        proof {
            assert(tail[0] == group@[from as int]);
            assert(tail.drop_first() =~= group@.skip(from + 1));
        }
        let mut r = "export ".to_owned();
        r.append(group[from].0.as_str());
        r.append("='");
        r.append(group[from].1.as_str());
        r.append("'\n");
        let rest = build_env_input_from(group, from + 1);
        r.append(rest.as_str());
        proof {
            assert(r@ =~= env_input_chars(tail));
        }
        r
    }
}

/// The batch input for the shell-export path, one `export` line per
/// binding of the account.
pub fn build_env_input(group: &Vec<(String, String)>) -> (r: String)
    ensures
        r@ == env_input_chars(group@),
{
    let r = build_env_input_from(group, 0);
    proof {
        assert(group@.skip(0) =~= group@);
    }
    r
}

fn build_inject_input_from(group: &Vec<(String, String)>, from: usize) -> (r: String)
    requires
        from <= group@.len(),
    ensures
        r@ == inject_input_chars(group@.skip(from as int)),
    decreases group@.len() - from,
{
    let ghost tail = group@.skip(from as int);
    if from == group.len() {
        String::new()
    } else {
        proof {
            assert(tail[0] == group@[from as int]);
            assert(tail.drop_first() =~= group@.skip(from + 1));
        }
        let mut r = group[from].0.clone();
        r.append(": ");
        r.append(group[from].1.as_str());
        r.append("\n");
        let rest = build_inject_input_from(group, from + 1);
        r.append(rest.as_str());
        proof {
            assert(r@ =~= inject_input_chars(tail));
        }
        r
    }
}

/// The batch input for the template path, one `NAME: REFERENCE` line
/// per binding of the account.
pub fn build_inject_input(group: &Vec<(String, String)>) -> (r: String)
    ensures
        r@ == inject_input_chars(group@),
{
    let r = build_inject_input_from(group, 0);
    proof {
        assert(group@.skip(0) =~= group@);
    }
    r
}

/// The position of the first `": "` separator in a line, or its length
/// when the line holds none.
pub open spec fn sep_pos(line: Seq<u8>) -> int
    decreases line.len(),
{
    if line.len() < 2 {
        line.len() as int
    } else if line[0] == (':' as u8) && line[1] == (' ' as u8) {
        0
    } else {
        1 + sep_pos(line.drop_first())
    }
}

proof fn lemma_sep_pos(line: Seq<u8>)
    ensures
        0 <= sep_pos(line) <= line.len(),
        forall|j: int|
            0 <= j < sep_pos(line) && j + 1 < line.len() ==> !(#[trigger] line[j] == (':' as u8)
                && line[j + 1] == (' ' as u8)),
        sep_pos(line) + 2 <= line.len() ==> line[sep_pos(line)] == (':' as u8) && line[sep_pos(
            line,
        ) + 1] == (' ' as u8),
    decreases line.len(),
{
    if line.len() >= 2 && !(line[0] == (':' as u8) && line[1] == (' ' as u8)) {
        lemma_sep_pos(line.drop_first());
        assert(forall|j: int|
            1 <= j < sep_pos(line) ==> line[j] == line.drop_first()[j - 1]);
        assert(forall|j: int|
            1 <= j + 1 < line.len() ==> line[j + 1] == line.drop_first()[j]);
    }
}

proof fn lemma_sep_pos_at(line: Seq<u8>, i: int)
    requires
        0 <= i,
        i + 2 <= line.len(),
        line[i] == (':' as u8),
        line[i + 1] == (' ' as u8),
        forall|j: int|
            0 <= j < i ==> !(#[trigger] line[j] == (':' as u8) && line[j + 1] == (' ' as u8)),
    ensures
        sep_pos(line) == i,
    decreases line.len(),
{
    if !(line[0] == (':' as u8) && line[1] == (' ' as u8)) {
        let t = line.drop_first();
        assert(forall|j: int| 0 <= j < t.len() ==> t[j] == line[j + 1]);
        lemma_sep_pos_at(t, i - 1);
    }
}

proof fn lemma_sep_pos_none(line: Seq<u8>)
    requires
        forall|j: int|
            0 <= j && j + 2 <= line.len() ==> !(#[trigger] line[j] == (':' as u8) && line[j + 1]
                == (' ' as u8)),
    ensures
        sep_pos(line) + 2 > line.len(),
    decreases line.len(),
{
    if line.len() >= 2 {
        let t = line.drop_first();
        assert(forall|j: int| 0 <= j < t.len() ==> t[j] == line[j + 1]);
        lemma_sep_pos_none(t);
    }
}

/// What one resolved line yields: the name and the value around the
/// first `": "` separator, or nothing for a line without one.
pub open spec fn parsed_line(line: Seq<u8>) -> Option<(Seq<u8>, Seq<u8>)> {
    if sep_pos(line) + 2 <= line.len() {
        Some((line.subrange(0, sep_pos(line)), line.subrange(sep_pos(line) + 2, line.len() as int)))
    } else {
        None
    }
}

/// The `(name, value)` pairs of a list of resolved lines, in order.
pub open spec fn parsed_pairs(lines: Seq<Seq<u8>>) -> Seq<(Seq<u8>, Seq<u8>)>
    decreases lines.len(),
{
    if lines.len() == 0 {
        Seq::empty()
    } else {
        let rest = parsed_pairs(lines.drop_first());
        match parsed_line(lines[0]) {
            Some(p) => seq![p] + rest,
            None => rest,
        }
    }
}

/// What parsing the resolved output yields: the pairs of its lines.
pub open spec fn resolved_pairs(out: Seq<u8>) -> Seq<(Seq<u8>, Seq<u8>)> {
    parsed_pairs(split_lines(out))
}

/// Splits one line at its first `": "`, if it has one.
fn parse_line_bytes(line: &Vec<u8>) -> (r: Option<(Vec<u8>, Vec<u8>)>)
    ensures
        match r {
            Some(p) => parsed_line(line@) is Some && p.0@ == parsed_line(line@).unwrap().0 && p.1@
                == parsed_line(line@).unwrap().1,
            None => parsed_line(line@) is None,
        },
{
    let n = line.len();
    let mut i: usize = 0;
    while n >= 2 && i <= n - 2
        invariant
            i <= n,
            n == line@.len(),
            forall|j: int|
                0 <= j < i ==> !(#[trigger] line@[j] == (':' as u8) && line@[j + 1] == (' ' as u8)),
        ensures
            i <= n,
            n == line@.len(),
            forall|j: int|
                0 <= j < i ==> !(#[trigger] line@[j] == (':' as u8) && line@[j + 1] == (' ' as u8)),
            i + 2 <= n ==> line@[i as int] == (':' as u8) && line@[i + 1] == (' ' as u8),
        decreases n - i,
    {
        if line[i] == (':' as u8) && line[i + 1] == (' ' as u8) {
            break ;
        }
        i = i + 1;
    }
    if n >= 2 && i <= n - 2 {
        proof {
            lemma_sep_pos_at(line@, i as int);
        }
        let name = crate::template::subrange_vec(line, 0, i);
        let value = crate::template::subrange_vec(line, i + 2, n);
        Some((name, value))
    } else {
        proof {
            assert forall|j: int|
                0 <= j && j + 2 <= line@.len() implies !(#[trigger] line@[j] == (':' as u8)
                && line@[j + 1] == (' ' as u8)) by {
                assert(j < i);
            }
            lemma_sep_pos_none(line@);
        }
        None
    }
}

/// Parses the resolved output of one inject call into its
/// `(name, value)` pairs, line by line.
pub fn parse_resolved_lines(out: &Vec<u8>) -> (r: Vec<(Vec<u8>, Vec<u8>)>)
    ensures
        r@.len() == resolved_pairs(out@).len(),
        forall|k: int|
            0 <= k < r@.len() ==> (#[trigger] r@[k]).0@ == resolved_pairs(out@)[k].0 && r@[k].1@
                == resolved_pairs(out@)[k].1,
{
    let mut lines = crate::template::split_into_lines(out);
    let ghost all_lines = lines.deep_view();
    let mut r: Vec<(Vec<u8>, Vec<u8>)> = Vec::new();
    let n = lines.len();
    proof {
        assert(all_lines.len() == n as int);
        assert(lines.deep_view() =~= all_lines.skip(0));
    }
    loop
        invariant
            all_lines.len() <= usize::MAX,
            lines.deep_view().len() <= all_lines.len(),
            lines.deep_view() == all_lines.skip(all_lines.len() - lines.deep_view().len()),
            parsed_pairs(all_lines).len() == r@.len() + parsed_pairs(lines.deep_view()).len(),
            forall|k: int|
                0 <= k < r@.len() ==> (#[trigger] r@[k]).0@ == parsed_pairs(all_lines)[k].0
                    && r@[k].1@ == parsed_pairs(all_lines)[k].1,
            parsed_pairs(all_lines).skip(r@.len() as int) == parsed_pairs(lines.deep_view()),
        ensures
            parsed_pairs(all_lines).len() == r@.len(),
            forall|k: int|
                0 <= k < r@.len() ==> (#[trigger] r@[k]).0@ == parsed_pairs(all_lines)[k].0
                    && r@[k].1@ == parsed_pairs(all_lines)[k].1,
        decreases lines.deep_view().len(),
    {
        if lines.len() == 0 {
            break ;
        }
        let ghost before = lines.deep_view();
        let ghost done = r@.len() as int;
        let line = lines.remove(0);
        proof {
            assert(lines.deep_view() =~= before.drop_first());
            assert(line.deep_view() =~= line@);
            assert(line@ == before[0]);
        }
        let parsed = parse_line_bytes(&line);
        match parsed {
            Some(p) => {
                r.push(p);
                proof {
                    assert(parsed_pairs(before) == seq![parsed_line(before[0]).unwrap()]
                        + parsed_pairs(before.drop_first()));
                    assert(parsed_pairs(before)[0] == parsed_line(before[0]).unwrap());
                    assert(parsed_pairs(before).drop_first() =~= parsed_pairs(
                        before.drop_first(),
                    ));
                    assert(parsed_pairs(all_lines).skip(done) == parsed_pairs(before));
                    assert(parsed_pairs(all_lines).skip(done)[0] == parsed_pairs(all_lines)[
                        done]);
                    assert(parsed_pairs(all_lines)[done] == parsed_line(before[0]).unwrap());
                    assert(parsed_pairs(all_lines).skip(done).drop_first() =~= parsed_pairs(
                        all_lines,
                    ).skip(done + 1));
                }
            },
            None => {
                proof {
                    assert(parsed_pairs(before) == parsed_pairs(before.drop_first()));
                }
            },
        }
    }
    r
}

/// No two table entries share a name.
pub open spec fn unique_names(t: Seq<(Vec<u8>, Vec<u8>)>) -> bool {
    forall|i: int, j: int| 0 <= i < j < t.len() ==> t[i].0@ != t[j].0@
}

/// Where one entry lands when merged into a table: replacing the entry
/// with the same name in place, or appended at the end.
pub open spec fn merge_one(
    table: Seq<(Vec<u8>, Vec<u8>)>,
    entry: (Vec<u8>, Vec<u8>),
) -> Seq<(Vec<u8>, Vec<u8>)> {
    if exists|i: int| 0 <= i < table.len() && table[i].0@ == entry.0@ {
        table.update(
            choose|i: int| 0 <= i < table.len() && table[i].0@ == entry.0@,
            entry,
        )
    } else {
        table.push(entry)
    }
}

/// A whole table merged entry by entry; a later entry with the same
/// name wins.
pub open spec fn merged(
    table: Seq<(Vec<u8>, Vec<u8>)>,
    new: Seq<(Vec<u8>, Vec<u8>)>,
) -> Seq<(Vec<u8>, Vec<u8>)>
    decreases new.len(),
{
    if new.len() == 0 {
        table
    } else {
        merged(merge_one(table, new[0]), new.drop_first())
    }
}

/// Merges one account's resolved pairs into the combined table; a name
/// already present takes the new value in place.
pub fn merge_resolved(table: &mut Vec<(Vec<u8>, Vec<u8>)>, new: Vec<(Vec<u8>, Vec<u8>)>)
    requires
        unique_names(old(table)@),
    ensures
        unique_names(final (table)@),
        final (table)@ == merged(old(table)@, new@),
{
    let mut rest = new;
    let ghost all_new = rest@;
    let n = rest.len();
    proof {
        assert(all_new.len() == n as int);
        assert(rest@ =~= all_new.skip(0));
    }
    loop
        invariant
            all_new.len() <= usize::MAX,
            rest@.len() <= all_new.len(),
            rest@ == all_new.skip(all_new.len() - rest@.len()),
            unique_names(table@),
            merged(old(table)@, all_new) == merged(table@, rest@),
        ensures
            unique_names(table@),
            table@ == merged(old(table)@, all_new),
        decreases rest@.len(),
    {
        if rest.len() == 0 {
            break ;
        }
        let ghost before = rest@;
        let entry = rest.remove(0);
        proof {
            assert(rest@ =~= before.drop_first());
            assert(entry == before[0]);
            assert(merged(table@, before) == merged(merge_one(table@, entry), rest@));
        }
        let ghost table_pre = table@;
        let mut i: usize = 0;
        while i < table.len()
            invariant
                i <= table@.len(),
                table@ == table_pre,
                unique_names(table@),
                forall|j: int| 0 <= j < i ==> table@[j].0@ != entry.0@,
            ensures
                i <= table@.len(),
                table@ == table_pre,
                unique_names(table@),
                forall|j: int| 0 <= j < i ==> table@[j].0@ != entry.0@,
                i < table@.len() ==> table@[i as int].0@ == entry.0@,
            decreases table@.len() - i,
        {
            if table[i].0 == entry.0 {
                break ;
            }
            i = i + 1;
        }
        if i < table.len() {
            proof {
                let w = choose|w: int| 0 <= w < table@.len() && table@[w].0@ == entry.0@;
                assert(merge_one(table@, entry) == table@.update(w, entry));
                assert(w == i as int);
            }
            table.remove(i);
            table.insert(i, entry);
            proof {
                assert(table@ =~= table_pre.update(i as int, entry));
                assert forall|a: int, b: int| 0 <= a < b < table@.len() implies table@[a].0@
                    != table@[b].0@ by {
                    assert(table@[a].0@ == if a == i as int {
                        entry.0@
                    } else {
                        table_pre[a].0@
                    });
                }
            }
        } else {
            proof {
                assert(!(exists|w: int|
                    0 <= w < table@.len() && table@[w].0@ == entry.0@));
            }
            table.push(entry);
        }
    }
}

} // verus!
