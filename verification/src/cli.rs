//! The command surface the host hands to the core: the subcommand
//! shapes, cache time-to-live parsing, and the pure part of the config
//! subcommand.
use vstd::prelude::*;

use crate::entities::OpLoadConfig;

verus! {

/// The subcommands the host dispatches.
#[derive(Debug)]
pub enum Command {
    Config { action: ConfigAction },
    Env { cache_ttl: Option<String> },
    Cache { action: CacheAction },
    Template { action: TemplateAction },
}

/// Reading the configuration: one key, or the document's path.
#[derive(Debug)]
pub enum ConfigAction {
    Get { key: String },
    Path,
}

/// Managing templated files.
#[derive(Debug)]
pub enum TemplateAction {
    Add { path: String },
    List,
    Remove { path: String },
    Render,
}

/// Clearing cached inject output, for one account or all.
#[derive(Debug)]
pub enum CacheAction {
    Clear { account: Option<String> },
}

/// Why a duration string was rejected.
#[derive(Debug, Clone, Copy, PartialEq, Eq, Structural)]
pub enum DurationError {
    /// Shorter than a digit plus a unit.
    TooShort,
    /// The magnitude is not a number that fits.
    InvalidValue,
    /// The trailing unit is none of `s`, `m`, `h`, `d`.
    InvalidUnit,
}

/// A configuration read that failed.
#[derive(Debug)]
pub enum ConfigError {
    UnknownKey(String),
}

/// The characters trimmed off a duration argument: the whitespace set
/// `str::trim` uses.
pub open spec fn is_space_char(c: char) -> bool {
    ||| c == '\t'
    ||| c == '\n'
    ||| c == '\u{b}'
    ||| c == '\u{c}'
    ||| c == '\r'
    ||| c == ' '
    ||| c == '\u{85}'
    ||| c == '\u{a0}'
    ||| c == '\u{1680}'
    ||| ('\u{2000}' <= c && c <= '\u{200a}')
    ||| c == '\u{2028}'
    ||| c == '\u{2029}'
    ||| c == '\u{202f}'
    ||| c == '\u{205f}'
    ||| c == '\u{3000}'
}

/// The first index holding something other than whitespace.
pub open spec fn trim_start_idx(s: Seq<char>) -> int
    decreases s.len(),
{
    if s.len() == 0 {
        0
    } else if is_space_char(s[0]) {
        1 + trim_start_idx(s.drop_first())
    } else {
        0
    }
}

/// One past the last index holding something other than whitespace.
pub open spec fn trim_end_idx(s: Seq<char>) -> int
    decreases s.len(),
{
    if s.len() == 0 {
        0
    } else if is_space_char(s[s.len() - 1]) {
        trim_end_idx(s.drop_last())
    } else {
        s.len() as int
    }
}

/// `s` with leading and trailing whitespace removed.
pub open spec fn trimmed(s: Seq<char>) -> Seq<char> {
    if trim_start_idx(s) >= trim_end_idx(s) {
        Seq::empty()
    } else {
        s.subrange(trim_start_idx(s), trim_end_idx(s))
    }
}

pub open spec fn is_digit_char(c: char) -> bool {
    48 <= (c as u32) && (c as u32) <= 57
}

/// The number the digit characters spell, most significant first.
pub open spec fn digits_val(v: Seq<char>) -> nat
    decreases v.len(),
{
    if v.len() == 0 {
        0
    } else {
        digits_val(v.drop_last()) * 10 + (((v[v.len() - 1] as u32) - 48) as nat)
    }
}

/// The magnitude part without an optional leading plus sign.
pub open spec fn unsigned_part(v: Seq<char>) -> Seq<char> {
    if v.len() > 0 && v[0] == '+' {
        v.drop_first()
    } else {
        v
    }
}

/// Whether the magnitude part spells a number that fits in a `u64`.
pub open spec fn valid_magnitude(v: Seq<char>) -> bool {
    let w = unsigned_part(v);
    w.len() > 0 && (forall|i: int| 0 <= i < w.len() ==> is_digit_char(w[i])) && digits_val(w)
        <= u64::MAX
}

/// The seconds one unit letter stands for, or zero for an unknown one.
pub open spec fn unit_seconds(u: char) -> u64 {
    if u == 's' {
        1
    } else if u == 'm' {
        60
    } else if u == 'h' {
        3600
    } else if u == 'd' {
        86400
    } else {
        0
    }
}

/// Multiplication capped at the largest `u64`.
pub open spec fn sat_mul_u64(a: nat, b: nat) -> u64 {
    if a * b > u64::MAX {
        u64::MAX
    } else {
        (a * b) as u64
    }
}

/// What parsing a duration argument yields: nothing for a blank
/// argument, else seconds from `<magnitude><unit>`, the multiplication
/// saturating; rejected when too short, non-numeric, or the unit is
/// unknown.
pub open spec fn parse_duration_spec(s: Seq<char>) -> Result<Option<u64>, DurationError> {
    let t = trimmed(s);
    if t.len() == 0 {
        Ok(None)
    } else if t.len() < 2 {
        Err(DurationError::TooShort)
    } else {
        let v = t.subrange(0, t.len() - 1);
        let u = t[t.len() - 1];
        if !valid_magnitude(v) {
            Err(DurationError::InvalidValue)
        } else if unit_seconds(u) == 0 {
            Err(DurationError::InvalidUnit)
        } else {
            Ok(Some(sat_mul_u64(digits_val(unsigned_part(v)), unit_seconds(u) as nat)))
        }
    }
}

proof fn lemma_trim_bounds(s: Seq<char>)
    ensures
        0 <= trim_start_idx(s) <= s.len(),
        0 <= trim_end_idx(s) <= s.len(),
    decreases s.len(),
{
    if s.len() > 0 {
        lemma_trim_bounds(s.drop_first());
        lemma_trim_bounds(s.drop_last());
    }
}

proof fn lemma_trim_start_at(s: Seq<char>, i: int)
    requires
        0 <= i <= s.len(),
        forall|j: int| 0 <= j < i ==> is_space_char(s[j]),
        i < s.len() ==> !is_space_char(s[i]),
    ensures
        trim_start_idx(s) == i,
    decreases s.len(),
{
    if s.len() > 0 && is_space_char(s[0]) {
        let t = s.drop_first();
        assert(forall|j: int| 0 <= j < t.len() ==> t[j] == s[j + 1]);
        lemma_trim_start_at(t, i - 1);
    }
}

proof fn lemma_trim_end_at(s: Seq<char>, i: int)
    requires
        0 <= i <= s.len(),
        forall|j: int| i <= j < s.len() ==> is_space_char(s[j]),
        i > 0 ==> !is_space_char(s[i - 1]),
    ensures
        trim_end_idx(s) == i,
    decreases s.len(),
{
    if s.len() > 0 && is_space_char(s[s.len() - 1]) {
        let t = s.drop_last();
        assert(forall|j: int| 0 <= j < t.len() ==> t[j] == s[j]);
        lemma_trim_end_at(t, i);
    }
}

/// Any digit prefix spells at most what the whole magnitude spells.
proof fn lemma_digits_prefix(v: Seq<char>, i: int)
    requires
        0 <= i <= v.len(),
    ensures
        digits_val(v.subrange(0, i)) <= digits_val(v),
    decreases v.len() - i,
{
    if i == v.len() {
        assert(v.subrange(0, i) =~= v);
    } else {
        lemma_digits_prefix(v, i + 1);
        assert(v.subrange(0, i + 1).drop_last() =~= v.subrange(0, i));
        assert(digits_val(v.subrange(0, i + 1)) == digits_val(v.subrange(0, i)) * 10 + (((v[i]
            as u32) - 48) as nat));
    }
}

/// Parses a cache time-to-live argument: a magnitude followed by `s`,
/// `m`, `h` or `d`, blank meaning none.
pub fn parse_duration(input: &str) -> (r: Result<Option<u64>, DurationError>)
    ensures
        r == parse_duration_spec(input@),
{
    let n = input.unicode_len();
    let mut start: usize = 0;
    while start < n && is_space(input.get_char(start))
        invariant
            start <= n,
            n == input@.len(),
            forall|j: int| 0 <= j < start ==> is_space_char(input@[j]),
        ensures
            start <= n,
            forall|j: int| 0 <= j < start ==> is_space_char(input@[j]),
            start < n ==> !is_space_char(input@[start as int]),
        decreases n - start,
    {
        start = start + 1;
    }
    if start == n {
        proof {
            lemma_trim_start_at(input@, n as int);
            lemma_trim_bounds(input@);
            assert(trimmed(input@).len() == 0);
        }
        return Ok(None);
    }
    let mut end: usize = n;
    while end > start && is_space(input.get_char(end - 1))
        invariant
            start <= end <= n,
            n == input@.len(),
            start < n,
            !is_space_char(input@[start as int]),
            forall|j: int| end <= j < n ==> is_space_char(input@[j]),
        ensures
            start <= end <= n,
            forall|j: int| end <= j < n ==> is_space_char(input@[j]),
            end > start,
            !is_space_char(input@[end - 1]),
        decreases end,
    {
        end = end - 1;
    }
    proof {
        lemma_trim_start_at(input@, start as int);
        lemma_trim_end_at(input@, end as int);
        assert(trimmed(input@) =~= input@.subrange(start as int, end as int));
    }
    let ghost t = trimmed(input@);
    if end - start < 2 {
        return Err(DurationError::TooShort);
    }
    // the magnitude: an optional plus sign, then decimal digits
    let vstart = if input.get_char(start) == '+' {
        start + 1
    } else {
        start
    };
    let ghost v = t.subrange(0, t.len() - 1);
    let ghost w = unsigned_part(v);
    proof {
        assert(v =~= input@.subrange(start as int, end - 1));
        assert(w =~= input@.subrange(vstart as int, end - 1));
        assert(v == input@.subrange(start as int, end - 1));
        assert(w == input@.subrange(vstart as int, end - 1));
    }
    if vstart == end - 1 {
        proof {
            assert(w.len() == 0);
            assert(!valid_magnitude(v));
        }
        return Err(DurationError::InvalidValue);
    }
    let mut acc: u64 = 0;
    let mut i: usize = vstart;
    while i < end - 1
        invariant
            vstart <= i <= end - 1,
            start <= vstart,
            start < end <= n,
            end - start >= 2,
            n == input@.len(),
            t == trimmed(input@),
            t == input@.subrange(start as int, end as int),
            v == t.subrange(0, t.len() - 1),
            w == unsigned_part(v),
            w == input@.subrange(vstart as int, end - 1),
            forall|j: int| vstart <= j < i ==> is_digit_char(input@[j]),
            acc == digits_val(input@.subrange(vstart as int, i as int)),
        decreases end - 1 - i,
    {
        let c = input.get_char(i);
        let u = c as u32;
        if !(48 <= u && u <= 57) {
            proof {
                assert(w[i - vstart] == input@[i as int]);
                assert(!is_digit_char(w[i - vstart]));
                assert(!valid_magnitude(v));
            }
            return Err(DurationError::InvalidValue);
        }
        let d: u64 = (u - 48) as u64;
        if acc > (u64::MAX - d) / 10 {
            proof {
                let pre = input@.subrange(vstart as int, i as int);
                let cur = input@.subrange(vstart as int, i + 1 as int);
                assert(cur.drop_last() =~= pre);
                assert(digits_val(cur) == acc * 10 + d);
                assert(acc * 10 + d > u64::MAX) by (nonlinear_arith)
                    requires
                        acc > (u64::MAX - d) / 10,
                        d <= 9,
                ;
                lemma_digits_prefix(w, i + 1 - vstart);
                assert(w.subrange(0, i + 1 - vstart) =~= cur);
                assert(digits_val(w) > u64::MAX);
                assert(!valid_magnitude(v));
            }
            return Err(DurationError::InvalidValue);
        }
        proof {
            assert(acc * 10 + d <= u64::MAX) by (nonlinear_arith)
                requires
                    acc <= (u64::MAX - d) / 10,
                    d <= 9,
            ;
            let pre = input@.subrange(vstart as int, i as int);
            let cur = input@.subrange(vstart as int, i + 1 as int);
            assert(cur.drop_last() =~= pre);
        }
        acc = acc * 10 + d;
        i = i + 1;
    }
    proof {
        assert(input@.subrange(vstart as int, end - 1) =~= w);
        assert(acc == digits_val(w));
        assert(valid_magnitude(v));
    }
    let unit = input.get_char(end - 1);
    proof {
        assert(t[t.len() - 1] == input@[end - 1]);
    }
    let mult: u64 = if unit == 's' {
        1
    } else if unit == 'm' {
        60
    } else if unit == 'h' {
        3600
    } else if unit == 'd' {
        86400
    } else {
        return Err(DurationError::InvalidUnit);
    };
    let seconds = match acc.checked_mul(mult) {
        Some(p) => p,
        None => u64::MAX,
    };
    proof {
        assert(seconds == sat_mul_u64(acc as nat, mult as nat));
    }
    Ok(Some(seconds))
}

/// Whether a character is trimmed off a duration argument.
fn is_space(c: char) -> (r: bool)
    ensures
        r == is_space_char(c),
{
    c == '\t' || c == '\n' || c == '\u{b}' || c == '\u{c}' || c == '\r' || c == ' ' || c
        == '\u{85}' || c == '\u{a0}' || c == '\u{1680}' || ('\u{2000}' <= c && c
        <= '\u{200a}') || c == '\u{2028}' || c == '\u{2029}' || c == '\u{202f}' || c
        == '\u{205f}' || c == '\u{3000}'
}

/// Answers a configuration read without touching the outside world: the
/// text to print, or the key that is not known. The caller passes the
/// loaded document and the resolved path of its file.
pub fn handle_config_action(action: &ConfigAction, config: &OpLoadConfig, config_path: &String)
    -> (r: Result<String, ConfigError>)
    ensures
        match action {
            ConfigAction::Get { key } => {
                if key@ == "default_account_id"@ {
                    r matches Ok(out) && out@ == match config.default_account_id {
                        Some(ref v) => v@,
                        None => "(not set)"@,
                    }
                } else {
                    r matches Err(ConfigError::UnknownKey(k)) && k@ == key@
                }
            },
            ConfigAction::Path => r matches Ok(out) && out@ == config_path@,
        },
{
    match action {
        ConfigAction::Get { key } => {
            let known = "default_account_id".to_owned();
            if *key == known {
                match &config.default_account_id {
                    Some(v) => Ok(v.clone()),
                    None => Ok("(not set)".to_owned()),
                }
            } else {
                Err(ConfigError::UnknownKey(key.clone()))
            }
        },
        ConfigAction::Path => Ok(config_path.clone()),
    }
}

} // verus!
