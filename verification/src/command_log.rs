//! A bounded, append-only record of secret-source invocations and their
//! outcomes, consumed read-only by the terminal renderer.
use vstd::prelude::*;

use crate::text::{dec_chars, decimal_string};

verus! {

/// The log keeps at most this many entries; older ones are dropped.
pub const MAX_LOG_ENTRIES: usize = 50;

/// How one recorded invocation ended.
#[derive(Debug)]
pub enum CommandStatus {
    Success { item_count: Option<usize> },
    Failed { stderr: String },
}

/// One recorded invocation: the command text and how it ended.
#[derive(Debug)]
pub struct CommandLogEntry {
    pub command: String,
    pub status: CommandStatus,
}

/// The bounded log itself.
#[derive(Debug)]
pub struct CommandLog {
    pub entries: Vec<CommandLogEntry>,
}

/// The index of the first newline in `s`, or `s.len()` if there is none.
pub open spec fn nl_index(s: Seq<char>) -> int
    decreases s.len(),
{
    if s.len() == 0 {
        0
    } else if s[0] == '\n' {
        0
    } else {
        1 + nl_index(s.drop_first())
    }
}

pub proof fn lemma_nl_index(s: Seq<char>)
    ensures
        0 <= nl_index(s) <= s.len(),
        forall|j: int| 0 <= j < nl_index(s) ==> s[j] != '\n',
        nl_index(s) < s.len() ==> s[nl_index(s)] == '\n',
    decreases s.len(),
{
    if s.len() == 0 {
    } else if s[0] == '\n' {
    } else {
        lemma_nl_index(s.drop_first());
        assert(forall|j: int| 1 <= j < nl_index(s) ==> s[j] == s.drop_first()[j - 1]);
    }
}

/// The first line of `s`, as `str::lines` reads it: everything before the
/// first newline, with a carriage return before that newline dropped.
pub open spec fn first_line_chars(s: Seq<char>) -> Seq<char> {
    let i = nl_index(s);
    let p = s.subrange(0, i);
    if i < s.len() && p.len() > 0 && p[p.len() - 1] == '\r' {
        p.drop_last()
    } else {
        p
    }
}

/// The first line of `s`.
pub fn first_line(s: &String) -> (r: String)
    ensures
        r@ == first_line_chars(s@),
{
    let st = s.as_str();
    let n = st.unicode_len();
    let mut i: usize = 0;
    proof {
        lemma_nl_index(s@);
    }
    while i < n
        invariant
            i <= n,
            n == s@.len(),
            st@ == s@,
            forall|j: int| 0 <= j < i ==> s@[j] != '\n',
        ensures
            i <= n,
            forall|j: int| 0 <= j < i ==> s@[j] != '\n',
            i < n ==> s@[i as int] == '\n',
        decreases n - i,
    {
        if st.get_char(i) == '\n' {
            break ;
        }
        i = i + 1;
    }
    proof {
        lemma_nl_index(s@);
        assert(nl_index(s@) == i);
    }
    let mut end: usize = i;
    if i < n && end > 0 && st.get_char(end - 1) == '\r' {
        end = end - 1;
    }
    let r = st.substring_char(0, end);
    proof {
        let p = s@.subrange(0, i as int);
        if i < n && p.len() > 0 && p[p.len() - 1] == '\r' {
            assert(r@ =~= p.drop_last());
        } else {
            assert(r@ =~= p);
        }
    }
    r.to_owned()
}

impl CommandLogEntry {
    /// What `display` returns for this entry.
    pub open spec fn display_chars(&self) -> Seq<char> {
        match self.status {
            CommandStatus::Success { item_count } => match item_count {
                Some(n) => "\u{2713} "@ + self.command@ + " ("@ + dec_chars(n as nat)
                    + " items)"@,
                None => "\u{2713} "@ + self.command@,
            },
            CommandStatus::Failed { ref stderr } => "\u{2717} "@ + self.command@ + ": "@
                + first_line_chars(stderr@),
        }
    }

    /// The one-line rendering of this entry: a check or cross mark, the
    /// command, and the item count or the first line of the diagnostic.
    pub fn display(&self) -> (r: String)
        ensures
            r@ == self.display_chars(),
    {
        match &self.status {
            CommandStatus::Success { item_count } => {
                let mut r = String::from_str("\u{2713} ");
                r.append(self.command.as_str());
                match item_count {
                    Some(n) => {
                        r.append(" (");
                        let count = decimal_string(*n);
                        r.append(count.as_str());
                        r.append(" items)");
                    },
                    None => {},
                }
                r
            },
            CommandStatus::Failed { stderr } => {
                let mut r = String::from_str("\u{2717} ");
                r.append(self.command.as_str());
                r.append(": ");
                let fl = first_line(stderr);
                r.append(fl.as_str());
                r
            },
        }
    }
}

/// Appending one entry and trimming keeps that entry as the last one.
pub proof fn lemma_log_keeps_last(
    pre: Seq<CommandLogEntry>,
    e: CommandLogEntry,
    post: Seq<CommandLogEntry>,
)
    requires
        post == (pre + seq![e]).skip(
            if pre.len() + 1 > MAX_LOG_ENTRIES {
                pre.len() + 1 - MAX_LOG_ENTRIES
            } else {
                0
            },
        ),
    ensures
        post.len() > 0,
        post.last() == e,
{
}

impl CommandLog {
    pub fn new() -> (r: CommandLog)
        ensures
            r.entries@.len() == 0,
    {
        CommandLog { entries: Vec::new() }
    }

    /// Drops the oldest entries until at most `MAX_LOG_ENTRIES` remain.
    fn trim(&mut self)
        ensures
            final (self).entries@ == old(self).entries@.skip(
                if old(self).entries@.len() > MAX_LOG_ENTRIES {
                    old(self).entries@.len() - MAX_LOG_ENTRIES
                } else {
                    0
                },
            ),
    {
        let ghost orig = self.entries@;
        proof {
            assert(self.entries@ =~= orig.skip(0));
        }
        while self.entries.len() > MAX_LOG_ENTRIES
            invariant
                self.entries@.len() <= orig.len(),
                orig.len() > MAX_LOG_ENTRIES ==> self.entries@.len() >= MAX_LOG_ENTRIES,
                orig.len() <= MAX_LOG_ENTRIES ==> self.entries@.len() == orig.len(),
                self.entries@ == orig.skip(orig.len() - self.entries@.len()),
            decreases self.entries@.len(),
        {
            self.entries.remove(0);
            proof {
                assert(self.entries@ =~= orig.skip(orig.len() - self.entries@.len()));
            }
        }
        proof {
            assert(self.entries@ =~= orig.skip(
                if orig.len() > MAX_LOG_ENTRIES {
                    orig.len() - MAX_LOG_ENTRIES as int
                } else {
                    0
                },
            ));
        }
    }

    /// Appends a success entry (optionally with an item count), then trims.
    pub fn log_success(&mut self, command: String, item_count: Option<usize>)
        ensures
            final (self).entries@ == (old(self).entries@ + seq![
                CommandLogEntry {
                    command,
                    status: CommandStatus::Success { item_count },
                },
            ]).skip(
                if old(self).entries@.len() + 1 > MAX_LOG_ENTRIES {
                    old(self).entries@.len() + 1 - MAX_LOG_ENTRIES
                } else {
                    0
                },
            ),
    {
        self.entries.push(
            CommandLogEntry { command, status: CommandStatus::Success { item_count } },
        );
        self.trim();
    }

    /// Appends a failure entry carrying the diagnostic text, then trims.
    pub fn log_failure(&mut self, command: String, stderr: String)
        ensures
            final (self).entries@ == (old(self).entries@ + seq![
                CommandLogEntry { command, status: CommandStatus::Failed { stderr } },
            ]).skip(
                if old(self).entries@.len() + 1 > MAX_LOG_ENTRIES {
                    old(self).entries@.len() + 1 - MAX_LOG_ENTRIES
                } else {
                    0
                },
            ),
    {
        self.entries.push(CommandLogEntry { command, status: CommandStatus::Failed { stderr } });
        self.trim();
    }

    /// The most recent `n` entries, oldest first.
    pub fn recent(&self, n: usize) -> (r: Vec<&CommandLogEntry>)
        ensures
            r@.len() == if n < self.entries@.len() {
                n as int
            } else {
                self.entries@.len() as int
            },
            forall|i: int|
                0 <= i < r@.len() ==> r@[i] == &self.entries@[self.entries@.len() - r@.len() + i],
    {
        let len = self.entries.len();
        let start = if n < len {
            len - n
        } else {
            0
        };
        let mut r: Vec<&CommandLogEntry> = Vec::new();
        let mut i: usize = start;
        while i < len
            invariant
                start <= i <= len,
                len == self.entries@.len(),
                r@.len() == i - start,
                forall|j: int| 0 <= j < r@.len() ==> r@[j] == &self.entries@[start + j],
            decreases len - i,
        {
            r.push(&self.entries[i]);
            i = i + 1;
        }
        r
    }
}

} // verus!
