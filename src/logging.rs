//! Log lines: `{unix seconds} {LEVEL} {message}`. The lines are kept until
//! the runtime appends them to the log file.
use vstd::prelude::*;

use crate::disk_cache::{decimal, push_decimal};
use crate::text::{chars_of, string_of};

verus! {

/// An open log: its file path, if logging is enabled, and the lines not yet
/// written.
pub struct Log {
    pub path: Option<String>,
    pub pending: Vec<String>,
}

pub open spec fn log_line_spec(ts: u64, level: Seq<char>, message: Seq<char>) -> Seq<char> {
    decimal(ts as nat) + seq![' '] + level + seq![' '] + message + seq!['\n']
}

/// One log line: timestamp, level and message separated by spaces, ending
/// with a newline.
pub fn format_log_line(ts: u64, level: &str, message: &str) -> (r: String)
    ensures
        r@ == log_line_spec(ts, level@, message@),
{
    let mut out: Vec<char> = Vec::new();
    push_decimal(ts as u128, &mut out);
    out.push(' ');
    let level_chars = chars_of(level);
    let mut i: usize = 0;
    while i < level_chars.len()
        invariant
            i <= level_chars@.len(),
            level_chars@ == level@,
            out@ == decimal(ts as nat) + seq![' '] + level@.subrange(0, i as int),
        decreases level_chars@.len() - i,
    {
        out.push(level_chars[i]);
        assert(decimal(ts as nat) + seq![' '] + level@.subrange(0, i as int) + seq![level@[i as int]]
            =~= decimal(ts as nat) + seq![' '] + level@.subrange(0, i + 1));
        i = i + 1;
    }
    assert(level@.subrange(0, level@.len() as int) =~= level@);
    out.push(' ');
    let message_chars = chars_of(message);
    let mut j: usize = 0;
    while j < message_chars.len()
        invariant
            j <= message_chars@.len(),
            message_chars@ == message@,
            out@ == decimal(ts as nat) + seq![' '] + level@ + seq![' '] + message@.subrange(0, j as int),
        decreases message_chars@.len() - j,
    {
        out.push(message_chars[j]);
        assert(decimal(ts as nat) + seq![' '] + level@ + seq![' '] + message@.subrange(0, j as int)
            + seq![message@[j as int]] =~= decimal(ts as nat) + seq![' '] + level@ + seq![' ']
            + message@.subrange(0, j + 1));
        j = j + 1;
    }
    assert(message@.subrange(0, message@.len() as int) =~= message@);
    out.push('\n');
    assert(out@ =~= log_line_spec(ts, level@, message@));
    string_of(&out)
}

impl Log {
    /// A log writing to `path`, or a disabled one.
    pub fn new(path: Option<String>) -> (r: Log)
        ensures
            r.path == path,
            r.pending@.len() == 0,
    {
        Log { path, pending: Vec::new() }
    }

    /// Removes and returns the lines not yet written.
    pub fn take_pending(&mut self) -> (r: Vec<String>)
        ensures
            r@ == old(self).pending@,
            final(self).pending@.len() == 0,
            final(self).path == old(self).path,
    {
        let mut out: Vec<String> = Vec::new();
        std::mem::swap(&mut self.pending, &mut out);
        out
    }
}

/// Path of the log file, when logging is enabled.
pub fn log_path(log: &Log) -> (r: Option<&String>)
    ensures
        r == (match &log.path {
            Some(p) => Some(p),
            None => None::<&String>,
        }),
{
    match &log.path {
        Some(p) => Some(p),
        None => None,
    }
}

fn log_line(log: &mut Log, ts: u64, level: &str, message: &str)
    ensures
        final(log).path == old(log).path,
        old(log).path is None ==> final(log).pending@ == old(log).pending@,
        old(log).path is Some ==> final(log).pending@.len() == old(log).pending@.len() + 1
            && final(log).pending@.subrange(0, old(log).pending@.len() as int) == old(log).pending@
            && final(log).pending@.last()@ == log_line_spec(ts, level@, message@),
{
    if log.path.is_none() {
        return;
    }
    let line = format_log_line(ts, level, message);
    log.pending.push(line);
    assert(log.pending@.subrange(0, old(log).pending@.len() as int) =~= old(log).pending@);
}

/// Records an error line at time `ts`; nothing when logging is disabled.
pub fn log_error(log: &mut Log, ts: u64, message: &str)
    ensures
        final(log).path == old(log).path,
        old(log).path is None ==> final(log).pending@ == old(log).pending@,
        old(log).path is Some ==> final(log).pending@.len() == old(log).pending@.len() + 1
            && final(log).pending@.subrange(0, old(log).pending@.len() as int) == old(log).pending@
            && final(log).pending@.last()@ == log_line_spec(ts, seq!['E', 'R', 'R', 'O', 'R'], message@),
{
    let level = String::from_str("ERROR");
    proof {
        reveal_strlit("ERROR");
    }
    log_line(log, ts, level.as_str(), message);
}

/// Records an informational line at time `ts`; nothing when logging is
/// disabled.
pub fn log_info(log: &mut Log, ts: u64, message: &str)
    ensures
        final(log).path == old(log).path,
        old(log).path is None ==> final(log).pending@ == old(log).pending@,
        old(log).path is Some ==> final(log).pending@.len() == old(log).pending@.len() + 1
            && final(log).pending@.subrange(0, old(log).pending@.len() as int) == old(log).pending@
            && final(log).pending@.last()@ == log_line_spec(ts, seq!['I', 'N', 'F', 'O'], message@),
{
    let level = String::from_str("INFO");
    proof {
        reveal_strlit("INFO");
    }
    log_line(log, ts, level.as_str(), message);
}

} // verus!
