//! The activity log shown in the window: the most recent lines, at most
//! `MAX_LOG_LINES` of them, and which log records reach it.

use vstd::prelude::*;
use std::collections::VecDeque;
use crate::text::{has_prefix, text_starts_with};

verus! {

/// How many lines the activity log keeps.
pub const MAX_LOG_LINES: usize = 800;

/// The severity of a log record, most severe first (as `log::Level`).
#[derive(Clone, Copy, Debug, PartialEq, Eq, Structural)]
pub enum LogLevel {
    Error,
    Warn,
    Info,
    Debug,
    Trace,
}

/// The position of a level in `log::Level`'s order, where `Error` is the
/// smallest and `Trace` the largest.
pub open spec fn level_rank(l: LogLevel) -> int {
    match l {
        LogLevel::Error => 1,
        LogLevel::Warn => 2,
        LogLevel::Info => 3,
        LogLevel::Debug => 4,
        LogLevel::Trace => 5,
    }
}

/// How a level is displayed.
pub open spec fn level_name(l: LogLevel) -> Seq<char> {
    match l {
        LogLevel::Error => "ERROR"@,
        LogLevel::Warn => "WARN"@,
        LogLevel::Info => "INFO"@,
        LogLevel::Debug => "DEBUG"@,
        LogLevel::Trace => "TRACE"@,
    }
}

/// Whether a record is logged: errors and warnings from anywhere, and
/// every record whose target lies in this program (`repo_saver...`).
pub open spec fn enabled_spec(level: LogLevel, target: Seq<char>) -> bool {
    level_rank(level) <= level_rank(LogLevel::Warn) || has_prefix(target, "repo_saver"@)
}

/// The line a record becomes: `[LEVEL] message`.
pub open spec fn line_spec(level: LogLevel, message: Seq<char>) -> Seq<char> {
    "["@ + level_name(level) + "] "@ + message
}

/// The last `n` items of `s` (all of them when there are fewer).
pub open spec fn keep_last<A>(s: Seq<A>, n: nat) -> Seq<A> {
    if s.len() > n {
        s.subrange(s.len() - n, s.len() as int)
    } else {
        s
    }
}

/// The views of a sequence of texts.
pub open spec fn texts(s: Seq<String>) -> Seq<Seq<char>> {
    s.map_values(|t: String| t@)
}

/// The lines of the activity log, oldest first.
pub struct LogBuffer {
    lines: VecDeque<String>,
}

impl View for LogBuffer {
    type V = Seq<Seq<char>>;

    /// The lines, oldest first.
    closed spec fn view(&self) -> Seq<Seq<char>> {
        texts(self.lines@)
    }
}

fn level_text(l: LogLevel) -> (r: &'static str)
    ensures
        r@ == level_name(l),
{
    match l {
        LogLevel::Error => "ERROR",
        LogLevel::Warn => "WARN",
        LogLevel::Info => "INFO",
        LogLevel::Debug => "DEBUG",
        LogLevel::Trace => "TRACE",
    }
}

impl LogBuffer {
    /// An empty log.
    pub fn new() -> (r: LogBuffer)
        ensures
            r@ == Seq::<Seq<char>>::empty(),
    {
        let r = LogBuffer { lines: VecDeque::new() };
        assert(r@ =~= Seq::<Seq<char>>::empty());
        r
    }

    /// Appends a line, dropping the oldest lines beyond `MAX_LOG_LINES`.
    pub fn push(&mut self, line: String)
        ensures
            final(self)@ == keep_last(old(self)@.push(line@), MAX_LOG_LINES as nat),
    {
        let ghost all = self.lines@.push(line);
        self.lines.push_back(line);
        assert(texts(all) =~= old(self)@.push(line@));
        while self.lines.len() > MAX_LOG_LINES
            invariant
                all.len() >= self.lines@.len(),
                self.lines@ =~= all.subrange(all.len() - self.lines@.len(), all.len() as int),
                all.len() > MAX_LOG_LINES ==> self.lines@.len() >= MAX_LOG_LINES,
                all.len() <= MAX_LOG_LINES ==> self.lines@.len() == all.len(),
            decreases self.lines@.len(),
        {
            let _ = self.lines.pop_front();
        }
        proof {
            let k = keep_last(all, MAX_LOG_LINES as nat);
            assert(self.lines@ =~= k);
            assert(texts(k) =~= keep_last(texts(all), MAX_LOG_LINES as nat));
        }
    }

    /// The lines, oldest first.
    pub fn snapshot(&self) -> (r: Vec<String>)
        ensures
            texts(r@) == self@,
    {
        let mut r: Vec<String> = Vec::new();
        let mut i: usize = 0;
        while i < self.lines.len()
            invariant
                i <= self.lines@.len(),
                texts(r@) =~= texts(self.lines@.subrange(0, i as int)),
            decreases self.lines@.len() - i,
        {
            r.push(self.lines[i].clone());
            assert(texts(self.lines@.subrange(0, i + 1)) =~= texts(
                self.lines@.subrange(0, i as int),
            ).push(self.lines@[i as int]@));
            i = i + 1;
        }
        assert(self.lines@.subrange(0, i as int) =~= self.lines@);
        r
    }

    /// Removes every line.
    pub fn clear(&mut self)
        ensures
            final(self)@ == Seq::<Seq<char>>::empty(),
    {
        self.lines.clear();
        assert(self@ =~= Seq::<Seq<char>>::empty());
    }

    /// Whether a record of `level` from `target` is logged.
    pub fn enabled(level: LogLevel, target: &str) -> (r: bool)
        ensures
            r == enabled_spec(level, target@),
    {
        let rank_ok = match level {
            LogLevel::Error | LogLevel::Warn => true,
            _ => false,
        };
        rank_ok || text_starts_with(target, "repo_saver")
    }

    /// Logs a record: when it is enabled, appends its line and returns it
    /// (the program also writes it to standard error); otherwise leaves the
    /// log as it is and returns nothing.
    pub fn log(&mut self, level: LogLevel, target: &str, message: &str) -> (r: Option<String>)
        ensures
            enabled_spec(level, target@) ==> (r matches Some(l) && l@ == line_spec(level, message@)
                && final(self)@ == keep_last(old(self)@.push(l@), MAX_LOG_LINES as nat)),
            !enabled_spec(level, target@) ==> r is None && final(self)@ == old(self)@,
    {
        if !LogBuffer::enabled(level, target) {
            return None;
        }
        let mut line = String::from_str("[");
        line.append(level_text(level));
        line.append("] ");
        line.append(message);
        proof {
            assert(line@ =~= line_spec(level, message@));
        }
        self.push(line.clone());
        Some(line)
    }
}

/// Makes sure there is an activity log: an empty one when there was none,
/// the existing one kept as it is otherwise.
pub fn init_log_buffer(log: &mut Option<LogBuffer>)
    ensures
        match *old(log) {
            Some(b) => *final(log) == Some(b),
            None => (*final(log) matches Some(b2) && b2@ == Seq::<Seq<char>>::empty()),
        },
{
    if log.is_none() {
        *log = Some(LogBuffer::new());
    }
}

/// Appends a line to the activity log, if there is one.
pub fn log_line(log: &mut Option<LogBuffer>, line: String)
    ensures
        match *old(log) {
            Some(b) => (*final(log) matches Some(b2) && b2@ == keep_last(
                b@.push(line@),
                MAX_LOG_LINES as nat,
            )),
            None => *final(log) is None,
        },
{
    match log {
        Some(b) => b.push(line),
        None => {},
    }
}

/// The activity log's lines, or none when there is no log.
pub fn log_snapshot(log: &Option<LogBuffer>) -> (r: Vec<String>)
    ensures
        match log {
            Some(b) => texts(r@) == b@,
            None => r@.len() == 0,
        },
{
    match log {
        Some(b) => b.snapshot(),
        None => Vec::new(),
    }
}

/// Empties the activity log, if there is one.
pub fn log_clear(log: &mut Option<LogBuffer>)
    ensures
        match *old(log) {
            Some(_) => (*final(log) matches Some(b2) && b2@ == Seq::<Seq<char>>::empty()),
            None => *final(log) is None,
        },
{
    match log {
        Some(b) => b.clear(),
        None => {},
    }
}


/// The log never holds more than `MAX_LOG_LINES` lines; a pushed line is
/// the newest one kept; and while the log is not full, nothing is dropped.
pub proof fn lemma_log_bounded(lines: Seq<Seq<char>>, line: Seq<char>)
    ensures
        ({
            let after = keep_last(lines.push(line), MAX_LOG_LINES as nat);
            &&& after.len() <= MAX_LOG_LINES
            &&& after.len() > 0 && after.last() == line
            &&& lines.len() < MAX_LOG_LINES ==> after == lines.push(line)
            &&& lines.len() >= MAX_LOG_LINES ==> after == lines.subrange(
                lines.len() - (MAX_LOG_LINES - 1),
                lines.len() as int,
            ).push(line)
        }),
{
    let all = lines.push(line);
    if lines.len() >= MAX_LOG_LINES {
        assert(all.subrange(all.len() - MAX_LOG_LINES, all.len() as int) =~= lines.subrange(
            lines.len() - (MAX_LOG_LINES - 1),
            lines.len() as int,
        ).push(line));
    }
}

/// Every record of this program is shown, at every level: any target that
/// starts with `repo_saver` (the target `repo_saver` itself included).
pub proof fn lemma_program_records_shown(level: LogLevel, target: Seq<char>)
    requires
        target.len() >= 10,
        target.subrange(0, 10) == "repo_saver"@,
    ensures
        enabled_spec(level, target),
        enabled_spec(level, "repo_saver"@),
{
    reveal_strlit("repo_saver");
    assert("repo_saver"@.subrange(0, 10) =~= "repo_saver"@);
}

/// Errors and warnings are shown whatever their target.
pub proof fn lemma_errors_and_warnings_shown(target: Seq<char>)
    ensures
        enabled_spec(LogLevel::Error, target),
        enabled_spec(LogLevel::Warn, target),
{
}

/// Information, debug and trace records of other crates are not shown.
pub proof fn lemma_other_chatter_hidden(level: LogLevel, target: Seq<char>)
    requires
        level == LogLevel::Info || level == LogLevel::Debug || level == LogLevel::Trace,
        !(target.len() >= 10 && target.subrange(0, 10) == "repo_saver"@),
    ensures
        !enabled_spec(level, target),
{
    reveal_strlit("repo_saver");
}

/// A record that is shown becomes the newest line of the log, as
/// `[LEVEL] message`, after the lines that were there (the oldest dropped
/// beyond `MAX_LOG_LINES`).
pub proof fn lemma_shown_record_is_newest_line(lines: Seq<Seq<char>>, level: LogLevel, message: Seq<char>)
    ensures
        ({
            let after = keep_last(lines.push(line_spec(level, message)), MAX_LOG_LINES as nat);
            &&& after.last() == "["@ + level_name(level) + "] "@ + message
            &&& lines.len() < MAX_LOG_LINES ==> after.subrange(0, lines.len() as int) == lines
        }),
{
    lemma_log_bounded(lines, line_spec(level, message));
    let after = keep_last(lines.push(line_spec(level, message)), MAX_LOG_LINES as nat);
    if lines.len() < MAX_LOG_LINES {
        assert(after.subrange(0, lines.len() as int) =~= lines);
    }
}

} // verus!
