//! Bounded daemon diagnostics: the newest entries are kept in memory for the
//! debug console, and each is written as a line of a log file that is rotated
//! by size. The file is optional: the entries in memory do without it.

use std::collections::VecDeque;

use vstd::prelude::*;

use crate::calendar::{format_utc, is_utc_text};
use crate::text::{
    byte_len, concat5, has_prefix, lemma_truncated, truncate_text, truncated, utf8_len,
};

verus! {

/// Entries kept for the debug console.
pub const RING_CAPACITY: usize = 512;

/// Longest recorded message; a longer one is cut between characters.
pub const MAX_MESSAGE_BYTES: usize = 1024;

/// The size past which the log file is rotated.
pub const MAX_FILE_BYTES: u64 = 2_097_152;

#[derive(Clone, Copy, Debug, PartialEq, Eq, Structural)]
pub enum LogLevel {
    Info,
    Warn,
    Error,
}

pub open spec fn level_name(level: LogLevel) -> Seq<char> {
    match level {
        LogLevel::Info => "INFO"@,
        LogLevel::Warn => "WARN"@,
        LogLevel::Error => "ERROR"@,
    }
}

impl LogLevel {
    pub fn as_str(self) -> (name: &'static str)
        ensures
            name@ == level_name(self),
    {
        match self {
            LogLevel::Info => "INFO",
            LogLevel::Warn => "WARN",
            LogLevel::Error => "ERROR",
        }
    }
}

#[derive(Clone, Debug)]
pub struct LogEntry {
    pub timestamp_ms: u64,
    pub level: LogLevel,
    pub message: String,
}

/// What an entry says.
pub ghost struct Logged {
    pub timestamp_ms: u64,
    pub level: LogLevel,
    pub message: Seq<char>,
}

impl LogEntry {
    pub open spec fn says(self) -> Logged {
        Logged { timestamp_ms: self.timestamp_ms, level: self.level, message: self.message@ }
    }
}

/// What entries say, in their order.
pub open spec fn logged(entries: Seq<LogEntry>) -> Seq<Logged> {
    Seq::new(entries.len(), |i: int| entries[i].says())
}

/// What is recorded for a message.
pub open spec fn entry_of(timestamp_ms: u64, level: LogLevel, message: Seq<char>) -> Logged {
    Logged { timestamp_ms, level, message: truncated(message, MAX_MESSAGE_BYTES as nat) }
}

/// The newest of `entries`, at most `limit` of them, in their order.
pub open spec fn newest<T>(entries: Seq<T>, limit: nat) -> Seq<T> {
    if entries.len() <= limit {
        entries
    } else {
        entries.skip(entries.len() - limit)
    }
}

/// `line` is the line of an entry in the log file.
pub open spec fn is_log_line(line: Seq<char>, entry: Logged) -> bool {
    exists|moment: Seq<char>| #[trigger]
        is_utc_text(moment, entry.timestamp_ms) && line == moment + " "@ + level_name(entry.level)
            + " "@ + entry.message + "\n"@
}

/// The entries in memory, and the state of the log file.
pub struct DaemonLog {
    ring: VecDeque<LogEntry>,
    file_open: bool,
    file_bytes: u64,
    max_file_bytes: u64,
}

impl DaemonLog {
    pub closed spec fn ring(self) -> Seq<LogEntry> {
        self.ring@
    }

    /// What is kept in memory, oldest first.
    pub open spec fn kept(self) -> Seq<Logged> {
        logged(self.ring())
    }

    /// There is a log file to write to.
    pub closed spec fn has_file(self) -> bool {
        self.file_open
    }

    /// The size of the log file.
    pub closed spec fn written(self) -> u64 {
        self.file_bytes
    }

    /// The size past which the log file is rotated.
    pub closed spec fn limit(self) -> u64 {
        self.max_file_bytes
    }

    /// No more is kept than there is room for.
    pub open spec fn wf(self) -> bool {
        self.kept().len() <= RING_CAPACITY
    }

    /// A log without entries. `existing_bytes` is the size of its file, if it
    /// could be opened.
    pub fn open(existing_bytes: Option<u64>) -> (log: DaemonLog)
        ensures
            log.wf(),
            log.kept() == Seq::<Logged>::empty(),
            log.has_file() == (existing_bytes is Some),
            log.written() == (match existing_bytes {
                Some(bytes) => bytes,
                None => 0,
            }),
            log.limit() == MAX_FILE_BYTES,
    {
        DaemonLog::with_max_file_bytes(existing_bytes, MAX_FILE_BYTES)
    }

    /// A log whose file is rotated past `max_file_bytes`.
    pub fn with_max_file_bytes(existing_bytes: Option<u64>, max_file_bytes: u64) -> (log: DaemonLog)
        ensures
            log.wf(),
            log.kept() == Seq::<Logged>::empty(),
            log.has_file() == (existing_bytes is Some),
            log.written() == (match existing_bytes {
                Some(bytes) => bytes,
                None => 0,
            }),
            log.limit() == max_file_bytes,
    {
        let (file_open, file_bytes) = match existing_bytes {
            Some(bytes) => (true, bytes),
            None => (false, 0),
        };
        let log = DaemonLog { ring: VecDeque::new(), file_open, file_bytes, max_file_bytes };
        assert(log.kept() =~= Seq::<Logged>::empty());
        log
    }

    /// Records a message, and gives the line to append to the log file, where
    /// there is one.
    pub fn record(&mut self, timestamp_ms: u64, level: LogLevel, message: &str) -> (line: Option<
        String,
    >)
        requires
            old(self).wf(),
        ensures
            final(self).wf(),
            final(self).kept() == newest(
                old(self).kept().push(entry_of(timestamp_ms, level, message@)),
                RING_CAPACITY as nat,
            ),
            final(self).has_file() == old(self).has_file(),
            final(self).written() == old(self).written(),
            final(self).limit() == old(self).limit(),
            match line {
                Some(text) => old(self).has_file() && is_log_line(
                    text@,
                    entry_of(timestamp_ms, level, message@),
                ),
                None => !old(self).has_file(),
            },
    {
        let ghost before = self.ring@;
        assert(logged(before).len() == before.len());
        let ghost entry = entry_of(timestamp_ms, level, message@);
        let message = truncate_text(message, MAX_MESSAGE_BYTES);
        let line = if self.file_open {
            let moment = format_utc(timestamp_ms);
            let mut text = concat5(
                moment.as_str(),
                " ",
                level.as_str(),
                " ",
                message.as_str(),
            );
            text.append("\n");
            assert(is_utc_text(moment@, entry.timestamp_ms));
            assert(is_log_line(text@, entry));
            Some(text)
        } else {
            None
        };
        if self.ring.len() == RING_CAPACITY {
            let _ = self.ring.pop_front();
        }
        self.ring.push_back(LogEntry { timestamp_ms, level, message });
        proof {
            assert(logged(self.ring@) =~= newest(
                logged(before).push(entry),
                RING_CAPACITY as nat,
            ));
        }
        line
    }

    pub fn info(&mut self, timestamp_ms: u64, message: &str) -> (line: Option<String>)
        requires
            old(self).wf(),
        ensures
            final(self).wf(),
            final(self).kept() == newest(
                old(self).kept().push(entry_of(timestamp_ms, LogLevel::Info, message@)),
                RING_CAPACITY as nat,
            ),
            final(self).has_file() == old(self).has_file(),
            final(self).written() == old(self).written(),
            final(self).limit() == old(self).limit(),
            match line {
                Some(text) => old(self).has_file() && is_log_line(
                    text@,
                    entry_of(timestamp_ms, LogLevel::Info, message@),
                ),
                None => !old(self).has_file(),
            },
    {
        self.record(timestamp_ms, LogLevel::Info, message)
    }

    pub fn warn(&mut self, timestamp_ms: u64, message: &str) -> (line: Option<String>)
        requires
            old(self).wf(),
        ensures
            final(self).wf(),
            final(self).kept() == newest(
                old(self).kept().push(entry_of(timestamp_ms, LogLevel::Warn, message@)),
                RING_CAPACITY as nat,
            ),
            final(self).has_file() == old(self).has_file(),
            final(self).written() == old(self).written(),
            final(self).limit() == old(self).limit(),
            match line {
                Some(text) => old(self).has_file() && is_log_line(
                    text@,
                    entry_of(timestamp_ms, LogLevel::Warn, message@),
                ),
                None => !old(self).has_file(),
            },
    {
        self.record(timestamp_ms, LogLevel::Warn, message)
    }

    pub fn error(&mut self, timestamp_ms: u64, message: &str) -> (line: Option<String>)
        requires
            old(self).wf(),
        ensures
            final(self).wf(),
            final(self).kept() == newest(
                old(self).kept().push(entry_of(timestamp_ms, LogLevel::Error, message@)),
                RING_CAPACITY as nat,
            ),
            final(self).has_file() == old(self).has_file(),
            final(self).written() == old(self).written(),
            final(self).limit() == old(self).limit(),
            match line {
                Some(text) => old(self).has_file() && is_log_line(
                    text@,
                    entry_of(timestamp_ms, LogLevel::Error, message@),
                ),
                None => !old(self).has_file(),
            },
    {
        self.record(timestamp_ms, LogLevel::Error, message)
    }

    /// Counts a line that was written, and tells whether the file is now to be
    /// rotated.
    pub fn line_written(&mut self, line: &str) -> (rotate: bool)
        ensures
            final(self).ring() == old(self).ring(),
            final(self).has_file() == old(self).has_file(),
            final(self).limit() == old(self).limit(),
            final(self).written() == (if old(self).written() + utf8_len(line@) > u64::MAX {
                u64::MAX as int
            } else {
                old(self).written() + utf8_len(line@)
            }),
            rotate == (final(self).written() > final(self).limit()),
    {
        self.file_bytes = self.file_bytes.saturating_add(byte_len(line) as u64);
        self.file_bytes > self.max_file_bytes
    }

    /// Starts on a new file after a rotation, if it could be opened.
    pub fn rotated(&mut self, reopened: bool)
        ensures
            final(self).ring() == old(self).ring(),
            final(self).limit() == old(self).limit(),
            final(self).has_file() == reopened,
            final(self).written() == 0,
    {
        self.file_open = reopened;
        self.file_bytes = 0;
    }

    /// Most recent entries, oldest first, at most `limit`.
    pub fn recent(&self, limit: usize) -> (entries: Vec<LogEntry>)
        ensures
            logged(entries@) == newest(self.kept(), limit as nat),
    {
        let count = self.ring.len();
        let skip = count.saturating_sub(limit);
        let mut entries: Vec<LogEntry> = Vec::new();
        let mut index: usize = skip;
        while index < count
            invariant
                count == self.ring@.len(),
                skip <= index <= count,
                entries@.len() == index - skip,
                forall|i: int|
                    0 <= i < entries@.len() ==> (#[trigger] entries@[i]).says()
                        == self.ring@[skip + i].says(),
            decreases count - index,
        {
            let entry = &self.ring[index];
            entries.push(
                LogEntry {
                    timestamp_ms: entry.timestamp_ms,
                    level: entry.level,
                    message: entry.message.clone(),
                },
            );
            index = index + 1;
        }
        assert(logged(entries@) =~= newest(self.kept(), limit as nat));
        entries
    }
}

/// What the log keeps of everything that was ever recorded: the newest entries,
/// in the order in which they were recorded.
pub open spec fn kept_of(history: Seq<Logged>) -> Seq<Logged> {
    newest(history, RING_CAPACITY as nat)
}

/// However much is recorded, the log keeps the newest entries of all, in
/// order: one more recording takes what is kept of a history to what is kept
/// of the longer history.
pub proof fn law_the_log_keeps_the_newest(history: Seq<Logged>, entry: Logged)
    ensures
        kept_of(Seq::<Logged>::empty()) == Seq::<Logged>::empty(),
        newest(kept_of(history).push(entry), RING_CAPACITY as nat) == kept_of(history.push(entry)),
        kept_of(history.push(entry)).last() == entry,
{
    assert(newest(kept_of(history).push(entry), RING_CAPACITY as nat) =~= kept_of(
        history.push(entry),
    ));
}

/// What is recorded is the message at its time and level, as far as 1024 bytes
/// go; a message that fits is recorded whole.
pub proof fn law_messages_are_recorded(timestamp_ms: u64, level: LogLevel, message: Seq<char>)
    ensures
        ({
            let entry = entry_of(timestamp_ms, level, message);
            &&& entry.timestamp_ms == timestamp_ms
            &&& entry.level == level
            &&& has_prefix(message, entry.message)
            &&& utf8_len(entry.message) <= 1024
            &&& utf8_len(message) <= 1024 ==> entry.message == message
            &&& entry.message.len() < message.len() ==> utf8_len(
                message.take((entry.message.len() + 1) as int),
            ) > 1024
        }),
{
    lemma_truncated(message, 1024);
}

/// The newest entries are the last ones, in their order, and as many as there is
/// room for.
pub proof fn law_the_newest_come_last<T>(entries: Seq<T>, limit: nat)
    ensures
        ({
            let kept = newest(entries, limit);
            &&& kept.len() == if entries.len() < limit {
                entries.len()
            } else {
                limit
            }
            &&& entries == entries.take(entries.len() - kept.len()) + kept
        }),
        RING_CAPACITY == 512,
        MAX_FILE_BYTES == 2 * 1024 * 1024,
{
    let kept = newest(entries, limit);
    assert(entries =~= entries.take(entries.len() - kept.len()) + kept);
}

/// Levels have their own names.
pub proof fn law_levels_have_their_own_names(level: LogLevel)
    ensures
        level_name(level) == "INFO"@ <==> level == LogLevel::Info,
        level_name(level) == "WARN"@ <==> level == LogLevel::Warn,
        level_name(level) == "ERROR"@ <==> level == LogLevel::Error,
{
    reveal_strlit("INFO");
    reveal_strlit("WARN");
    reveal_strlit("ERROR");
    assert("INFO"@[0] == 'I');
    assert("WARN"@[0] == 'W');
    assert("ERROR"@[0] == 'E');
}

} // verus!
