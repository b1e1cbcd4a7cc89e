//! The log that the interface shows: the newest entries, up to a bound.

use vstd::prelude::*;

verus! {

/// The time of the machine's clock, as the standard library holds it. Its
/// inside is not looked at here.
#[verifier::external_type_specification]
#[verifier::external_body]
pub struct ExSystemTime(std::time::SystemTime);

/// Reads the clock with `SystemTime::now`. Nothing is claimed of the time
/// that comes back.
#[verifier::external_body]
fn now() -> (t: std::time::SystemTime) {
    std::time::SystemTime::now()
}

/// How grave an entry of the log is.
#[derive(Debug, Clone, Copy, PartialEq, Eq, Structural)]
pub enum LogLevel {
    Info,
    Warning,
    Error,
}

impl LogLevel {
    /// The mark shown before an entry of this level.
    pub open spec fn mark(self) -> Seq<char> {
        match self {
            LogLevel::Info => "[I]"@,
            LogLevel::Warning => "[!]"@,
            LogLevel::Error => "[E]"@,
        }
    }

    /// The mark shown before an entry of this level.
    pub fn icon(&self) -> (r: &'static str)
        ensures
            r@ == self.mark(),
    {
        match self {
            LogLevel::Info => "[I]",
            LogLevel::Warning => "[!]",
            LogLevel::Error => "[E]",
        }
    }
}

/// One entry of the log.
#[derive(Debug)]
pub struct LogEntry {
    pub timestamp: std::time::SystemTime,
    pub level: LogLevel,
    pub message: String,
}

/// What an entry says: its level and its text. When it was made is not
/// part of it.
pub struct LogEntryView {
    pub level: LogLevel,
    pub message: Seq<char>,
}

impl View for LogEntry {
    type V = LogEntryView;

    open spec fn view(&self) -> LogEntryView {
        LogEntryView { level: self.level, message: self.message@ }
    }
}

/// The views of a list of entries.
pub open spec fn entry_views(v: Seq<LogEntry>) -> Seq<LogEntryView> {
    Seq::new(v.len(), |i: int| v[i]@)
}

/// How many of `entries` are of `level`.
pub open spec fn count_level(entries: Seq<LogEntryView>, level: LogLevel) -> nat
    decreases entries.len(),
{
    if entries.len() == 0 {
        0
    } else if entries.last().level == level {
        count_level(entries.drop_last(), level) + 1
    } else {
        count_level(entries.drop_last(), level)
    }
}

/// `entries` with `entry` at the end; without the oldest one where that
/// makes more than `max_logs`.
pub open spec fn appended(entries: Seq<LogEntryView>, entry: LogEntryView, max_logs: nat) -> Seq<
    LogEntryView,
> {
    if entries.len() + 1 > max_logs {
        entries.push(entry).drop_first()
    } else {
        entries.push(entry)
    }
}

/// A log that keeps the newest entries.
#[derive(Debug)]
pub struct Logger {
    logs: Vec<LogEntry>,
    max_logs: usize,
}

impl Logger {
    /// What the log holds, oldest first.
    pub closed spec fn entries(&self) -> Seq<LogEntryView> {
        entry_views(self.logs@)
    }

    /// How many entries the log keeps at most.
    pub closed spec fn limit(&self) -> nat {
        self.max_logs as nat
    }

    /// An empty log that keeps `max_logs` entries at most.
    pub fn new(max_logs: usize) -> (r: Logger)
        ensures
            r.entries() == Seq::<LogEntryView>::empty(),
            r.limit() == max_logs,
    {
        let r = Logger { logs: Vec::new(), max_logs };
        assert(r.entries() =~= Seq::<LogEntryView>::empty());
        r
    }

    /// Adds an entry of level `Info`.
    pub fn info(&mut self, message: String)
        ensures
            final(self).limit() == old(self).limit(),
            final(self).entries() == appended(
                old(self).entries(),
                LogEntryView { level: LogLevel::Info, message: message@ },
                old(self).limit(),
            ),
    {
        self.add_log(LogLevel::Info, message);
    }

    /// Adds an entry of level `Warning`.
    pub fn warning(&mut self, message: String)
        ensures
            final(self).limit() == old(self).limit(),
            final(self).entries() == appended(
                old(self).entries(),
                LogEntryView { level: LogLevel::Warning, message: message@ },
                old(self).limit(),
            ),
    {
        self.add_log(LogLevel::Warning, message);
    }

    /// Adds an entry of level `Error`.
    pub fn error(&mut self, message: String)
        ensures
            final(self).limit() == old(self).limit(),
            final(self).entries() == appended(
                old(self).entries(),
                LogEntryView { level: LogLevel::Error, message: message@ },
                old(self).limit(),
            ),
    {
        self.add_log(LogLevel::Error, message);
    }

    /// Adds an entry, stamped with the time of the clock; the oldest entry
    /// leaves where the log would outgrow its bound.
    pub fn add_log(&mut self, level: LogLevel, message: String)
        ensures
            final(self).limit() == old(self).limit(),
            final(self).entries() == appended(
                old(self).entries(),
                LogEntryView { level, message: message@ },
                old(self).limit(),
            ),
            old(self).entries().len() <= old(self).limit() ==> final(self).entries().len()
                <= final(self).limit(),
    {
        let entry = LogEntry { timestamp: now(), level, message };
        proof {
            assert(entry_views(self.logs@.push(entry)) =~= entry_views(self.logs@).push(entry@));
            assert(entry_views(self.logs@.push(entry).remove(0)) =~= entry_views(
                self.logs@,
            ).push(entry@).drop_first());
        }
        self.logs.push(entry);
        if self.logs.len() > self.max_logs {
            let _ = self.logs.remove(0);
        }
    }

    /// The entries, oldest first.
    pub fn logs(&self) -> (r: &[LogEntry])
        ensures
            entry_views(r@) == self.entries(),
    {
        self.logs.as_slice()
    }

    /// Empties the log.
    pub fn clear(&mut self)
        ensures
            final(self).limit() == old(self).limit(),
            final(self).entries() == Seq::<LogEntryView>::empty(),
    {
        self.logs.clear();
        assert(self.entries() =~= Seq::<LogEntryView>::empty());
    }

    fn count(&self, level: LogLevel) -> (r: usize)
        ensures
            r == count_level(self.entries(), level),
    {
        let mut n: usize = 0;
        let mut i: usize = 0;
        proof {
            assert(self.entries().take(0) =~= Seq::<LogEntryView>::empty());
        }
        while i < self.logs.len()
            invariant
                i <= self.logs.len(),
                n <= i,
                n == count_level(self.entries().take(i as int), level),
            decreases self.logs.len() - i,
        {
            proof {
                assert(self.entries().take(i + 1).drop_last() =~= self.entries().take(i as int));
                assert(self.entries().take(i + 1).last() == self.logs@[i as int]@);
            }
            if self.logs[i].level == level {
                n += 1;
            }
            i += 1;
        }
        proof {
            assert(self.entries().take(i as int) =~= self.entries());
        }
        n
    }

    /// How many entries are errors.
    pub fn error_count(&self) -> (r: usize)
        ensures
            r == count_level(self.entries(), LogLevel::Error),
    {
        self.count(LogLevel::Error)
    }

    /// How many entries are warnings.
    pub fn warning_count(&self) -> (r: usize)
        ensures
            r == count_level(self.entries(), LogLevel::Warning),
    {
        self.count(LogLevel::Warning)
    }

    /// How many entries the log holds.
    pub fn total_count(&self) -> (r: usize)
        ensures
            r == self.entries().len(),
    {
        self.logs.len()
    }
}

impl Default for Logger {
    fn default() -> (r: Logger)
        ensures
            r.entries() == Seq::<LogEntryView>::empty(),
            r.limit() == 1000,
    {
        Logger::new(1000)
    }
}

} // verus!
