//! Diagnostics: a sink that keeps the records at or above a threshold.

use vstd::prelude::*;
use vstd::string::*;

use crate::lexer::token::Span;

verus! {

#[derive(Clone, Copy, Debug, PartialEq, Eq, Structural)]
pub enum LogLevel {
    Info,
    Warning,
    Error,
}

impl LogLevel {
    pub open spec fn spec_rank(self) -> u8 {
        match self {
            LogLevel::Info => 0,
            LogLevel::Warning => 1,
            LogLevel::Error => 2,
        }
    }

    /// The place of the level in the order of severity.
    pub fn rank(self) -> (r: u8)
        ensures
            r == self.spec_rank(),
    {
        match self {
            LogLevel::Info => 0,
            LogLevel::Warning => 1,
            LogLevel::Error => 2,
        }
    }

    pub open spec fn spec_name(self) -> Seq<char> {
        match self {
            LogLevel::Info => "INFO"@,
            LogLevel::Warning => "WARNING"@,
            LogLevel::Error => "ERROR"@,
        }
    }

    /// The name that a printed record starts with.
    pub fn name(self) -> (s: &'static str)
        ensures
            s@ == self.spec_name(),
    {
        match self {
            LogLevel::Info => "INFO",
            LogLevel::Warning => "WARNING",
            LogLevel::Error => "ERROR",
        }
    }
}

/// One diagnostic: how severe it is, what it says, and the place in the
/// source that it speaks of, if it speaks of one.
pub struct Record {
    pub level: LogLevel,
    pub message: String,
    pub span: Option<Span>,
}

pub struct RecordView {
    pub level: LogLevel,
    pub message: Seq<char>,
    pub span: Option<Span>,
}

impl View for Record {
    type V = RecordView;

    open spec fn view(&self) -> RecordView {
        RecordView { level: self.level, message: self.message@, span: self.span }
    }
}

impl RecordView {
    /// The line that shows the record: the level between square brackets,
    /// a blank and the message.
    pub open spec fn line(self) -> Seq<char> {
        "["@ + self.level.spec_name() + "] "@ + self.message
    }
}

impl Record {
    /// The line that shows the record.
    pub fn line(&self) -> (s: String)
        ensures
            s@ == self@.line(),
    {
        let mut s = "[".to_owned();
        s.append(self.level.name());
        s.append("] ");
        s.append(self.message.as_str());
        s
    }
}

/// A sink of diagnostics.
pub struct Logger {
    pub threshold: LogLevel,
    pub records: Vec<Record>,
}

pub struct LoggerView {
    pub threshold: LogLevel,
    pub records: Seq<RecordView>,
}

impl View for Logger {
    type V = LoggerView;

    open spec fn view(&self) -> LoggerView {
        LoggerView { threshold: self.threshold, records: self.records@.map_values(|r: Record| r@) }
    }
}

impl LoggerView {
    /// Whether the sink keeps records of this level.
    pub open spec fn keeps(self, level: LogLevel) -> bool {
        self.threshold.spec_rank() <= level.spec_rank()
    }

    /// The sink after a record was handed to it.
    pub open spec fn log(self, record: RecordView) -> LoggerView {
        if self.keeps(record.level) {
            LoggerView { records: self.records.push(record), ..self }
        } else {
            self
        }
    }
}

impl Logger {
    /// An empty sink that keeps the records at or above `threshold`.
    pub fn new(threshold: LogLevel) -> (l: Logger)
        ensures
            l@ == (LoggerView { threshold, records: Seq::empty() }),
    {
        let l = Logger { threshold, records: Vec::new() };
        assert(l@.records =~= Seq::empty());
        l
    }

    pub fn set_threshold(&mut self, new_threshold: LogLevel)
        ensures
            final(self)@ == (LoggerView { threshold: new_threshold, ..old(self)@ }),
    {
        self.threshold = new_threshold;
    }

    /// Whether the sink keeps records of this level.
    pub fn keeps(&self, level: LogLevel) -> (r: bool)
        ensures
            r == self@.keeps(level),
    {
        self.threshold.rank() <= level.rank()
    }

    /// Keeps the record if its level is at or above the threshold, and says
    /// whether it did.
    pub fn log(&mut self, record: Record) -> (kept: bool)
        ensures
            final(self)@ == old(self)@.log(record@),
            kept == old(self)@.keeps(record.level),
    {
        if self.threshold.rank() > record.level.rank() {
            return false;
        }
        self.records.push(record);
        assert(self@.records =~= old(self)@.records.push(record@));
        true
    }
}

} // verus!
