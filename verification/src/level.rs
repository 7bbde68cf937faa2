//! Log severity levels and their fixed ordering.

use vstd::prelude::*;
use crate::text::{eq_ignore_case, eq_ignore_case_spec};

verus! {

/// Severity of one log record, ordered `Trace < Debug < Info < Warn < Error`.
#[derive(Clone, Copy, Debug, PartialEq, Eq, Structural)]
pub enum LogLevel {
    Trace,
    Debug,
    Info,
    Warn,
    Error,
}

/// Rank of a level in the fixed severity order.
pub open spec fn severity(l: LogLevel) -> int {
    match l {
        LogLevel::Trace => 0,
        LogLevel::Debug => 1,
        LogLevel::Info => 2,
        LogLevel::Warn => 3,
        LogLevel::Error => 4,
    }
}

/// The level a name denotes, matched without regard to ASCII case;
/// anything unrecognised is `Info`.
pub open spec fn level_of_name(s: Seq<char>) -> LogLevel {
    if eq_ignore_case_spec(s, "TRACE"@) {
        LogLevel::Trace
    } else if eq_ignore_case_spec(s, "DEBUG"@) {
        LogLevel::Debug
    } else if eq_ignore_case_spec(s, "INFO"@) {
        LogLevel::Info
    } else if eq_ignore_case_spec(s, "WARN"@) || eq_ignore_case_spec(s, "WARNING"@) {
        LogLevel::Warn
    } else if eq_ignore_case_spec(s, "ERROR"@) {
        LogLevel::Error
    } else {
        LogLevel::Info
    }
}

impl LogLevel {
    /// Parse a level name, case-insensitively; unknown names mean `Info`.
    pub fn from_str(s: &str) -> (r: LogLevel)
        ensures
            r == level_of_name(s@),
    {
        if eq_ignore_case(s, "TRACE") {
            LogLevel::Trace
        } else if eq_ignore_case(s, "DEBUG") {
            LogLevel::Debug
        } else if eq_ignore_case(s, "INFO") {
            LogLevel::Info
        } else if eq_ignore_case(s, "WARN") || eq_ignore_case(s, "WARNING") {
            LogLevel::Warn
        } else if eq_ignore_case(s, "ERROR") {
            LogLevel::Error
        } else {
            LogLevel::Info
        }
    }

    /// Numeric rank of this level.
    pub fn rank(self) -> (r: u8)
        ensures
            r as int == severity(self),
    {
        match self {
            LogLevel::Trace => 0,
            LogLevel::Debug => 1,
            LogLevel::Info => 2,
            LogLevel::Warn => 3,
            LogLevel::Error => 4,
        }
    }

    /// Whether this level passes a minimum-severity filter.
    pub fn at_least(self, min: LogLevel) -> (r: bool)
        ensures
            r == (severity(self) >= severity(min)),
    {
        self.rank() >= min.rank()
    }

    /// The fixed upper-case display name of this level.
    pub fn name(self) -> (r: &'static str)
        ensures
            r@ == level_name(self),
    {
        match self {
            LogLevel::Trace => "TRACE",
            LogLevel::Debug => "DEBUG",
            LogLevel::Info => "INFO",
            LogLevel::Warn => "WARN",
            LogLevel::Error => "ERROR",
        }
    }
}

/// Display name of a level.
pub open spec fn level_name(l: LogLevel) -> Seq<char> {
    match l {
        LogLevel::Trace => "TRACE"@,
        LogLevel::Debug => "DEBUG"@,
        LogLevel::Info => "INFO"@,
        LogLevel::Warn => "WARN"@,
        LogLevel::Error => "ERROR"@,
    }
}

} // verus!
