//! The severity that a record states.

use vstd::prelude::*;
use crate::record::AuditRecord;

verus! {

/// How severe the event of a record is.
#[derive(Clone, Copy, Debug, PartialEq, Eq, Structural)]
pub enum EventLevel {
    LogAlways,
    Critical,
    Error,
    Warning,
    Information,
    AuditSuccess,
    AuditFailure,
}

/// Why a record gives no level.
#[derive(Clone, Copy, Debug, PartialEq, Eq, Structural)]
pub enum EventLevelError {
    /// The record states no level, or one that is no non-negative number.
    Missing,
    /// The number names no level.
    Unknown,
}

/// The number at `Event.System.Level`.
pub open spec fn level_number_of(record: AuditRecord) -> Option<u64> {
    match record.data.member3("Event"@, "System"@, "Level"@) {
        Some(node) => node.number(),
        None => None,
    }
}

impl EventLevel {
    /// The level that the number `value` names. The numbers 0 and 5 both
    /// name `LogAlways`.
    pub open spec fn of_number(value: u64) -> Result<EventLevel, EventLevelError> {
        if value == 0 || value == 5 {
            Ok(EventLevel::LogAlways)
        } else if value == 1 {
            Ok(EventLevel::Critical)
        } else if value == 2 {
            Ok(EventLevel::Error)
        } else if value == 3 {
            Ok(EventLevel::Warning)
        } else if value == 4 {
            Ok(EventLevel::Information)
        } else {
            Err(EventLevelError::Unknown)
        }
    }

    /// The level that the number `value` names.
    pub fn try_from(value: u64) -> (result: Result<EventLevel, EventLevelError>)
        ensures
            result == Self::of_number(value),
    {
        match value {
            0 => Ok(EventLevel::LogAlways),
            1 => Ok(EventLevel::Critical),
            2 => Ok(EventLevel::Error),
            3 => Ok(EventLevel::Warning),
            4 => Ok(EventLevel::Information),
            5 => Ok(EventLevel::LogAlways),
            _ => Err(EventLevelError::Unknown),
        }
    }

    /// What `try_from_record` returns for `record`.
    pub open spec fn of_record(record: AuditRecord) -> Result<EventLevel, EventLevelError> {
        match level_number_of(record) {
            Some(value) => Self::of_number(value),
            None => Err(EventLevelError::Missing),
        }
    }

    /// Reads the level that `record` states.
    pub fn try_from_record(record: &AuditRecord) -> (result: Result<EventLevel, EventLevelError>)
        ensures
            result == Self::of_record(*record),
    {
        let number: Option<u64> = match record.data.get3("Event", "System", "Level") {
            Some(node) => node.as_u64(),
            None => None,
        };
        match number {
            Some(value) => Self::try_from(value),
            None => Err(EventLevelError::Missing),
        }
    }

    /// The sign under which the level is shown.
    pub open spec fn sign(self) -> Seq<char> {
        match self {
            EventLevel::LogAlways => "\u{270d}\u{fe0f}"@,
            EventLevel::Critical => "\u{1f4a2}"@,
            EventLevel::Error => "\u{1f525}"@,
            EventLevel::Warning => "\u{26a0}\u{fe0f}"@,
            EventLevel::Information => "\u{2139}\u{fe0f}"@,
            EventLevel::AuditSuccess => "\u{1f642}"@,
            EventLevel::AuditFailure => "\u{1f621}"@,
        }
    }

    /// The sign under which the level is shown.
    pub fn symbol(&self) -> (text: &'static str)
        ensures
            text@ == self.sign(),
    {
        match self {
            EventLevel::LogAlways => "\u{270d}\u{fe0f}",
            EventLevel::Critical => "\u{1f4a2}",
            EventLevel::Error => "\u{1f525}",
            EventLevel::Warning => "\u{26a0}\u{fe0f}",
            EventLevel::Information => "\u{2139}\u{fe0f}",
            EventLevel::AuditSuccess => "\u{1f642}",
            EventLevel::AuditFailure => "\u{1f621}",
        }
    }
}

} // verus!
