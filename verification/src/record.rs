//! A decoded audit record and the fields that every record carries.

use vstd::prelude::*;
use crate::value::FieldValue;

verus! {

/// An instant in UTC: whole seconds since the Unix epoch and the nanoseconds
/// within that second. Instants are ordered by seconds, then nanoseconds.
#[derive(Clone, Copy, Debug, PartialEq, Eq, Structural)]
pub struct Timestamp {
    pub secs: i64,
    pub nanos: u32,
}

impl Timestamp {
    /// `self` is strictly earlier than `other`.
    pub open spec fn before(self, other: Timestamp) -> bool {
        self.secs < other.secs || (self.secs == other.secs && self.nanos < other.nanos)
    }

    /// `self` is `other` or earlier.
    pub open spec fn not_after(self, other: Timestamp) -> bool {
        self == other || self.before(other)
    }

    /// Whether `self` is strictly earlier than `other`.
    pub fn is_before(&self, other: &Timestamp) -> (earlier: bool)
        ensures
            earlier == self.before(*other),
    {
        self.secs < other.secs || (self.secs == other.secs && self.nanos < other.nanos)
    }

    /// Whether `self` is `other` or earlier.
    pub fn is_not_after(&self, other: &Timestamp) -> (holds: bool)
        ensures
            holds == self.not_after(*other),
    {
        self.secs < other.secs || (self.secs == other.secs && self.nanos <= other.nanos)
    }

    /// The RFC 3339 text of the instant.
    pub open spec fn text(self, whole_seconds: bool) -> Option<Seq<char>> {
        rfc3339_text(self.secs, self.nanos, whole_seconds)
    }

    /// Writes the instant as RFC 3339 text.
    pub fn to_rfc3339(&self, whole_seconds: bool) -> (text: Option<String>)
        ensures
            match text {
                Some(s) => self.text(whole_seconds) == Some(s@),
                None => self.text(whole_seconds) is None,
            },
    {
        format_rfc3339(self.secs, self.nanos, whole_seconds)
    }

    /// The nanoseconds from `earlier` to `self`; negative where `self` comes first.
    pub open spec fn nanos_since(self, earlier: Timestamp) -> int {
        (self.secs - earlier.secs) * 1_000_000_000 + (self.nanos - earlier.nanos)
    }

    /// The nanoseconds from `earlier` to `self`.
    pub fn duration_since(&self, earlier: &Timestamp) -> (elapsed: i128)
        ensures
            elapsed == self.nanos_since(*earlier),
    {
        let secs: i128 = self.secs as i128 - earlier.secs as i128;
        let nanos: i128 = self.nanos as i128 - earlier.nanos as i128;
        assert(-0x1_0000_0000_0000_0000 < secs < 0x1_0000_0000_0000_0000);
        assert(secs * 1_000_000_000 < 0x1_0000_0000_0000_0000 * 1_000_000_000
            && secs * 1_000_000_000 > -0x1_0000_0000_0000_0000 * 1_000_000_000) by (nonlinear_arith)
            requires -0x1_0000_0000_0000_0000 < secs < 0x1_0000_0000_0000_0000;
        secs * 1_000_000_000 + nanos
    }
}

/// The instant `secs` seconds and `nanos` nanoseconds after the Unix epoch
/// as RFC 3339 text in UTC, ending in `Z`: cut to whole seconds where
/// `whole_seconds` is set, else with the fraction in as many groups of three
/// digits as it needs. `None` where the calendar has no such instant.
pub uninterp spec fn rfc3339_text(secs: i64, nanos: u32, whole_seconds: bool) -> Option<Seq<char>>;

/// `chrono::DateTime::from_timestamp`, then `DateTime::to_rfc3339_opts` on
/// its result with `SecondsFormat::Secs` or `SecondsFormat::AutoSi` and `Z`
/// for UTC: the text is the one that `rfc3339_text` names, `None` where
/// `from_timestamp` returns `None`. Nothing is claimed of what the text holds.
#[verifier::external_body]
fn format_rfc3339(secs: i64, nanos: u32, whole_seconds: bool) -> (text: Option<String>)
    ensures
        match text {
            Some(s) => rfc3339_text(secs, nanos, whole_seconds) == Some(s@),
            None => rfc3339_text(secs, nanos, whole_seconds) is None,
        },
{
    let form = if whole_seconds { chrono::SecondsFormat::Secs } else { chrono::SecondsFormat::AutoSi };
    match chrono::DateTime::from_timestamp(secs, nanos) {
        Some(instant) => Some(instant.to_rfc3339_opts(form, true)),
        None => None,
    }
}

/// The place of a record in the order of events: its instant, then the
/// sequence number under which it was stored.
#[derive(Clone, Copy, Debug, PartialEq, Eq, Structural)]
pub struct EventKey {
    pub timestamp: Timestamp,
    pub record_id: u64,
}

impl EventKey {
    /// `self` comes strictly before `other`.
    pub open spec fn before(self, other: EventKey) -> bool {
        self.timestamp.before(other.timestamp) || (self.timestamp == other.timestamp
            && self.record_id < other.record_id)
    }
}

/// One decoded log entry: when it was written, the sequence number under
/// which it was stored, and its field tree.
#[derive(Debug, PartialEq, Eq)]
pub struct AuditRecord {
    pub timestamp: Timestamp,
    pub event_record_id: u64,
    pub data: FieldValue,
}

/// The node that holds a record's event code: `Event.System.EventID`, or its
/// member `#text` where the code carries attributes.
pub open spec fn event_code_node(data: FieldValue) -> Option<FieldValue> {
    match data.member3("Event"@, "System"@, "EventID"@) {
        Some(id) => match id.member("#text"@) {
            Some(inner) => Some(inner),
            None => Some(id),
        },
        None => None,
    }
}

/// The numeric event code of a record, where it has one.
pub open spec fn event_code_of(data: FieldValue) -> Option<u64> {
    match event_code_node(data) {
        Some(node) => node.number(),
        None => None,
    }
}

/// The text at `Event.EventData.<key>`, where that member is text.
pub open spec fn event_text_of(data: FieldValue, key: Seq<char>) -> Option<Seq<char>> {
    match data.member3("Event"@, "EventData"@, key) {
        Some(node) => node.text(),
        None => None,
    }
}

impl AuditRecord {
    /// The place of the record in the order of events.
    pub open spec fn key(self) -> EventKey {
        EventKey { timestamp: self.timestamp, record_id: self.event_record_id }
    }

    /// The place of the record in the order of events.
    pub fn event_key(&self) -> (key: EventKey)
        ensures
            key == self.key(),
    {
        EventKey { timestamp: self.timestamp, record_id: self.event_record_id }
    }

    /// The numeric event code of the record.
    pub fn event_code(&self) -> (code: Option<u64>)
        ensures
            code == event_code_of(self.data),
    {
        match self.data.get3("Event", "System", "EventID") {
            Some(id) => match id.get("#text") {
                Some(inner) => inner.as_u64(),
                None => id.as_u64(),
            },
            None => None,
        }
    }

    /// A copy of the text at `Event.EventData.<key>`.
    pub fn owned_event_text(&self, key: &str) -> (text: Option<String>)
        ensures
            match text {
                Some(s) => event_text_of(self.data, key@) == Some(s@),
                None => event_text_of(self.data, key@) is None,
            },
    {
        match self.event_text(key) {
            Some(s) => Some(s.to_owned()),
            None => None,
        }
    }

    /// The text at `Event.EventData.<key>`.
    pub fn event_text(&self, key: &str) -> (text: Option<&str>)
        ensures
            match text {
                Some(s) => event_text_of(self.data, key@) == Some(s@),
                None => event_text_of(self.data, key@) is None,
            },
    {
        match self.data.get3("Event", "EventData", key) {
            Some(node) => node.as_str(),
            None => None,
        }
    }
}

} // verus!
