//! The numeric code that says what kind of event a record reports.

use vstd::prelude::*;
use crate::record::{AuditRecord, event_code_of};
use crate::text::{digits, number_text, pad_left, padded};

verus! {

/// An event code. Codes are 16 bits wide.
#[derive(Clone, Copy, Debug, PartialEq, Eq, Structural)]
pub struct EventId(pub u16);

/// Why a record gives no event code.
#[derive(Clone, Copy, Debug, PartialEq, Eq, Structural)]
pub enum EventIdError {
    /// The record has no event code, or one that is no non-negative number.
    Missing,
    /// The code does not fit 16 bits.
    OutOfRange,
}

/// The width at which event codes are shown in columns.
pub const EVENT_ID_MAX_LENGTH: usize = 5;

/// A field of a record that can be shown in a column.
pub trait EvtxFieldView {
    /// The width of the column.
    spec fn width(&self) -> nat;

    /// The field as it stands in its column.
    spec fn shown(&self) -> Seq<char>;

    fn maximum_display_length(&self) -> (width: usize)
        ensures
            width == self.width(),
    ;

    fn value_with_padding(&self) -> (text: String)
        ensures
            text@ == self.shown(),
    ;
}

impl EvtxFieldView for EventId {
    open spec fn width(&self) -> nat {
        EVENT_ID_MAX_LENGTH as nat
    }

    /// The code in decimal, set to the right of its column.
    open spec fn shown(&self) -> Seq<char> {
        padded(digits(self.0 as nat, 10), 5, ' ')
    }

    fn maximum_display_length(&self) -> (width: usize) {
        EVENT_ID_MAX_LENGTH
    }

    fn value_with_padding(&self) -> (text: String) {
        proof {
            reveal_strlit(" ");
        }
        pad_left(number_text(self.0 as u64, 10), 5, " ")
    }
}

impl EventId {
    /// The code in decimal.
    pub fn to_string(&self) -> (text: String)
        ensures
            text@ == digits(self.0 as nat, 10),
    {
        number_text(self.0 as u64, 10)
    }

    /// What `try_from` returns for `record`.
    pub open spec fn parsed(record: AuditRecord) -> Result<EventId, EventIdError> {
        match event_code_of(record.data) {
            Some(code) => if code <= u16::MAX {
                Ok(EventId(code as u16))
            } else {
                Err(EventIdError::OutOfRange)
            },
            None => Err(EventIdError::Missing),
        }
    }

    /// Reads the event code of `record`.
    pub fn try_from(record: &AuditRecord) -> (result: Result<EventId, EventIdError>)
        ensures
            result == Self::parsed(*record),
    {
        match record.event_code() {
            Some(code) => if code <= 0xffff {
                Ok(EventId(code as u16))
            } else {
                Err(EventIdError::OutOfRange)
            },
            None => Err(EventIdError::Missing),
        }
    }

    /// The code as a number.
    pub fn value(&self) -> (code: u16)
        ensures
            code == self.0,
    {
        self.0
    }

}

impl From<u16> for EventId {
    fn from(id: u16) -> (event_id: EventId) {
        EventId(id)
    }
}

impl vstd::std_specs::convert::FromSpecImpl<u16> for EventId {
    open spec fn obeys_from_spec() -> bool {
        true
    }

    open spec fn from_spec(id: u16) -> EventId {
        EventId(id)
    }
}

impl From<EventId> for u16 {
    fn from(me: EventId) -> (code: u16) {
        me.0
    }
}

impl vstd::std_specs::convert::FromSpecImpl<EventId> for u16 {
    open spec fn obeys_from_spec() -> bool {
        true
    }

    open spec fn from_spec(me: EventId) -> u16 {
        me.0
    }
}

} // verus!
