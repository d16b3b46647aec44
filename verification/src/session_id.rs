//! The key under which the events of one session are brought together, and
//! the rules that read it out of a record.

use vstd::prelude::*;
use crate::record::{AuditRecord, event_text_of};
use crate::text::same_text;

verus! {

/// The key of a session. Two keys are the same when they are of the same
/// kind and hold the same text.
#[derive(Clone, Debug, PartialEq, Eq, PartialOrd, Ord, Hash)]
pub enum SessionId {
    ActivityId(String),
    SessionName(String),
    LogonId(String),
}

/// A `SessionId` with its text as a sequence of characters.
pub enum SessionKey {
    ActivityId(Seq<char>),
    SessionName(Seq<char>),
    LogonId(Seq<char>),
}

impl View for SessionId {
    type V = SessionKey;

    open spec fn view(&self) -> SessionKey {
        match self {
            SessionId::ActivityId(s) => SessionKey::ActivityId(s@),
            SessionId::SessionName(s) => SessionKey::SessionName(s@),
            SessionId::LogonId(s) => SessionKey::LogonId(s@),
        }
    }
}

impl SessionKey {
    /// The text of the key, whatever its kind.
    pub open spec fn text(self) -> Seq<char> {
        match self {
            SessionKey::ActivityId(s) => s,
            SessionKey::SessionName(s) => s,
            SessionKey::LogonId(s) => s,
        }
    }
}

/// A record lacks the field that holds its session key, or holds something
/// other than text there.
#[derive(Clone, Copy, Debug, PartialEq, Eq, Structural)]
pub struct MissingKey;

impl SessionId {
    /// Whether `self` and `other` are the same key.
    pub fn same_as(&self, other: &SessionId) -> (same: bool)
        ensures
            same == (self@ == other@),
    {
        match (self, other) {
            (SessionId::ActivityId(a), SessionId::ActivityId(b)) => same_text(a.as_str(), b.as_str()),
            (SessionId::SessionName(a), SessionId::SessionName(b)) => same_text(
                a.as_str(),
                b.as_str(),
            ),
            (SessionId::LogonId(a), SessionId::LogonId(b)) => same_text(a.as_str(), b.as_str()),
            _ => false,
        }
    }

    /// The text of the key, whatever its kind.
    pub fn value(&self) -> (text: &str)
        ensures
            text@ == self@.text(),
    {
        match self {
            SessionId::ActivityId(s) => s.as_str(),
            SessionId::SessionName(s) => s.as_str(),
            SessionId::LogonId(s) => s.as_str(),
        }
    }

    /// A key of the same kind that holds the same text.
    pub fn duplicate(&self) -> (copy: SessionId)
        ensures
            copy@ == self@,
    {
        match self {
            SessionId::ActivityId(s) => SessionId::ActivityId(s.clone()),
            SessionId::SessionName(s) => SessionId::SessionName(s.clone()),
            SessionId::LogonId(s) => SessionId::LogonId(s.clone()),
        }
    }
}

/// The text at `Event.System.Correlation.#attributes.ActivityID`.
pub open spec fn activity_id_of(record: AuditRecord) -> Option<Seq<char>> {
    match record.data.member3("Event"@, "System"@, "Correlation"@) {
        Some(correlation) => match correlation.member2("#attributes"@, "ActivityID"@) {
            Some(id) => id.text(),
            None => None,
        },
        None => None,
    }
}

/// A rule that reads the session key out of a record. It looks at that one
/// record only.
pub trait SessionIdGenerator {
    /// The key that the rule finds in `record`.
    spec fn key_of(record: AuditRecord) -> Result<SessionKey, MissingKey>;

    fn session_id_of(record: &AuditRecord) -> (result: Result<SessionId, MissingKey>)
        ensures
            match result {
                Ok(id) => Self::key_of(*record) == Ok::<SessionKey, MissingKey>(id@),
                Err(e) => Self::key_of(*record) == Err::<SessionKey, MissingKey>(e),
            },
    ;
}

/// The key is the session's name among the event's own data.
pub struct SessionNameInEventData {}

impl SessionIdGenerator for SessionNameInEventData {
    open spec fn key_of(record: AuditRecord) -> Result<SessionKey, MissingKey> {
        match event_text_of(record.data, "SessionName"@) {
            Some(name) => Ok(SessionKey::SessionName(name)),
            None => Err(MissingKey),
        }
    }

    fn session_id_of(record: &AuditRecord) -> (result: Result<SessionId, MissingKey>) {
        match record.owned_event_text("SessionName") {
            Some(name) => Ok(SessionId::SessionName(name)),
            None => Err(MissingKey),
        }
    }
}

/// The key is the activity identifier by which the system correlates records.
pub struct SessionNameInActivityId {}

impl SessionIdGenerator for SessionNameInActivityId {
    open spec fn key_of(record: AuditRecord) -> Result<SessionKey, MissingKey> {
        match activity_id_of(record) {
            Some(id) => Ok(SessionKey::ActivityId(id)),
            None => Err(MissingKey),
        }
    }

    fn session_id_of(record: &AuditRecord) -> (result: Result<SessionId, MissingKey>) {
        let found: Option<&str> = match record.data.get3("Event", "System", "Correlation") {
            Some(correlation) => match correlation.get2("#attributes", "ActivityID") {
                Some(id) => id.as_str(),
                None => None,
            },
            None => None,
        };
        match found {
            Some(id) => Ok(SessionId::ActivityId(id.to_owned())),
            None => Err(MissingKey),
        }
    }
}

/// The key is the logon identifier of the account that was logged on or off.
pub struct SessionNameInTargetLogonId {}

impl SessionIdGenerator for SessionNameInTargetLogonId {
    open spec fn key_of(record: AuditRecord) -> Result<SessionKey, MissingKey> {
        match event_text_of(record.data, "TargetLogonId"@) {
            Some(id) => Ok(SessionKey::LogonId(id)),
            None => Err(MissingKey),
        }
    }

    fn session_id_of(record: &AuditRecord) -> (result: Result<SessionId, MissingKey>) {
        match record.owned_event_text("TargetLogonId") {
            Some(id) => Ok(SessionId::LogonId(id)),
            None => Err(MissingKey),
        }
    }
}

/// The key is the logon identifier of the account that acted.
pub struct SessionNameInSubjectLogonId {}

impl SessionIdGenerator for SessionNameInSubjectLogonId {
    open spec fn key_of(record: AuditRecord) -> Result<SessionKey, MissingKey> {
        match event_text_of(record.data, "SubjectLogonId"@) {
            Some(id) => Ok(SessionKey::LogonId(id)),
            None => Err(MissingKey),
        }
    }

    fn session_id_of(record: &AuditRecord) -> (result: Result<SessionId, MissingKey>) {
        match record.owned_event_text("SubjectLogonId") {
            Some(id) => Ok(SessionId::LogonId(id)),
            None => Err(MissingKey),
        }
    }
}

/// The key is the logon identifier stated in the event's own data.
pub struct SessionNameInLogonId {}

impl SessionIdGenerator for SessionNameInLogonId {
    open spec fn key_of(record: AuditRecord) -> Result<SessionKey, MissingKey> {
        match event_text_of(record.data, "LogonId"@) {
            Some(id) => Ok(SessionKey::LogonId(id)),
            None => Err(MissingKey),
        }
    }

    fn session_id_of(record: &AuditRecord) -> (result: Result<SessionId, MissingKey>) {
        match record.owned_event_text("LogonId") {
            Some(id) => Ok(SessionId::LogonId(id)),
            None => Err(MissingKey),
        }
    }
}

} // verus!
