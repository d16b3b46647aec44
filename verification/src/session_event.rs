//! The events that belong to sessions: which records are such events, of
//! what kind each is, and under which key it is filed.

use vstd::prelude::*;
use crate::event_id::EventId;
use crate::event_provider::EventProvider;
use crate::record::{AuditRecord, EventKey};
use crate::session_id::{
    MissingKey, SessionId, SessionIdGenerator, SessionKey, SessionNameInActivityId,
    SessionNameInLogonId, SessionNameInTargetLogonId,
};

verus! {

/// The rule by which the events of a kind are filed under a session.
#[derive(Clone, Copy, Debug, PartialEq, Eq, Structural)]
pub enum KeyStrategy {
    ActivityId,
    TargetLogonId,
    LogonId,
}

/// The kinds of event that belong to sessions.
#[derive(Clone, Copy, Debug, PartialEq, Eq, Structural)]
pub enum EventKind {
    TSRCMUserAuthenticationSucceeded,
    TSLCMSessionLogonSucceeded,
    TSLCMShellStartNotificationReceived,
    TSLCMSessionLogoffSucceeded,
    TSLCMSessionHasBeenDisconnected,
    TSLCMSessionReconnectionSucceeded,
    TSLCMSessionXHasBeenDisconnectedBySessionY,
    TSLCMSessionXHasBeenDisconnectedReasonCodeZ,
    SecuritySuccessfulLogin,
    SecurityFailedLogin,
    SecuritySuccessfulLogoff,
    SecurityUserInitiatedLogoff,
    SecuritySessionWasReconnected,
    SecuritySessionWasDisconnected,
}

/// Why a record gives no session event.
#[derive(Clone, Copy, Debug, PartialEq, Eq, Structural)]
pub enum SessionEventError {
    /// The record is of no kind that belongs to sessions.
    NoSessionEvent,
    /// The record is of such a kind but lacks the field that holds its key.
    MalformedRecord,
}

impl EventKind {
    /// The event code of the kind.
    pub open spec fn code(self) -> u16 {
        match self {
            EventKind::TSRCMUserAuthenticationSucceeded => 1149u16,
            EventKind::TSLCMSessionLogonSucceeded => 21u16,
            EventKind::TSLCMShellStartNotificationReceived => 22u16,
            EventKind::TSLCMSessionLogoffSucceeded => 23u16,
            EventKind::TSLCMSessionHasBeenDisconnected => 24u16,
            EventKind::TSLCMSessionReconnectionSucceeded => 25u16,
            EventKind::TSLCMSessionXHasBeenDisconnectedBySessionY => 39u16,
            EventKind::TSLCMSessionXHasBeenDisconnectedReasonCodeZ => 40u16,
            EventKind::SecuritySuccessfulLogin => 4624u16,
            EventKind::SecurityFailedLogin => 4625u16,
            EventKind::SecuritySuccessfulLogoff => 4634u16,
            EventKind::SecurityUserInitiatedLogoff => 4647u16,
            EventKind::SecuritySessionWasReconnected => 4778u16,
            EventKind::SecuritySessionWasDisconnected => 4779u16,
        }
    }

    /// The provider whose records are of this kind.
    pub open spec fn supplier(self) -> EventProvider {
        match self {
            EventKind::TSRCMUserAuthenticationSucceeded => EventProvider::TerminalServicesRemoteConnectionManager,
            EventKind::TSLCMSessionLogonSucceeded => EventProvider::TerminalServicesLocalConnectionManager,
            EventKind::TSLCMShellStartNotificationReceived => EventProvider::TerminalServicesLocalConnectionManager,
            EventKind::TSLCMSessionLogoffSucceeded => EventProvider::TerminalServicesLocalConnectionManager,
            EventKind::TSLCMSessionHasBeenDisconnected => EventProvider::TerminalServicesLocalConnectionManager,
            EventKind::TSLCMSessionReconnectionSucceeded => EventProvider::TerminalServicesLocalConnectionManager,
            EventKind::TSLCMSessionXHasBeenDisconnectedBySessionY => EventProvider::TerminalServicesLocalConnectionManager,
            EventKind::TSLCMSessionXHasBeenDisconnectedReasonCodeZ => EventProvider::TerminalServicesLocalConnectionManager,
            EventKind::SecuritySuccessfulLogin => EventProvider::SecurityAuditing,
            EventKind::SecurityFailedLogin => EventProvider::SecurityAuditing,
            EventKind::SecuritySuccessfulLogoff => EventProvider::SecurityAuditing,
            EventKind::SecurityUserInitiatedLogoff => EventProvider::SecurityAuditing,
            EventKind::SecuritySessionWasReconnected => EventProvider::SecurityAuditing,
            EventKind::SecuritySessionWasDisconnected => EventProvider::SecurityAuditing,
        }
    }

    /// The rule by which events of this kind are filed.
    pub open spec fn rule(self) -> KeyStrategy {
        match self {
            EventKind::TSRCMUserAuthenticationSucceeded => KeyStrategy::ActivityId,
            EventKind::TSLCMSessionLogonSucceeded => KeyStrategy::ActivityId,
            EventKind::TSLCMShellStartNotificationReceived => KeyStrategy::ActivityId,
            EventKind::TSLCMSessionLogoffSucceeded => KeyStrategy::ActivityId,
            EventKind::TSLCMSessionHasBeenDisconnected => KeyStrategy::ActivityId,
            EventKind::TSLCMSessionReconnectionSucceeded => KeyStrategy::ActivityId,
            EventKind::TSLCMSessionXHasBeenDisconnectedBySessionY => KeyStrategy::ActivityId,
            EventKind::TSLCMSessionXHasBeenDisconnectedReasonCodeZ => KeyStrategy::ActivityId,
            EventKind::SecuritySuccessfulLogin => KeyStrategy::TargetLogonId,
            EventKind::SecurityFailedLogin => KeyStrategy::ActivityId,
            EventKind::SecuritySuccessfulLogoff => KeyStrategy::TargetLogonId,
            EventKind::SecurityUserInitiatedLogoff => KeyStrategy::TargetLogonId,
            EventKind::SecuritySessionWasReconnected => KeyStrategy::LogonId,
            EventKind::SecuritySessionWasDisconnected => KeyStrategy::LogonId,
        }
    }

    /// What an event of this kind reports, in words.
    pub open spec fn meaning(self) -> Seq<char> {
        match self {
            EventKind::TSRCMUserAuthenticationSucceeded => "User authentication succeeded"@,
            EventKind::TSLCMSessionLogonSucceeded => "Remote Desktop Services: Session logon succeeded"@,
            EventKind::TSLCMShellStartNotificationReceived => "Remote Desktop Services: Shell start notification received"@,
            EventKind::TSLCMSessionLogoffSucceeded => "Remote Desktop Services: Session logoff succeeded"@,
            EventKind::TSLCMSessionHasBeenDisconnected => "Remote Desktop Services: Session has been disconnected"@,
            EventKind::TSLCMSessionReconnectionSucceeded => "Remote Desktop Services: Session reconnection succeeded"@,
            EventKind::TSLCMSessionXHasBeenDisconnectedBySessionY => "Session <X> has been disconnected by session <Y>"@,
            EventKind::TSLCMSessionXHasBeenDisconnectedReasonCodeZ => "Session <X> has been disconnected, reason code <Z>"@,
            EventKind::SecuritySuccessfulLogin => "An account was successfully logged on"@,
            EventKind::SecurityFailedLogin => "An account failed to log on"@,
            EventKind::SecuritySuccessfulLogoff => "An account was successfully logged off"@,
            EventKind::SecurityUserInitiatedLogoff => "User initiated logoff"@,
            EventKind::SecuritySessionWasReconnected => "A session was reconnected to a Window Station"@,
            EventKind::SecuritySessionWasDisconnected => "A session was disconnected from a Window Station."@,
        }
    }

    /// The kind registered for records of `provider` with the code `code`.
    pub open spec fn registered(provider: EventProvider, code: u16) -> Option<EventKind> {
        match provider {
            EventProvider::TerminalServicesRemoteConnectionManager => if code == 1149 {
                Some(EventKind::TSRCMUserAuthenticationSucceeded)
            } else {
                None
            },
            EventProvider::TerminalServicesLocalConnectionManager => if code == 21 {
                Some(EventKind::TSLCMSessionLogonSucceeded)
            } else if code == 22 {
                Some(EventKind::TSLCMShellStartNotificationReceived)
            } else if code == 23 {
                Some(EventKind::TSLCMSessionLogoffSucceeded)
            } else if code == 24 {
                Some(EventKind::TSLCMSessionHasBeenDisconnected)
            } else if code == 25 {
                Some(EventKind::TSLCMSessionReconnectionSucceeded)
            } else if code == 39 {
                Some(EventKind::TSLCMSessionXHasBeenDisconnectedBySessionY)
            } else if code == 40 {
                Some(EventKind::TSLCMSessionXHasBeenDisconnectedReasonCodeZ)
            } else {
                None
            },
            EventProvider::SecurityAuditing => if code == 4624 {
                Some(EventKind::SecuritySuccessfulLogin)
            } else if code == 4625 {
                Some(EventKind::SecurityFailedLogin)
            } else if code == 4634 {
                Some(EventKind::SecuritySuccessfulLogoff)
            } else if code == 4647 {
                Some(EventKind::SecurityUserInitiatedLogoff)
            } else if code == 4778 {
                Some(EventKind::SecuritySessionWasReconnected)
            } else if code == 4779 {
                Some(EventKind::SecuritySessionWasDisconnected)
            } else {
                None
            },
            _ => None,
        }
    }

    /// The key under which the rule of this kind files `record`.
    pub open spec fn key_of(self, record: AuditRecord) -> Result<SessionKey, MissingKey> {
        match self.rule() {
            KeyStrategy::ActivityId => SessionNameInActivityId::key_of(record),
            KeyStrategy::TargetLogonId => SessionNameInTargetLogonId::key_of(record),
            KeyStrategy::LogonId => SessionNameInLogonId::key_of(record),
        }
    }

    /// The rule by which events of this kind are filed.
    pub fn strategy(&self) -> (strategy: KeyStrategy)
        ensures
            strategy == self.rule(),
    {
        match self {
            EventKind::TSRCMUserAuthenticationSucceeded => KeyStrategy::ActivityId,
            EventKind::TSLCMSessionLogonSucceeded => KeyStrategy::ActivityId,
            EventKind::TSLCMShellStartNotificationReceived => KeyStrategy::ActivityId,
            EventKind::TSLCMSessionLogoffSucceeded => KeyStrategy::ActivityId,
            EventKind::TSLCMSessionHasBeenDisconnected => KeyStrategy::ActivityId,
            EventKind::TSLCMSessionReconnectionSucceeded => KeyStrategy::ActivityId,
            EventKind::TSLCMSessionXHasBeenDisconnectedBySessionY => KeyStrategy::ActivityId,
            EventKind::TSLCMSessionXHasBeenDisconnectedReasonCodeZ => KeyStrategy::ActivityId,
            EventKind::SecuritySuccessfulLogin => KeyStrategy::TargetLogonId,
            EventKind::SecurityFailedLogin => KeyStrategy::ActivityId,
            EventKind::SecuritySuccessfulLogoff => KeyStrategy::TargetLogonId,
            EventKind::SecurityUserInitiatedLogoff => KeyStrategy::TargetLogonId,
            EventKind::SecuritySessionWasReconnected => KeyStrategy::LogonId,
            EventKind::SecuritySessionWasDisconnected => KeyStrategy::LogonId,
        }
    }

    /// Looks up the kind of the records of `provider` with the code `code`.
    /// A kind that is found has that provider and that code.
    pub fn lookup(provider: EventProvider, code: u16) -> (found: Option<EventKind>)
        ensures
            found == Self::registered(provider, code),
            found matches Some(kind) ==> kind.supplier() == provider && kind.code() == code,
    {
        match provider {
            EventProvider::TerminalServicesRemoteConnectionManager => match code {
                1149 => Some(EventKind::TSRCMUserAuthenticationSucceeded),
                _ => None,
            },
            EventProvider::TerminalServicesLocalConnectionManager => match code {
                21 => Some(EventKind::TSLCMSessionLogonSucceeded),
                22 => Some(EventKind::TSLCMShellStartNotificationReceived),
                23 => Some(EventKind::TSLCMSessionLogoffSucceeded),
                24 => Some(EventKind::TSLCMSessionHasBeenDisconnected),
                25 => Some(EventKind::TSLCMSessionReconnectionSucceeded),
                39 => Some(EventKind::TSLCMSessionXHasBeenDisconnectedBySessionY),
                40 => Some(EventKind::TSLCMSessionXHasBeenDisconnectedReasonCodeZ),
                _ => None,
            },
            EventProvider::SecurityAuditing => match code {
                4624 => Some(EventKind::SecuritySuccessfulLogin),
                4625 => Some(EventKind::SecurityFailedLogin),
                4634 => Some(EventKind::SecuritySuccessfulLogoff),
                4647 => Some(EventKind::SecurityUserInitiatedLogoff),
                4778 => Some(EventKind::SecuritySessionWasReconnected),
                4779 => Some(EventKind::SecuritySessionWasDisconnected),
                _ => None,
            },
            _ => None,
        }
    }

}

/// What is known of a kind of session event: its code, its provider, what
/// it reports, and how the key of its session is read.
pub trait SessionEventInfo {
    /// The kind that is described.
    spec fn described(&self) -> EventKind;

    fn event_id(&self) -> (id: EventId)
        ensures
            id == EventId(self.described().code()),
    ;

    fn description(&self) -> (text: &'static str)
        ensures
            text@ == self.described().meaning(),
    ;

    fn provider(&self) -> (provider: EventProvider)
        ensures
            provider == self.described().supplier(),
    ;

    /// Reads the key under which `record` is filed as an event of this kind.
    fn generate_id(&self, record: &AuditRecord) -> (result: Result<SessionId, MissingKey>)
        ensures
            match result {
                Ok(id) => self.described().key_of(*record) == Ok::<SessionKey, MissingKey>(id@),
                Err(e) => self.described().key_of(*record) == Err::<SessionKey, MissingKey>(e),
            },
    ;
}

impl SessionEventInfo for EventKind {
    open spec fn described(&self) -> EventKind {
        *self
    }

    fn event_id(&self) -> (id: EventId) {
        match self {
            EventKind::TSRCMUserAuthenticationSucceeded => EventId(1149),
            EventKind::TSLCMSessionLogonSucceeded => EventId(21),
            EventKind::TSLCMShellStartNotificationReceived => EventId(22),
            EventKind::TSLCMSessionLogoffSucceeded => EventId(23),
            EventKind::TSLCMSessionHasBeenDisconnected => EventId(24),
            EventKind::TSLCMSessionReconnectionSucceeded => EventId(25),
            EventKind::TSLCMSessionXHasBeenDisconnectedBySessionY => EventId(39),
            EventKind::TSLCMSessionXHasBeenDisconnectedReasonCodeZ => EventId(40),
            EventKind::SecuritySuccessfulLogin => EventId(4624),
            EventKind::SecurityFailedLogin => EventId(4625),
            EventKind::SecuritySuccessfulLogoff => EventId(4634),
            EventKind::SecurityUserInitiatedLogoff => EventId(4647),
            EventKind::SecuritySessionWasReconnected => EventId(4778),
            EventKind::SecuritySessionWasDisconnected => EventId(4779),
        }
    }

    fn description(&self) -> (text: &'static str) {
        match self {
            EventKind::TSRCMUserAuthenticationSucceeded => "User authentication succeeded",
            EventKind::TSLCMSessionLogonSucceeded => "Remote Desktop Services: Session logon succeeded",
            EventKind::TSLCMShellStartNotificationReceived => "Remote Desktop Services: Shell start notification received",
            EventKind::TSLCMSessionLogoffSucceeded => "Remote Desktop Services: Session logoff succeeded",
            EventKind::TSLCMSessionHasBeenDisconnected => "Remote Desktop Services: Session has been disconnected",
            EventKind::TSLCMSessionReconnectionSucceeded => "Remote Desktop Services: Session reconnection succeeded",
            EventKind::TSLCMSessionXHasBeenDisconnectedBySessionY => "Session <X> has been disconnected by session <Y>",
            EventKind::TSLCMSessionXHasBeenDisconnectedReasonCodeZ => "Session <X> has been disconnected, reason code <Z>",
            EventKind::SecuritySuccessfulLogin => "An account was successfully logged on",
            EventKind::SecurityFailedLogin => "An account failed to log on",
            EventKind::SecuritySuccessfulLogoff => "An account was successfully logged off",
            EventKind::SecurityUserInitiatedLogoff => "User initiated logoff",
            EventKind::SecuritySessionWasReconnected => "A session was reconnected to a Window Station",
            EventKind::SecuritySessionWasDisconnected => "A session was disconnected from a Window Station.",
        }
    }

    fn provider(&self) -> (provider: EventProvider) {
        match self {
            EventKind::TSRCMUserAuthenticationSucceeded => EventProvider::TerminalServicesRemoteConnectionManager,
            EventKind::TSLCMSessionLogonSucceeded => EventProvider::TerminalServicesLocalConnectionManager,
            EventKind::TSLCMShellStartNotificationReceived => EventProvider::TerminalServicesLocalConnectionManager,
            EventKind::TSLCMSessionLogoffSucceeded => EventProvider::TerminalServicesLocalConnectionManager,
            EventKind::TSLCMSessionHasBeenDisconnected => EventProvider::TerminalServicesLocalConnectionManager,
            EventKind::TSLCMSessionReconnectionSucceeded => EventProvider::TerminalServicesLocalConnectionManager,
            EventKind::TSLCMSessionXHasBeenDisconnectedBySessionY => EventProvider::TerminalServicesLocalConnectionManager,
            EventKind::TSLCMSessionXHasBeenDisconnectedReasonCodeZ => EventProvider::TerminalServicesLocalConnectionManager,
            EventKind::SecuritySuccessfulLogin => EventProvider::SecurityAuditing,
            EventKind::SecurityFailedLogin => EventProvider::SecurityAuditing,
            EventKind::SecuritySuccessfulLogoff => EventProvider::SecurityAuditing,
            EventKind::SecurityUserInitiatedLogoff => EventProvider::SecurityAuditing,
            EventKind::SecuritySessionWasReconnected => EventProvider::SecurityAuditing,
            EventKind::SecuritySessionWasDisconnected => EventProvider::SecurityAuditing,
        }
    }

    fn generate_id(&self, record: &AuditRecord) -> (result: Result<SessionId, MissingKey>) {
        match self.strategy() {
            KeyStrategy::ActivityId => SessionNameInActivityId::session_id_of(record),
            KeyStrategy::TargetLogonId => SessionNameInTargetLogonId::session_id_of(record),
            KeyStrategy::LogonId => SessionNameInLogonId::session_id_of(record),
        }
    }
}

/// A record that belongs to a session, with its kind and its key.
#[derive(Debug)]
pub struct SessionEvent {
    pub kind: EventKind,
    pub record: AuditRecord,
    pub session_id: SessionId,
}

/// One event as a row of a table.
#[derive(Clone, Copy, Debug, PartialEq, Eq, Structural)]
pub struct EventRow {
    pub timestamp: crate::record::Timestamp,
    pub event_record_id: u64,
    pub event_id: EventId,
    pub provider: EventProvider,
    pub kind: EventKind,
}

/// A `SessionEvent` with its key as a `SessionKey`.
pub struct SessionEventView {
    pub kind: EventKind,
    pub record: AuditRecord,
    pub id: SessionKey,
}

impl View for SessionEvent {
    type V = SessionEventView;

    open spec fn view(&self) -> SessionEventView {
        SessionEventView { kind: self.kind, record: self.record, id: self.session_id@ }
    }
}

impl SessionEventView {
    /// The place of the event in the order of events.
    pub open spec fn key(self) -> EventKey {
        self.record.key()
    }
}

impl SessionEvent {
    /// What `try_from` makes of `record`: an event of the kind registered
    /// for its provider and code, filed under the key that the kind's rule
    /// reads, where there is such a kind and such a key.
    pub open spec fn classified(record: AuditRecord) -> Result<SessionEventView, SessionEventError> {
        match EventId::parsed(record) {
            Err(_) => Err(SessionEventError::NoSessionEvent),
            Ok(id) => match EventKind::registered(EventProvider::of_record(record), id.0) {
                None => Err(SessionEventError::NoSessionEvent),
                Some(kind) => match kind.key_of(record) {
                    Ok(key) => Ok(SessionEventView { kind, record, id: key }),
                    Err(_) => Err(SessionEventError::MalformedRecord),
                },
            },
        }
    }

    /// Classifies `record`.
    pub fn try_from(record: AuditRecord) -> (result: Result<SessionEvent, SessionEventError>)
        ensures
            match result {
                Ok(event) => Self::classified(record) == Ok::<SessionEventView, SessionEventError>(
                    event@,
                ),
                Err(e) => Self::classified(record) == Err::<SessionEventView, SessionEventError>(e),
            },
    {
        let event_id = match EventId::try_from(&record) {
            Ok(id) => id,
            Err(_) => {
                return Err(SessionEventError::NoSessionEvent);
            },
        };
        let provider = EventProvider::try_from(&record);
        let kind = match EventKind::lookup(provider, event_id.value()) {
            Some(kind) => kind,
            None => {
                return Err(SessionEventError::NoSessionEvent);
            },
        };
        match kind.generate_id(&record) {
            Ok(session_id) => Ok(SessionEvent { kind, record, session_id }),
            Err(_) => Err(SessionEventError::MalformedRecord),
        }
    }

    /// The record of the event.
    pub fn record(&self) -> (record: &AuditRecord)
        ensures
            *record == self.record,
    {
        &self.record
    }

    /// The key under which the event is filed.
    pub fn session_id(&self) -> (id: &SessionId)
        ensures
            *id == self.session_id,
    {
        &self.session_id
    }

    /// The kind of the event.
    pub fn kind(&self) -> (kind: EventKind)
        ensures
            kind == self.kind,
    {
        self.kind
    }

    /// The row that shows `event`.
    pub open spec fn row_of(event: SessionEventView) -> EventRow {
        EventRow {
            timestamp: event.record.timestamp,
            event_record_id: event.record.event_record_id,
            event_id: EventId(event.kind.code()),
            provider: event.kind.supplier(),
            kind: event.kind,
        }
    }

    /// The event as a row of a table.
    pub fn row(&self) -> (row: EventRow)
        ensures
            row == Self::row_of(self@),
    {
        EventRow {
            timestamp: self.record.timestamp,
            event_record_id: self.record.event_record_id,
            event_id: self.kind.event_id(),
            provider: self.kind.provider(),
            kind: self.kind,
        }
    }

    /// Whether this event comes before `other` in the order of events: it
    /// is earlier, or of the same instant and stored under a smaller number.
    pub fn is_before(&self, other: &SessionEvent) -> (before: bool)
        ensures
            before == self@.key().before(other@.key()),
    {
        let a = &self.record;
        let b = &other.record;
        a.timestamp.is_before(&b.timestamp) || (a.timestamp.secs == b.timestamp.secs
            && a.timestamp.nanos == b.timestamp.nanos && a.event_record_id < b.event_record_id)
    }
}

} // verus!
