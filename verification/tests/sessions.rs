use evtxanalyze::event_id::{EventId, EventIdError, EvtxFieldView, EVENT_ID_MAX_LENGTH};
use evtxanalyze::event_level::{EventLevel, EventLevelError};
use evtxanalyze::event_provider::EventProvider;
use evtxanalyze::record::{AuditRecord, Timestamp};
use evtxanalyze::session::Session;
use evtxanalyze::session_event::{EventKind, KeyStrategy, SessionEvent, SessionEventError, SessionEventInfo};
use evtxanalyze::session_id::{
    MissingKey, SessionId, SessionIdGenerator, SessionNameInActivityId, SessionNameInEventData,
    SessionNameInLogonId, SessionNameInSubjectLogonId, SessionNameInTargetLogonId,
};
use evtxanalyze::session_store::SessionStore;
use evtxanalyze::value::FieldValue;

const SECURITY: &str = "Microsoft-Windows-Security-Auditing";
const LOCAL: &str = "Microsoft-Windows-TerminalServices-LocalSessionManager";
const REMOTE: &str = "Microsoft-Windows-Terminal-Services-RemoteConnectionManager";

fn text(s: &str) -> FieldValue {
    FieldValue::Text(s.to_string())
}

fn object(members: Vec<(&str, FieldValue)>) -> FieldValue {
    FieldValue::Object(members.into_iter().map(|(k, v)| (k.to_string(), v)).collect())
}

fn record(secs: i64, record_id: u64, provider: &str, code: u64, activity: Option<&str>, data: Vec<(&str, &str)>) -> AuditRecord {
    let mut system = vec![
        ("Provider", object(vec![("#attributes", object(vec![("Name", text(provider))]))])),
        ("EventID", FieldValue::Number(code)),
        ("Level", FieldValue::Number(4)),
    ];
    if let Some(id) = activity {
        system.push(("Correlation", object(vec![("#attributes", object(vec![("ActivityID", text(id))]))])));
    }
    let event_data = object(data.into_iter().map(|(k, v)| (k, text(v))).collect());
    AuditRecord {
        timestamp: Timestamp { secs, nanos: 0 },
        event_record_id: record_id,
        data: object(vec![("Event", object(vec![("System", object(system)), ("EventData", event_data)]))]),
    }
}

fn logon(secs: i64, record_id: u64, logon_id: &str, user: Option<&str>) -> AuditRecord {
    let mut data = vec![("TargetLogonId", logon_id)];
    if let Some(user) = user {
        data.push(("TargetUserName", user));
    }
    record(secs, record_id, SECURITY, 4624, None, data)
}

fn logoff(secs: i64, record_id: u64, logon_id: &str) -> AuditRecord {
    record(secs, record_id, SECURITY, 4634, None, vec![("TargetLogonId", logon_id)])
}

fn places(session: &Session) -> Vec<(i64, u64)> {
    session.events.iter().map(|e| (e.record.timestamp.secs, e.record.event_record_id)).collect()
}

fn digest(store: SessionStore) -> Vec<(SessionId, Vec<(i64, u64)>, Vec<String>)> {
    let mut all: Vec<(SessionId, Vec<(i64, u64)>, Vec<String>)> = store
        .sessions
        .iter()
        .map(|s| {
            let mut names = s.usernames.clone();
            names.sort();
            (s.session_id.clone(), places(s), names)
        })
        .collect();
    all.sort();
    all
}

#[test]
fn event_code_is_read() {
    let plain = record(1, 1, SECURITY, 4624, None, vec![]);
    assert_eq!(EventId::try_from(&plain), Ok(EventId(4624)));
    let with_attributes = AuditRecord {
        timestamp: Timestamp { secs: 1, nanos: 0 },
        event_record_id: 1,
        data: object(vec![(
            "Event",
            object(vec![(
                "System",
                object(vec![(
                    "EventID",
                    object(vec![("#attributes", object(vec![])), ("#text", FieldValue::Number(21))]),
                )]),
            )]),
        )]),
    };
    assert_eq!(EventId::try_from(&with_attributes), Ok(EventId(21)));
    assert_eq!(EventId::try_from(&with_attributes).unwrap().value(), 21);
}

#[test]
fn event_code_errors() {
    let none = AuditRecord { timestamp: Timestamp { secs: 1, nanos: 0 }, event_record_id: 1, data: FieldValue::Null };
    assert_eq!(EventId::try_from(&none), Err(EventIdError::Missing));
    let as_text = AuditRecord {
        timestamp: Timestamp { secs: 1, nanos: 0 },
        event_record_id: 1,
        data: object(vec![("Event", object(vec![("System", object(vec![("EventID", text("4624"))]))]))]),
    };
    assert_eq!(EventId::try_from(&as_text), Err(EventIdError::Missing));
    let big = record(1, 1, SECURITY, 65536, None, vec![]);
    assert_eq!(EventId::try_from(&big), Err(EventIdError::OutOfRange));
    let largest = record(1, 1, SECURITY, 65535, None, vec![]);
    assert_eq!(EventId::try_from(&largest), Ok(EventId(65535)));
}

#[test]
fn event_code_converts_to_and_from_its_number() {
    assert_eq!(EventId::from(4688u16), EventId(4688));
    assert_eq!(u16::from(EventId(4688)), 4688);
    assert_eq!(EventId(1).maximum_display_length(), 5);
    assert_eq!(EVENT_ID_MAX_LENGTH, 5);
}

#[test]
fn levels_are_named_by_numbers() {
    assert_eq!(EventLevel::try_from(0), Ok(EventLevel::LogAlways));
    assert_eq!(EventLevel::try_from(1), Ok(EventLevel::Critical));
    assert_eq!(EventLevel::try_from(2), Ok(EventLevel::Error));
    assert_eq!(EventLevel::try_from(3), Ok(EventLevel::Warning));
    assert_eq!(EventLevel::try_from(4), Ok(EventLevel::Information));
    assert_eq!(EventLevel::try_from(5), Ok(EventLevel::LogAlways));
    assert_eq!(EventLevel::try_from(6), Err(EventLevelError::Unknown));
    assert_eq!(EventLevel::try_from(u64::MAX), Err(EventLevelError::Unknown));
}

#[test]
fn level_of_a_record() {
    let with_level = record(1, 1, SECURITY, 4624, None, vec![]);
    assert_eq!(EventLevel::try_from_record(&with_level), Ok(EventLevel::Information));
    let without = AuditRecord { timestamp: Timestamp { secs: 1, nanos: 0 }, event_record_id: 1, data: FieldValue::Null };
    assert_eq!(EventLevel::try_from_record(&without), Err(EventLevelError::Missing));
    assert_eq!(EventLevel::Critical.symbol(), "\u{1f4a2}");
    assert_eq!(EventLevel::Warning.symbol(), "\u{26a0}\u{fe0f}");
}

#[test]
fn providers_are_known_by_name() {
    assert_eq!(EventProvider::from_name(SECURITY), EventProvider::SecurityAuditing);
    assert_eq!(EventProvider::from_name(LOCAL), EventProvider::TerminalServicesLocalConnectionManager);
    assert_eq!(EventProvider::from_name(REMOTE), EventProvider::TerminalServicesRemoteConnectionManager);
    assert_eq!(EventProvider::from_name("Desktop Window Manager"), EventProvider::DesktopWindowManager);
    assert_eq!(EventProvider::from_name("Service Control Manager"), EventProvider::UnsupportedProvider);
    assert_eq!(EventProvider::SecurityAuditing.name(), SECURITY);
    assert_eq!(EventProvider::UnsupportedProvider.name(), "UNSUPPORTED PROVIDER");
    let rec = record(1, 1, LOCAL, 21, Some("S-1"), vec![]);
    assert_eq!(EventProvider::try_from(&rec), EventProvider::TerminalServicesLocalConnectionManager);
    let none = AuditRecord { timestamp: Timestamp { secs: 1, nanos: 0 }, event_record_id: 1, data: FieldValue::Null };
    assert_eq!(EventProvider::try_from(&none), EventProvider::UnsupportedProvider);
}

#[test]
fn keys_are_read_by_each_rule() {
    let rec = record(
        1,
        1,
        SECURITY,
        4624,
        Some("{A-1}"),
        vec![("TargetLogonId", "0x3e7"), ("SubjectLogonId", "0x3e4"), ("LogonId", "0x11"), ("SessionName", "RDP-Tcp#3")],
    );
    assert_eq!(SessionNameInActivityId::session_id_of(&rec), Ok(SessionId::ActivityId("{A-1}".to_string())));
    assert_eq!(SessionNameInTargetLogonId::session_id_of(&rec), Ok(SessionId::LogonId("0x3e7".to_string())));
    assert_eq!(SessionNameInSubjectLogonId::session_id_of(&rec), Ok(SessionId::LogonId("0x3e4".to_string())));
    assert_eq!(SessionNameInLogonId::session_id_of(&rec), Ok(SessionId::LogonId("0x11".to_string())));
    assert_eq!(SessionNameInEventData::session_id_of(&rec), Ok(SessionId::SessionName("RDP-Tcp#3".to_string())));
}

#[test]
fn rules_fail_without_their_field() {
    let rec = record(1, 1, SECURITY, 4624, None, vec![]);
    assert_eq!(SessionNameInActivityId::session_id_of(&rec), Err(MissingKey));
    assert_eq!(SessionNameInTargetLogonId::session_id_of(&rec), Err(MissingKey));
    assert_eq!(SessionNameInSubjectLogonId::session_id_of(&rec), Err(MissingKey));
    assert_eq!(SessionNameInLogonId::session_id_of(&rec), Err(MissingKey));
    assert_eq!(SessionNameInEventData::session_id_of(&rec), Err(MissingKey));
}

#[test]
fn keys_compare_by_kind_and_text() {
    let a = SessionId::LogonId("0x3e7".to_string());
    assert!(a.same_as(&SessionId::LogonId("0x3e7".to_string())));
    assert!(!a.same_as(&SessionId::LogonId("0x3e8".to_string())));
    assert!(!a.same_as(&SessionId::ActivityId("0x3e7".to_string())));
    assert_eq!(a.value(), "0x3e7");
    assert_eq!(a.duplicate(), a);
}

#[test]
fn registered_kinds() {
    let table = [
        (EventProvider::TerminalServicesRemoteConnectionManager, 1149u16, KeyStrategy::ActivityId),
        (EventProvider::TerminalServicesLocalConnectionManager, 21, KeyStrategy::ActivityId),
        (EventProvider::TerminalServicesLocalConnectionManager, 22, KeyStrategy::ActivityId),
        (EventProvider::TerminalServicesLocalConnectionManager, 23, KeyStrategy::ActivityId),
        (EventProvider::TerminalServicesLocalConnectionManager, 24, KeyStrategy::ActivityId),
        (EventProvider::TerminalServicesLocalConnectionManager, 25, KeyStrategy::ActivityId),
        (EventProvider::TerminalServicesLocalConnectionManager, 39, KeyStrategy::ActivityId),
        (EventProvider::TerminalServicesLocalConnectionManager, 40, KeyStrategy::ActivityId),
        (EventProvider::SecurityAuditing, 4624, KeyStrategy::TargetLogonId),
        (EventProvider::SecurityAuditing, 4625, KeyStrategy::ActivityId),
        (EventProvider::SecurityAuditing, 4634, KeyStrategy::TargetLogonId),
        (EventProvider::SecurityAuditing, 4647, KeyStrategy::TargetLogonId),
        (EventProvider::SecurityAuditing, 4778, KeyStrategy::LogonId),
        (EventProvider::SecurityAuditing, 4779, KeyStrategy::LogonId),
    ];
    for (provider, code, strategy) in table {
        let kind = EventKind::lookup(provider, code).unwrap();
        assert_eq!(kind.provider(), provider);
        assert_eq!(kind.event_id(), EventId(code));
        assert_eq!(kind.strategy(), strategy);
    }
    assert_eq!(EventKind::lookup(EventProvider::SecurityAuditing, 21), None);
    assert_eq!(EventKind::lookup(EventProvider::TerminalServicesLocalConnectionManager, 4624), None);
    assert_eq!(EventKind::lookup(EventProvider::DesktopWindowManager, 21), None);
    assert_eq!(EventKind::lookup(EventProvider::UnsupportedProvider, 1149), None);
    assert_eq!(EventKind::SecuritySuccessfulLogin.description(), "An account was successfully logged on");
    assert_eq!(EventKind::TSLCMSessionXHasBeenDisconnectedReasonCodeZ.description(), "Session <X> has been disconnected, reason code <Z>");
}

#[test]
fn records_are_classified() {
    let event = SessionEvent::try_from(logon(5, 9, "0x3e7", Some("alice"))).unwrap();
    assert_eq!(event.kind(), EventKind::SecuritySuccessfulLogin);
    assert_eq!(event.session_id(), &SessionId::LogonId("0x3e7".to_string()));
    assert_eq!(event.record().event_record_id, 9);
    let failed = SessionEvent::try_from(record(5, 1, SECURITY, 4625, Some("{F}"), vec![("TargetLogonId", "0x1")])).unwrap();
    assert_eq!(failed.session_id(), &SessionId::ActivityId("{F}".to_string()));
    let reconnect = SessionEvent::try_from(record(5, 1, SECURITY, 4778, None, vec![("LogonId", "0x77")])).unwrap();
    assert_eq!(reconnect.session_id(), &SessionId::LogonId("0x77".to_string()));
}

#[test]
fn records_of_no_session_are_told_from_malformed_ones() {
    let other = record(5, 1, SECURITY, 4688, None, vec![("TargetLogonId", "0x1")]);
    assert_eq!(SessionEvent::try_from(other).err(), Some(SessionEventError::NoSessionEvent));
    let unknown = record(5, 1, "Service Control Manager", 4624, None, vec![("TargetLogonId", "0x1")]);
    assert_eq!(SessionEvent::try_from(unknown).err(), Some(SessionEventError::NoSessionEvent));
    let empty = AuditRecord { timestamp: Timestamp { secs: 1, nanos: 0 }, event_record_id: 1, data: FieldValue::Null };
    assert_eq!(SessionEvent::try_from(empty).err(), Some(SessionEventError::NoSessionEvent));
    let keyless = record(5, 1, SECURITY, 4624, Some("{A}"), vec![("LogonId", "0x1")]);
    assert_eq!(SessionEvent::try_from(keyless).err(), Some(SessionEventError::MalformedRecord));
    let no_activity = record(5, 1, LOCAL, 21, None, vec![("SessionName", "S-1")]);
    assert_eq!(SessionEvent::try_from(no_activity).err(), Some(SessionEventError::MalformedRecord));
}

#[test]
fn kinds_of_different_rules_open_different_sessions() {
    let security = logon(50, 1, "0x3e7", Some("alice"));
    let local = record(50, 2, LOCAL, 21, Some("S-1"), vec![("SessionName", "S-1")]);
    let store = SessionStore::import(vec![vec![security, local]], true);
    assert_eq!(store.sessions.len(), 2);
    assert_eq!(store.sessions[0].session_id, SessionId::LogonId("0x3e7".to_string()));
    assert_eq!(store.sessions[1].session_id, SessionId::ActivityId("S-1".to_string()));
    assert_eq!(store.sessions[0].events.len(), 1);
    assert_eq!(store.sessions[1].events.len(), 1);
}

#[test]
fn session_keeps_its_events_in_order() {
    let mut session = Session::from(SessionEvent::try_from(logon(50, 5, "0x1", Some("alice"))).unwrap());
    session.add_event(SessionEvent::try_from(logoff(90, 9, "0x1")).unwrap());
    session.add_event(SessionEvent::try_from(logon(10, 7, "0x1", Some("bob"))).unwrap());
    session.add_event(SessionEvent::try_from(logon(50, 4, "0x1", Some("alice"))).unwrap());
    assert_eq!(places(&session), vec![(10, 7), (50, 4), (50, 5), (90, 9)]);
    assert_eq!(session.usernames, vec!["alice".to_string(), "bob".to_string()]);
    assert_eq!(session.first_event().record.event_record_id, 7);
    assert_eq!(session.last_event().record.event_record_id, 9);
    assert_eq!(session.session_id(), &SessionId::LogonId("0x1".to_string()));
    assert!(!session.is_anonymous());
}

#[test]
fn event_of_a_taken_place_is_left_out() {
    let mut session = Session::from(SessionEvent::try_from(logon(50, 5, "0x1", None)).unwrap());
    assert!(session.is_anonymous());
    session.add_event(SessionEvent::try_from(logon(50, 5, "0x1", Some("carol"))).unwrap());
    assert_eq!(places(&session), vec![(50, 5)]);
    assert_eq!(session.events[0].kind, EventKind::SecuritySuccessfulLogin);
    assert_eq!(session.usernames, vec!["carol".to_string()]);
}

#[test]
fn summary_gives_bounds_users_and_size() {
    let mut session = Session::from(SessionEvent::try_from(logon(100, 1, "0x1", Some("alice"))).unwrap());
    let mut late = logoff(160, 2, "0x1");
    late.timestamp.nanos = 500;
    session.add_event(SessionEvent::try_from(late).unwrap());
    let summary = session.into();
    assert_eq!(summary.begin, Timestamp { secs: 100, nanos: 0 });
    assert_eq!(summary.end, Timestamp { secs: 160, nanos: 500 });
    assert_eq!(summary.duration, 60_000_000_500);
    assert_eq!(summary.session_id, SessionId::LogonId("0x1".to_string()));
    assert_eq!(summary.usernames, vec!["alice".to_string()]);
    assert_eq!(summary.events, 2);
}

#[test]
fn time_between_two_instants() {
    let a = Timestamp { secs: 10, nanos: 900_000_000 };
    let b = Timestamp { secs: 12, nanos: 100_000_000 };
    assert_eq!(b.duration_since(&a), 1_200_000_000);
    assert_eq!(a.duration_since(&b), -1_200_000_000);
    assert_eq!(a.duration_since(&a), 0);
    let low = Timestamp { secs: i64::MIN, nanos: u32::MAX };
    let high = Timestamp { secs: i64::MAX, nanos: 0 };
    assert_eq!(high.duration_since(&low), (i64::MAX as i128 - i64::MIN as i128) * 1_000_000_000 - u32::MAX as i128);
    assert!(a.is_before(&b));
    assert!(!b.is_before(&a));
    assert!(!a.is_before(&a));
    assert!(a.is_not_after(&a));
    assert!(Timestamp { secs: 10, nanos: 1 }.is_before(&Timestamp { secs: 10, nanos: 2 }));
}

#[test]
fn import_does_not_depend_on_the_order_of_the_logs() {
    let a = || vec![logon(10, 1, "0x1", Some("alice")), logon(30, 2, "0x2", None), logoff(40, 3, "0x1")];
    let b = || vec![logoff(20, 1, "0x2"), logon(5, 2, "0x1", Some("bob")), logon(50, 3, "0x3", Some("carol"))];
    let first = SessionStore::import(vec![a(), b()], true);
    let second = SessionStore::import(vec![b(), a()], true);
    assert_eq!(first.sessions.len(), 3);
    assert_eq!(digest(first), digest(second));
    let first = SessionStore::import(vec![a(), b()], false);
    let second = SessionStore::import(vec![b(), a()], false);
    assert_eq!(digest(first), digest(second));
}

#[test]
fn anonymous_sessions_are_left_out_on_demand() {
    let files = || vec![vec![logon(10, 1, "0x1", Some("alice")), logon(30, 2, "0x2", None), logoff(40, 3, "0x2"), logon(50, 4, "0x3", Some("bob"))]];
    let all = SessionStore::import(files(), true);
    assert_eq!(all.sessions.len(), 3);
    let named = SessionStore::import(files(), false);
    let ids: Vec<SessionId> = named.sessions.iter().map(|s| s.session_id.clone()).collect();
    assert_eq!(ids, vec![SessionId::LogonId("0x1".to_string()), SessionId::LogonId("0x3".to_string())]);
    for session in named.sessions.iter() {
        assert!(!session.usernames.is_empty());
    }
    let removed: Vec<&Session> = all.sessions.iter().filter(|s| !ids.contains(&s.session_id)).collect();
    assert_eq!(removed.len(), 1);
    assert!(removed[0].usernames.is_empty());
}

#[test]
fn import_gives_the_same_sessions_every_time() {
    let files = || vec![vec![logon(10, 1, "0x1", Some("alice")), logon(30, 2, "0x2", None)], vec![logoff(40, 3, "0x1")]];
    let first = SessionStore::import(files(), true).into_sorted();
    let second = SessionStore::import(files(), true).into_sorted();
    assert_eq!(first.len(), second.len());
    for (x, y) in first.iter().zip(second.iter()) {
        assert_eq!(x.session_id, y.session_id);
        assert_eq!(x.events.len(), y.events.len());
        assert_eq!(places(x), places(y));
    }
    let mut twice = files();
    twice.extend(files());
    assert_eq!(digest(SessionStore::import(twice, true)), digest(SessionStore::import(files(), true)));
}

#[test]
fn malformed_records_do_not_stop_an_import() {
    let keyless = record(5, 1, SECURITY, 4624, None, vec![("LogonId", "0x1")]);
    let other = record(6, 2, SECURITY, 4688, None, vec![]);
    let store = SessionStore::import(vec![vec![keyless, other, logon(10, 3, "0x1", Some("alice"))], vec![]], true);
    assert_eq!(store.sessions.len(), 1);
    assert_eq!(places(&store.sessions[0]), vec![(10, 3)]);
    assert!(SessionStore::import(vec![], true).sessions.is_empty());
    assert!(SessionStore::new().sessions.is_empty());
}

#[test]
fn sessions_come_out_by_their_first_events() {
    let store = SessionStore::import(
        vec![vec![
            logon(30, 1, "0x1", Some("alice")),
            logon(10, 2, "0x2", Some("bob")),
            logon(10, 1, "0x3", Some("carol")),
            logon(10, 2, "0x4", Some("dave")),
            logoff(5, 9, "0x1"),
        ]],
        true,
    );
    let sorted = store.into_sorted();
    let ids: Vec<&str> = sorted.iter().map(|s| s.session_id.value()).collect();
    assert_eq!(ids, vec!["0x1", "0x3", "0x2", "0x4"]);
}

#[test]
fn session_is_found_by_the_text_of_its_key() {
    let store = SessionStore::import(
        vec![vec![logon(30, 1, "0x1", Some("alice")), record(31, 2, LOCAL, 21, Some("S-1"), vec![])]],
        true,
    );
    assert_eq!(store.find_session("S-1").map(|s| s.session_id.clone()), Some(SessionId::ActivityId("S-1".to_string())));
    assert_eq!(store.find_session("0x1").map(|s| s.events.len()), Some(1));
    assert!(store.find_session("0x2").is_none());
}

#[test]
fn records_are_filed_one_by_one() {
    let mut store = SessionStore::new();
    store.add_event(SessionEvent::try_from(logon(30, 1, "0x1", Some("alice"))).unwrap());
    store.add_event(SessionEvent::try_from(logon(40, 2, "0x2", None)).unwrap());
    store.add_event(SessionEvent::try_from(logoff(50, 3, "0x1")).unwrap());
    assert_eq!(store.sessions.len(), 2);
    assert_eq!(places(&store.sessions[0]), vec![(30, 1), (50, 3)]);
    store.add_records(vec![logoff(60, 4, "0x2"), AuditRecord { timestamp: Timestamp { secs: 1, nanos: 0 }, event_record_id: 1, data: FieldValue::Null }]);
    assert_eq!(places(&store.sessions[1]), vec![(40, 2), (60, 4)]);
    let named = store.without_anonymous();
    assert_eq!(named.sessions.len(), 1);
}
