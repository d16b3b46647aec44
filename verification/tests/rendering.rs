use evtxanalyze::event_id::{EventId, EvtxFieldView};
use evtxanalyze::event_provider::EventProvider;
use evtxanalyze::format::{Command, Format};
use evtxanalyze::process::Process;
use evtxanalyze::pstree::{from_records, OutlineLine};
use evtxanalyze::record::{AuditRecord, Timestamp};
use evtxanalyze::session::{Session, SessionAsJson};
use evtxanalyze::session_id::SessionId;
use evtxanalyze::session_event::{EventKind, EventRow, SessionEvent};
use evtxanalyze::text::{number_text, pad_left};
use evtxanalyze::value::FieldValue;

fn text(s: &str) -> FieldValue {
    FieldValue::Text(s.to_string())
}

fn object(members: Vec<(&str, FieldValue)>) -> FieldValue {
    FieldValue::Object(members.into_iter().map(|(k, v)| (k.to_string(), v)).collect())
}

fn creation(secs: i64, nanos: u32, record_id: u64, pid: &str, parent: &str, image: &str) -> AuditRecord {
    AuditRecord {
        timestamp: Timestamp { secs, nanos },
        event_record_id: record_id,
        data: object(vec![(
            "Event",
            object(vec![
                ("System", object(vec![("EventID", FieldValue::Number(4688))])),
                (
                    "EventData",
                    object(vec![
                        ("SubjectUserSid", text("S-1-5-18")),
                        ("SubjectUserName", text("SYSTEM")),
                        ("SubjectDomainName", text("WORKGROUP")),
                        ("SubjectLogonId", text("0x3e7")),
                        ("NewProcessId", text(pid)),
                        ("NewProcessName", text(image)),
                        ("TokenElevationType", text("%%1936")),
                        ("ProcessId", text(parent)),
                        ("CommandLine", text("cmd /c")),
                        ("TargetUserSid", text("S-1-0-0")),
                        ("TargetUserName", text("alice")),
                        ("TargetDomainName", text("-")),
                        ("TargetLogonId", text("0x0")),
                        ("ParentProcessName", text("services.exe")),
                        ("MandatoryLabel", text("S-1-16-16384")),
                    ]),
                ),
            ]),
        )]),
    }
}

fn member<'a>(doc: &'a FieldValue, name: &str) -> &'a FieldValue {
    doc.get(name).unwrap()
}

#[test]
fn numbers_are_written_in_a_base() {
    assert_eq!(number_text(0, 10), "0");
    assert_eq!(number_text(4688, 10), "4688");
    assert_eq!(number_text(u64::MAX, 10), "18446744073709551615");
    assert_eq!(number_text(0x1092, 16), "1092");
    assert_eq!(number_text(255, 16), "ff");
    assert_eq!(number_text(u64::MAX, 16), "ffffffffffffffff");
    assert_eq!(number_text(5, 2), "101");
}

#[test]
fn text_is_padded_on_the_left() {
    assert_eq!(pad_left("21".to_string(), 5, " "), "   21");
    assert_eq!(pad_left("65535".to_string(), 5, " "), "65535");
    assert_eq!(pad_left("123456".to_string(), 5, " "), "123456");
    assert_eq!(pad_left("".to_string(), 2, "0"), "00");
}

#[test]
fn event_code_is_shown_in_its_column() {
    assert_eq!(EventId(21).value_with_padding(), "   21");
    assert_eq!(EventId(4624).value_with_padding(), " 4624");
    assert_eq!(EventId(65535).value_with_padding(), "65535");
    assert_eq!(EventId(0).value_with_padding(), "    0");
    assert_eq!(EvtxFieldView::maximum_display_length(&EventId(21)), 5);
    assert_eq!(EventId(4624).to_string(), "4624");
}

#[test]
fn instants_are_written_as_rfc3339() {
    assert_eq!(Timestamp { secs: 1431648000, nanos: 0 }.to_rfc3339(true), Some("2015-05-15T00:00:00Z".to_string()));
    assert_eq!(Timestamp { secs: 1431648000, nanos: 0 }.to_rfc3339(false), Some("2015-05-15T00:00:00Z".to_string()));
    assert_eq!(Timestamp { secs: 1431648001, nanos: 500_000_000 }.to_rfc3339(true), Some("2015-05-15T00:00:01Z".to_string()));
    assert_eq!(Timestamp { secs: 1431648001, nanos: 500_000_000 }.to_rfc3339(false), Some("2015-05-15T00:00:01.500Z".to_string()));
    assert_eq!(Timestamp { secs: 0, nanos: 1 }.to_rfc3339(false), Some("1970-01-01T00:00:00.000000001Z".to_string()));
    assert_eq!(Timestamp { secs: i64::MAX, nanos: 0 }.to_rfc3339(true), None);
    assert_eq!(Timestamp { secs: 0, nanos: 2_000_000_000 }.to_rfc3339(true), None);
}

#[test]
fn process_is_shown_on_one_line() {
    let process = Process::try_from(&creation(1431648000, 7, 1, "0x1f4", "0x4", "C:\\Windows\\notepad.exe")).unwrap();
    assert_eq!(
        process.describe(),
        Some("`C:\\Windows\\notepad.exe` (`0x01f4`, created *`2015-05-15T00:00:00Z`*, user is `alice`)".to_string())
    );
    assert_eq!(process.describe_with("then"), "`C:\\Windows\\notepad.exe` (`0x01f4`, created *`then`*, user is `alice`)");
    let wide = Process::try_from(&creation(1431648000, 0, 1, "0x12345", "0x4", "a.exe")).unwrap();
    assert_eq!(wide.describe_with("t"), "`a.exe` (`0x12345`, created *`t`*, user is `alice`)");
    let lost = Process::try_from(&creation(i64::MAX, 0, 1, "0x1", "0x4", "a.exe")).unwrap();
    assert_eq!(lost.describe(), None);
}

#[test]
fn outline_lists_parents_before_children() {
    let records = vec![
        creation(10, 0, 1, "0x10", "0x4", "a.exe"),
        creation(40, 0, 2, "0x20", "0x10", "late.exe"),
        creation(20, 0, 3, "0x30", "0x10", "early.exe"),
        creation(30, 0, 4, "0x40", "0x30", "deep.exe"),
        creation(5, 0, 5, "0x50", "0x99", "other.exe"),
    ];
    let forest = from_records(&records, None).unwrap();
    assert_eq!(
        forest.outline(),
        vec![
            OutlineLine { depth: 0, node: 4 },
            OutlineLine { depth: 0, node: 0 },
            OutlineLine { depth: 1, node: 2 },
            OutlineLine { depth: 2, node: 3 },
            OutlineLine { depth: 1, node: 1 },
        ]
    );
    assert!(from_records(&vec![], None).unwrap().outline().is_empty());
}

#[test]
fn forest_is_shown_as_a_document() {
    let records = vec![
        creation(1431648000, 250_000_000, 1, "0x10", "0x4", "a.exe"),
        creation(1431648060, 0, 2, "0x20", "0x10", "b.exe"),
    ];
    let forest = from_records(&records, None).unwrap();
    let doc = forest.to_document().unwrap();
    let roots = match &doc {
        FieldValue::Object(members) => members,
        _ => panic!("the document of a forest is an object"),
    };
    assert_eq!(roots.len(), 1);
    assert_eq!(roots[0].0, "2015-05-15T00:00:00.250Z");
    let root = &roots[0].1;
    assert_eq!(member(root, "timestamp").as_str(), Some("2015-05-15T00:00:00.250Z"));
    assert_eq!(member(root, "event_record_id").as_u64(), Some(1));
    assert_eq!(member(root, "SubjectUserSid").as_str(), Some("S-1-5-18"));
    assert_eq!(member(root, "SubjectUserName").as_str(), Some("SYSTEM"));
    assert_eq!(member(root, "SubjectDomainName").as_str(), Some("WORKGROUP"));
    assert_eq!(member(root, "SubjectLogonId").as_str(), Some("0x3e7"));
    assert_eq!(member(root, "NewProcessId").as_u64(), Some(16));
    assert_eq!(member(root, "NewProcessName").as_str(), Some("a.exe"));
    assert_eq!(member(root, "TokenElevationType").as_str(), Some("%%1936"));
    assert_eq!(member(root, "ProcessId").as_u64(), Some(4));
    assert_eq!(member(root, "CommandLine").as_str(), Some("cmd /c"));
    assert_eq!(member(root, "TargetUserSid").as_str(), Some("S-1-0-0"));
    assert_eq!(member(root, "TargetUserName").as_str(), Some("alice"));
    assert_eq!(member(root, "TargetDomainName").as_str(), Some("-"));
    assert_eq!(member(root, "TargetLogonId").as_str(), Some("0x0"));
    assert_eq!(member(root, "ParentProcessName").as_str(), Some("services.exe"));
    assert_eq!(member(root, "MandatoryLabel").as_str(), Some("S-1-16-16384"));
    let child = member(root, "2015-05-15T00:01:00Z");
    assert_eq!(member(child, "NewProcessName").as_str(), Some("b.exe"));
    assert_eq!(member(child, "ProcessId").as_u64(), Some(16));
    match (root, child) {
        (FieldValue::Object(own), FieldValue::Object(below)) => {
            assert_eq!(own.len(), 18);
            assert_eq!(below.len(), 17);
        },
        _ => panic!("the document of a process is an object"),
    }
}

#[test]
fn forest_with_an_instant_out_of_the_calendar_has_no_document() {
    let records = vec![creation(i64::MAX, 0, 1, "0x10", "0x4", "a.exe")];
    let forest = from_records(&records, None).unwrap();
    assert!(forest.to_document().is_none());
    assert_eq!(forest.outline(), vec![OutlineLine { depth: 0, node: 0 }]);
}

#[test]
fn session_gives_one_row_for_each_event() {
    let logon = |secs: i64, id: u64| AuditRecord {
        timestamp: Timestamp { secs, nanos: 0 },
        event_record_id: id,
        data: object(vec![(
            "Event",
            object(vec![
                (
                    "System",
                    object(vec![
                        ("Provider", object(vec![("#attributes", object(vec![("Name", text("Microsoft-Windows-Security-Auditing"))]))])),
                        ("EventID", FieldValue::Number(4624)),
                    ]),
                ),
                ("EventData", object(vec![("TargetLogonId", text("0x1"))])),
            ]),
        )]),
    };
    let mut session = Session::from(SessionEvent::try_from(logon(20, 2)).unwrap());
    session.add_event(SessionEvent::try_from(logon(10, 1)).unwrap());
    let expected = |secs: i64, id: u64| EventRow {
        timestamp: Timestamp { secs, nanos: 0 },
        event_record_id: id,
        event_id: EventId(4624),
        provider: EventProvider::SecurityAuditing,
        kind: EventKind::SecuritySuccessfulLogin,
    };
    assert_eq!(session.rows(), vec![expected(10, 1), expected(20, 2)]);
    assert!(session.events[0].is_before(&session.events[1]));
    assert!(!session.events[1].is_before(&session.events[0]));
    let other = Session::from(SessionEvent::try_from(logon(10, 2)).unwrap());
    assert!(session.begins_before(&other));
    assert!(!other.begins_before(&session));
}

#[test]
fn encodings_and_views() {
    assert_eq!(Format::Json.name(), "json");
    assert_eq!(Format::Markdown.name(), "markdown");
    assert_eq!(Format::Csv.name(), "csv");
    assert_eq!(Format::LaTeX.name(), "latex");
    assert_eq!(Format::Dot.name(), "dot");
    assert_eq!(Format::default_for_sessions(), Format::Csv);
    let all = Command::Sessions { evtx_files_dir: "logs".to_string(), include_anonymous: false };
    assert!(!all.includes_anonymous());
    let one = Command::Session { evtx_files_dir: "logs".to_string(), session_id: "0x1".to_string() };
    assert!(one.includes_anonymous());
    let tree = Command::PsTree { username: None, evtx_file: "Security.evtx".to_string() };
    assert!(!tree.includes_anonymous());
}

fn summary(begin: Timestamp, end: Timestamp) -> SessionAsJson {
    SessionAsJson {
        begin,
        end,
        duration: end.duration_since(&begin),
        session_id: SessionId::LogonId("0x3e7".to_string()),
        usernames: vec!["alice".to_string(), "bob".to_string()],
        events: 3,
    }
}

#[test]
fn summary_is_shown_as_a_document() {
    let doc = summary(Timestamp { secs: 1431648000, nanos: 0 }, Timestamp { secs: 1431648060, nanos: 500_000_000 })
        .to_document()
        .unwrap();
    let members = match &doc {
        FieldValue::Object(members) => members,
        _ => panic!("the document of a summary is an object"),
    };
    let names: Vec<&str> = members.iter().map(|m| m.0.as_str()).collect();
    assert_eq!(names, vec!["begin", "end", "duration", "session_id", "usernames", "events"]);
    assert_eq!(member(&doc, "begin").as_str(), Some("2015-05-15T00:00:00Z"));
    assert_eq!(member(&doc, "end").as_str(), Some("2015-05-15T00:01:00.500Z"));
    assert_eq!(member(&doc, "duration").as_u64(), Some(60_500_000_000));
    assert_eq!(member(member(&doc, "session_id"), "LogonId").as_str(), Some("0x3e7"));
    match member(&doc, "usernames") {
        FieldValue::List(items) => {
            let users: Vec<Option<&str>> = items.iter().map(|i| i.as_str()).collect();
            assert_eq!(users, vec![Some("alice"), Some("bob")]);
        },
        _ => panic!("the users are a list"),
    }
    assert_eq!(member(&doc, "events").as_u64(), Some(3));
}

#[test]
fn summary_of_a_session_is_read_back_from_its_document() {
    let logon = |secs: i64, id: u64, user: &str| AuditRecord {
        timestamp: Timestamp { secs, nanos: 0 },
        event_record_id: id,
        data: object(vec![(
            "Event",
            object(vec![
                (
                    "System",
                    object(vec![
                        ("Provider", object(vec![("#attributes", object(vec![("Name", text("Microsoft-Windows-Security-Auditing"))]))])),
                        ("EventID", FieldValue::Number(4624)),
                    ]),
                ),
                ("EventData", object(vec![("TargetLogonId", text("0x1")), ("TargetUserName", text(user))])),
            ]),
        )]),
    };
    let mut session = Session::from(SessionEvent::try_from(logon(1431648060, 2, "bob")).unwrap());
    session.add_event(SessionEvent::try_from(logon(1431648000, 1, "alice")).unwrap());
    session.add_event(SessionEvent::try_from(logon(1431648030, 3, "bob")).unwrap());
    let doc = session.into().to_document().unwrap();
    assert_eq!(member(&doc, "begin").as_str(), Some("2015-05-15T00:00:00Z"));
    assert_eq!(member(&doc, "end").as_str(), Some("2015-05-15T00:01:00Z"));
    assert_eq!(member(&doc, "duration").as_u64(), Some(60_000_000_000));
    assert_eq!(member(&doc, "events").as_u64(), Some(3));
    match member(&doc, "usernames") {
        FieldValue::List(items) => {
            let users: Vec<Option<&str>> = items.iter().map(|i| i.as_str()).collect();
            assert_eq!(users, vec![Some("bob"), Some("alice")]);
        },
        _ => panic!("the users are a list"),
    }
}

#[test]
fn summary_that_cannot_be_written_has_no_document() {
    assert!(summary(Timestamp { secs: i64::MAX, nanos: 0 }, Timestamp { secs: i64::MAX, nanos: 0 }).to_document().is_none());
    assert!(summary(Timestamp { secs: 0, nanos: 0 }, Timestamp { secs: i64::MAX, nanos: 0 }).to_document().is_none());
    let mut wide = summary(Timestamp { secs: 0, nanos: 0 }, Timestamp { secs: 1, nanos: 0 });
    wide.duration = u64::MAX as i128 + 1;
    assert!(wide.to_document().is_none());
    wide.duration = u64::MAX as i128;
    assert_eq!(member(&wide.to_document().unwrap(), "duration").as_u64(), Some(u64::MAX));
    wide.duration = -5;
    assert_eq!(member(&wide.to_document().unwrap(), "duration"), &FieldValue::Negative(-5));
    wide.duration = i64::MIN as i128 - 1;
    assert!(wide.to_document().is_none());
}

#[test]
fn outline_is_written_with_indents() {
    let records = vec![
        creation(1431648000, 0, 1, "0x10", "0x4", "a.exe"),
        creation(1431648060, 0, 2, "0x20", "0x10", "b.exe"),
        creation(1431648120, 0, 3, "0x30", "0x20", "c.exe"),
    ];
    let forest = from_records(&records, None).unwrap();
    assert_eq!(
        forest.outline_text(),
        Some(vec![
            "- `a.exe` (`0x0010`, created *`2015-05-15T00:00:00Z`*, user is `alice`)".to_string(),
            "  - `b.exe` (`0x0020`, created *`2015-05-15T00:01:00Z`*, user is `alice`)".to_string(),
            "    - `c.exe` (`0x0030`, created *`2015-05-15T00:02:00Z`*, user is `alice`)".to_string(),
        ])
    );
    let lost = from_records(&vec![creation(i64::MAX, 0, 1, "0x10", "0x4", "a.exe")], None).unwrap();
    assert_eq!(lost.outline_text(), None);
    assert_eq!(from_records(&vec![], None).unwrap().outline_text(), Some(vec![]));
}
