use evtxanalyze::filter::{either_matches, has_username, is_usable};
use evtxanalyze::process::{Process, ProcessError};
use evtxanalyze::pstree::{from_records, ForestError, ProcessForest};
use evtxanalyze::record::{AuditRecord, Timestamp};
use evtxanalyze::text::{parse_hex, same_text};
use evtxanalyze::value::FieldValue;

fn text(s: &str) -> FieldValue {
    FieldValue::Text(s.to_string())
}

fn object(members: Vec<(&str, FieldValue)>) -> FieldValue {
    FieldValue::Object(members.into_iter().map(|(k, v)| (k.to_string(), v)).collect())
}

fn creation_data(code: u64, pid: &str, parent: &str, image: &str, subject: &str, target: &str) -> FieldValue {
    object(vec![(
        "Event",
        object(vec![
            ("System", object(vec![("EventID", FieldValue::Number(code))])),
            (
                "EventData",
                object(vec![
                    ("SubjectUserSid", text("S-1-5-18")),
                    ("SubjectUserName", text(subject)),
                    ("SubjectDomainName", text("WORKGROUP")),
                    ("SubjectLogonId", text("0x3e7")),
                    ("NewProcessId", text(pid)),
                    ("NewProcessName", text(image)),
                    ("TokenElevationType", text("%%1936")),
                    ("ProcessId", text(parent)),
                    ("CommandLine", text("")),
                    ("TargetUserSid", text("S-1-0-0")),
                    ("TargetUserName", text(target)),
                    ("TargetDomainName", text("-")),
                    ("TargetLogonId", text("0x0")),
                    ("ParentProcessName", text("C:\\Windows\\System32\\services.exe")),
                    ("MandatoryLabel", text("S-1-16-16384")),
                ]),
            ),
        ]),
    )])
}

fn creation(secs: i64, record_id: u64, pid: &str, parent: &str, image: &str) -> AuditRecord {
    AuditRecord {
        timestamp: Timestamp { secs, nanos: 0 },
        event_record_id: record_id,
        data: creation_data(4688, pid, parent, image, "SYSTEM", "alice"),
    }
}

#[test]
fn hex_numbers_are_read() {
    assert_eq!(parse_hex("0x1f4"), Some(500));
    assert_eq!(parse_hex("1F4"), Some(500));
    assert_eq!(parse_hex("0x0x10"), Some(16));
    assert_eq!(parse_hex("+ff"), Some(255));
    assert_eq!(parse_hex("0x+ff"), Some(255));
    assert_eq!(parse_hex("ffffffffffffffff"), Some(u64::MAX));
    assert_eq!(parse_hex("0x0"), Some(0));
}

#[test]
fn hex_numbers_are_refused() {
    assert_eq!(parse_hex(""), None);
    assert_eq!(parse_hex("0x"), None);
    assert_eq!(parse_hex("+"), None);
    assert_eq!(parse_hex("0xg"), None);
    assert_eq!(parse_hex("-1"), None);
    assert_eq!(parse_hex("12 "), None);
    assert_eq!(parse_hex("10000000000000000"), None);
    assert_eq!(parse_hex("0X10"), None);
}

#[test]
fn texts_compare_by_their_characters() {
    assert!(same_text("abc", "abc"));
    assert!(!same_text("abc", "abd"));
    assert!(!same_text("abc", "ab"));
}

#[test]
fn members_are_found_by_name() {
    let tree = object(vec![
        ("a", FieldValue::Number(1)),
        ("b", object(vec![("c", text("deep"))])),
        ("a", FieldValue::Number(2)),
    ]);
    assert_eq!(tree.get("a").and_then(|v| v.as_u64()), Some(1));
    assert_eq!(tree.get2("b", "c").and_then(|v| v.as_str()), Some("deep"));
    assert!(tree.get("c").is_none());
    assert!(tree.get2("a", "c").is_none());
    assert!(text("x").get("a").is_none());
    assert_eq!(FieldValue::Negative(-1).as_u64(), None);
    assert_eq!(FieldValue::Number(7).as_str(), None);
}

#[test]
fn process_is_read_from_a_creation_event() {
    let record = creation(100, 7, "0x1092", "0x2d4", "C:\\Windows\\System32\\svchost.exe");
    let process = Process::try_from(&record).unwrap();
    assert_eq!(process.new_process_id, 4242);
    assert_eq!(process.process_id, 724);
    assert_eq!(process.new_process_name, "C:\\Windows\\System32\\svchost.exe");
    assert_eq!(process.subject_user_name, "SYSTEM");
    assert_eq!(process.target_user_name, "alice");
    assert_eq!(process.mandatory_label, "S-1-16-16384");
    assert_eq!(process.event_record_id, 7);
    assert_eq!(process.timestamp, Timestamp { secs: 100, nanos: 0 });
}

#[test]
fn other_events_are_no_processes() {
    let mut record = creation(100, 7, "0x1092", "0x2d4", "a.exe");
    record.data = creation_data(4624, "0x1092", "0x2d4", "a.exe", "SYSTEM", "alice");
    assert_eq!(Process::try_from(&record).err(), Some(ProcessError::NotProcessCreation));
    record.data = FieldValue::Null;
    assert_eq!(Process::try_from(&record).err(), Some(ProcessError::NotProcessCreation));
}

#[test]
fn incomplete_creation_events_are_malformed() {
    let record = creation(100, 7, "4242 decimal", "0x2d4", "a.exe");
    assert_eq!(Process::try_from(&record).err(), Some(ProcessError::Malformed));
    let record = AuditRecord {
        timestamp: Timestamp { secs: 1, nanos: 0 },
        event_record_id: 1,
        data: object(vec![(
            "Event",
            object(vec![
                ("System", object(vec![("EventID", FieldValue::Number(4688))])),
                ("EventData", object(vec![("SubjectUserSid", text("S-1-5-18"))])),
            ]),
        )]),
    };
    assert_eq!(Process::try_from(&record).err(), Some(ProcessError::Malformed));
}

#[test]
fn child_hangs_under_the_latest_holder_of_a_reused_identifier() {
    let records = vec![
        creation(10, 1, "0x1092", "0x4", "svchost.exe"),
        creation(20, 2, "0x1092", "0x4", "notepad.exe"),
        creation(30, 3, "0x2000", "0x1092", "child.exe"),
    ];
    let forest = from_records(&records, None).unwrap();
    assert_eq!(forest.nodes.len(), 3);
    assert_eq!(forest.nodes[2].parent, Some(1));
    assert!(!forest.nodes[2].is_root);
    assert_eq!(forest.nodes[1].children, vec![2]);
    assert!(forest.nodes[0].children.is_empty());
    assert!(forest.nodes[0].is_root);
    assert!(forest.nodes[1].is_root);
    assert_eq!(forest.roots, vec![0, 1]);
}

#[test]
fn holder_created_after_the_child_is_no_parent() {
    let records = vec![
        creation(10, 1, "0x1092", "0x4", "svchost.exe"),
        creation(15, 2, "0x2000", "0x1092", "child.exe"),
        creation(20, 3, "0x1092", "0x4", "notepad.exe"),
    ];
    let forest = from_records(&records, None).unwrap();
    assert_eq!(forest.nodes[1].parent, Some(0));
    assert_eq!(forest.nodes[0].children, vec![1]);
    assert!(forest.nodes[2].children.is_empty());
    assert_eq!(forest.roots, vec![0, 2]);
}

#[test]
fn every_process_that_is_no_root_has_one_parent() {
    let records = vec![
        creation(10, 1, "0x10", "0x4", "a.exe"),
        creation(20, 2, "0x20", "0x10", "b.exe"),
        creation(30, 3, "0x30", "0x10", "c.exe"),
        creation(25, 4, "0x40", "0x20", "d.exe"),
        creation(5, 5, "0x50", "0x10", "early.exe"),
    ];
    let forest = from_records(&records, None).unwrap();
    for (at, node) in forest.nodes.iter().enumerate() {
        let holders: Vec<usize> = (0..forest.nodes.len()).filter(|p| forest.nodes[*p].children.contains(&at)).collect();
        if node.is_root {
            assert!(holders.is_empty());
            assert_eq!(node.parent, None);
        } else {
            assert_eq!(holders.len(), 1);
            assert_eq!(node.parent, Some(holders[0]));
            let parent = &forest.nodes[holders[0]].process;
            assert!(parent.timestamp.is_not_after(&node.process.timestamp));
        }
    }
    assert_eq!(forest.nodes[0].children, vec![1, 2]);
    assert_eq!(forest.nodes[1].children, vec![3]);
    assert_eq!(forest.roots, vec![4, 0]);
}

#[test]
fn candidates_of_one_instant_are_told_apart_by_their_place() {
    let records = vec![
        creation(10, 1, "0x10", "0x4", "first.exe"),
        creation(10, 2, "0x10", "0x4", "second.exe"),
        creation(10, 3, "0x20", "0x10", "child.exe"),
    ];
    let forest = from_records(&records, None).unwrap();
    assert_eq!(forest.nodes[2].parent, Some(1));
}

#[test]
fn a_process_is_not_its_own_parent() {
    let records = vec![creation(10, 1, "0x10", "0x10", "self.exe")];
    let forest = from_records(&records, None).unwrap();
    assert!(forest.nodes[0].is_root);
    assert_eq!(forest.roots, vec![0]);
}

#[test]
fn records_that_are_no_processes_are_passed_over() {
    let mut broken = creation(10, 1, "zz", "0x4", "a.exe");
    broken.event_record_id = 9;
    let records = vec![
        broken,
        AuditRecord { timestamp: Timestamp { secs: 1, nanos: 0 }, event_record_id: 2, data: FieldValue::Null },
        creation(20, 3, "0x20", "0x10", "b.exe"),
    ];
    let forest = from_records(&records, None).unwrap();
    assert_eq!(forest.nodes.len(), 1);
    assert_eq!(forest.nodes[0].process.event_record_id, 3);
}

#[test]
fn forest_of_processes_links_them() {
    let a = Process::try_from(&creation(10, 1, "0x10", "0x4", "a.exe")).unwrap();
    let b = Process::try_from(&creation(20, 2, "0x20", "0x10", "b.exe")).unwrap();
    let forest = ProcessForest::from_processes(vec![b, a]);
    assert_eq!(forest.nodes[0].parent, Some(1));
    assert_eq!(forest.nodes[1].children, vec![0]);
    assert_eq!(forest.roots, vec![1]);
}

#[test]
fn username_is_searched_without_regard_to_case() {
    let mut record = creation(10, 1, "0x10", "0x4", "a.exe");
    record.data = creation_data(4688, "0x10", "0x4", "a.exe", "SYSTEM", "Alice");
    let process = Process::try_from(&record).unwrap();
    assert_eq!(has_username(Some("alice"), &process), Some(true));
    assert_eq!(has_username(Some("^sys"), &process), Some(true));
    assert_eq!(has_username(Some("bob"), &process), Some(false));
    assert_eq!(has_username(None, &process), Some(true));
    assert_eq!(has_username(Some("("), &process), None);
}

#[test]
fn usable_patterns_are_told_from_others() {
    assert!(is_usable(None));
    assert!(is_usable(Some("adm.*")));
    assert!(!is_usable(Some("(")));
}

#[test]
fn answers_of_two_searches_are_combined() {
    assert_eq!(either_matches(Some(false), Some(true)), Some(true));
    assert_eq!(either_matches(Some(true), Some(false)), Some(true));
    assert_eq!(either_matches(Some(false), Some(false)), Some(false));
    assert_eq!(either_matches(None, Some(true)), None);
    assert_eq!(either_matches(Some(true), None), None);
}

#[test]
fn forest_holds_the_processes_of_the_user_only() {
    let mut of_bob = creation(20, 2, "0x20", "0x10", "b.exe");
    of_bob.data = creation_data(4688, "0x20", "0x10", "b.exe", "bob", "bob");
    let records = vec![creation(10, 1, "0x10", "0x4", "a.exe"), of_bob];
    let forest = from_records(&records, Some("ALICE")).unwrap();
    assert_eq!(forest.nodes.len(), 1);
    assert_eq!(forest.nodes[0].process.new_process_id, 0x10);
    assert_eq!(from_records(&records, Some("[")).err(), Some(ForestError::InvalidUsername));
}
