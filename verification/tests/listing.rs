use evtxanalyze::event_id::EventIdError;
use evtxanalyze::listing::{filter_by_id, filter_by_range, listing_order, ListingFilter, SortOrder, SystemField};
use evtxanalyze::record::{AuditRecord, Timestamp};
use evtxanalyze::value::FieldValue;

fn object(members: Vec<(&str, FieldValue)>) -> FieldValue {
    FieldValue::Object(members.into_iter().map(|(k, v)| (k.to_string(), v)).collect())
}

fn record(secs: i64, record_id: u64, code: Option<u64>) -> AuditRecord {
    let system = match code {
        Some(code) => object(vec![("EventID", FieldValue::Number(code))]),
        None => object(vec![]),
    };
    AuditRecord {
        timestamp: Timestamp { secs, nanos: 0 },
        event_record_id: record_id,
        data: object(vec![("Event", object(vec![("System", system)]))]),
    }
}

#[test]
fn record_is_found_by_its_number() {
    let records = vec![record(1, 10, None), record(2, 20, None), record(3, 20, None)];
    assert_eq!(filter_by_id(&records, 20), Some(1));
    assert_eq!(filter_by_id(&records, 10), Some(0));
    assert_eq!(filter_by_id(&records, 30), None);
    assert_eq!(filter_by_id(&vec![], 30), None);
}

#[test]
fn numbers_in_a_range_are_listed_in_ascending_order() {
    let records = vec![record(1, 30, None), record(2, 10, None), record(3, 20, None), record(4, 40, None), record(5, 20, None)];
    assert_eq!(filter_by_range(&records, 10, 30), vec![10, 20, 20, 30]);
    assert_eq!(filter_by_range(&records, 11, 29), vec![20, 20]);
    assert_eq!(filter_by_range(&records, 0, u64::MAX), vec![10, 20, 20, 30, 40]);
    assert_eq!(filter_by_range(&records, 41, 50), Vec::<u64>::new());
    assert_eq!(filter_by_range(&records, 30, 10), Vec::<u64>::new());
}

#[test]
fn records_are_chosen_by_instant_and_code() {
    let open = ListingFilter { not_before: None, not_after: None, event_ids: vec![] };
    assert_eq!(open.selects(&record(5, 1, None)), Ok(true));
    let from = ListingFilter { not_before: Some(Timestamp { secs: 10, nanos: 0 }), not_after: None, event_ids: vec![] };
    assert_eq!(from.selects(&record(9, 1, Some(1))), Ok(false));
    assert_eq!(from.selects(&record(10, 1, Some(1))), Ok(true));
    let to = ListingFilter { not_before: None, not_after: Some(Timestamp { secs: 10, nanos: 0 }), event_ids: vec![] };
    assert_eq!(to.selects(&record(9, 1, Some(1))), Ok(false));
    assert_eq!(to.selects(&record(11, 1, Some(1))), Ok(true));
    let codes = ListingFilter { not_before: None, not_after: None, event_ids: vec![4624, 4634] };
    assert_eq!(codes.selects(&record(5, 1, Some(4634))), Ok(true));
    assert_eq!(codes.selects(&record(5, 1, Some(4688))), Ok(false));
    assert_eq!(codes.selects(&record(5, 1, None)), Err(EventIdError::Missing));
    assert_eq!(codes.selects(&record(5, 1, Some(70000))), Err(EventIdError::OutOfRange));
    let early = ListingFilter { not_before: Some(Timestamp { secs: 10, nanos: 0 }), not_after: None, event_ids: vec![1] };
    assert_eq!(early.selects(&record(5, 1, None)), Ok(false));
}

#[test]
fn records_are_listed_in_the_order_asked_for() {
    let records = vec![record(30, 3, None), record(10, 9, None), record(30, 1, None), record(20, 3, None)];
    assert_eq!(listing_order(&records, SortOrder::Storage), vec![0, 1, 2, 3]);
    assert_eq!(listing_order(&records, SortOrder::RecordId), vec![2, 0, 3, 1]);
    assert_eq!(listing_order(&records, SortOrder::Time), vec![1, 3, 0, 2]);
    assert!(listing_order(&vec![], SortOrder::Time).is_empty());
    assert_ne!(SystemField::EventId, SystemField::EventRecordId);
}
