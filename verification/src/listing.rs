//! Choosing and ordering the records of a log for a listing.

use vstd::prelude::*;
use crate::event_id::{EventId, EventIdError};
use crate::record::{AuditRecord, Timestamp};

verus! {

/// The order in which records are listed.
#[derive(Clone, Copy, Debug, PartialEq, Eq, Structural)]
pub enum SortOrder {
    /// As the records are stored.
    Storage,
    /// By the number under which each record was stored.
    RecordId,
    /// By the instant of each record.
    Time,
}

/// The fields that every record has and that a listing can show.
#[derive(Clone, Copy, Debug, PartialEq, Eq, Structural)]
pub enum SystemField {
    EventId,
    EventRecordId,
    ActivityId,
    RelatedActivityId,
}

/// Which records a listing shows.
#[derive(Clone, Debug)]
pub struct ListingFilter {
    /// Records earlier than this instant are left out.
    pub not_before: Option<Timestamp>,
    /// Records earlier than this instant are left out as well.
    pub not_after: Option<Timestamp>,
    /// Where this holds any code, only records with one of these codes are shown.
    pub event_ids: Vec<u16>,
}

/// The first position at or after `from` of a record stored under `id`;
/// the number of records where there is none.
pub open spec fn first_with_id(records: Seq<AuditRecord>, id: u64, from: int) -> int
    decreases records.len() - from,
{
    if from < 0 || from >= records.len() || records[from].event_record_id == id {
        from
    } else {
        first_with_id(records, id, from + 1)
    }
}

/// Finds the first record stored under the number `filter_id`.
pub fn filter_by_id(records: &Vec<AuditRecord>, filter_id: u64) -> (found: Option<usize>)
    ensures
        match found {
            Some(at) => at < records@.len() && at == first_with_id(records@, filter_id, 0),
            None => first_with_id(records@, filter_id, 0) >= records@.len(),
        },
{
    let mut at: usize = 0;
    while at < records.len()
        invariant
            at <= records@.len(),
            first_with_id(records@, filter_id, 0) == first_with_id(records@, filter_id, at as int),
        decreases records@.len() - at,
    {
        if records[at].event_record_id == filter_id {
            return Some(at);
        }
        at = at + 1;
    }
    None
}

/// The first position at or after `from` of a number greater than `id`.
pub open spec fn spot(ids: Seq<u64>, id: u64, from: int) -> int
    decreases ids.len() - from,
{
    if from < 0 || from >= ids.len() || ids[from] > id {
        from
    } else {
        spot(ids, id, from + 1)
    }
}

/// The numbers between `min` and `max`, both included, under which the
/// first `upto` of `records` are stored, in ascending order; a number
/// stands as often as it occurs.
pub open spec fn ranged(records: Seq<AuditRecord>, min: u64, max: u64, upto: int) -> Seq<u64>
    decreases upto,
{
    if upto <= 0 {
        Seq::empty()
    } else {
        let earlier = ranged(records, min, max, upto - 1);
        let id = records[upto - 1].event_record_id;
        if min <= id <= max {
            earlier.insert(spot(earlier, id, 0), id)
        } else {
            earlier
        }
    }
}

/// No number stands before a smaller one.
pub open spec fn ascending(ids: Seq<u64>) -> bool {
    forall|i: int, j: int| 0 <= i < j < ids.len() ==> ids[i] <= ids[j]
}

proof fn spot_splits(ids: Seq<u64>, id: u64, from: int)
    requires
        0 <= from <= ids.len(),
    ensures
        from <= spot(ids, id, from) <= ids.len(),
        forall|i: int| from <= i < spot(ids, id, from) ==> ids[i] <= id,
        spot(ids, id, from) < ids.len() ==> ids[spot(ids, id, from)] > id,
    decreases ids.len() - from,
{
    if from < ids.len() && ids[from] <= id {
        spot_splits(ids, id, from + 1);
    }
}

/// Lists the numbers between `min` and `max` under which records are stored.
pub fn filter_by_range(records: &Vec<AuditRecord>, min: u64, max: u64) -> (ids: Vec<u64>)
    ensures
        ids@ == ranged(records@, min, max, records@.len() as int),
        ascending(ids@),
{
    let mut ids: Vec<u64> = Vec::new();
    let mut done: usize = 0;
    while done < records.len()
        invariant
            done <= records@.len(),
            ids@ == ranged(records@, min, max, done as int),
            ascending(ids@),
        decreases records@.len() - done,
    {
        let id: u64 = records[done].event_record_id;
        if min <= id && id <= max {
            let mut at: usize = 0;
            while at < ids.len() && ids[at] <= id
                invariant
                    at <= ids@.len(),
                    spot(ids@, id, 0) == spot(ids@, id, at as int),
                decreases ids@.len() - at,
            {
                at = at + 1;
            }
            proof {
                spot_splits(ids@, id, 0);
            }
            let ghost before = ids@;
            ids.insert(at, id);
            assert forall|i: int, j: int| 0 <= i < j < ids@.len() implies ids@[i] <= ids@[j] by {
                let bi = if i < at { i } else { i - 1 };
                let bj = if j < at { j } else { j - 1 };
                if i != at {
                    assert(ids@[i] == before[bi]);
                }
                if j != at {
                    assert(ids@[j] == before[bj]);
                }
                if i == at {
                    assert(before[at as int] <= before[bj]);
                }
            }
        }
        done = done + 1;
    }
    ids
}

/// Whether `codes` holds `code`.
pub open spec fn holds_code(codes: Seq<u16>, code: u16) -> bool {
    exists|i: int| 0 <= i < codes.len() && codes[i] == code
}

impl ListingFilter {
    /// Whether a listing under this filter shows `record`. A record that
    /// is earlier than `not_before` or than `not_after` is not shown. Of the
    /// others, where codes are asked for, those with one of the codes are
    /// shown, and one without a code cannot be listed; where no codes are
    /// asked for, all are shown.
    pub open spec fn shows(self, record: AuditRecord) -> Result<bool, EventIdError> {
        if self.not_before matches Some(t) && record.timestamp.before(t) {
            Ok(false)
        } else if self.not_after matches Some(t) && record.timestamp.before(t) {
            Ok(false)
        } else if self.event_ids@.len() > 0 {
            match EventId::parsed(record) {
                Ok(id) => Ok(holds_code(self.event_ids@, id.0)),
                Err(e) => Err(e),
            }
        } else {
            Ok(true)
        }
    }

    /// Decides whether `record` is listed.
    pub fn selects(&self, record: &AuditRecord) -> (result: Result<bool, EventIdError>)
        ensures
            result == self.shows(*record),
    {
        match &self.not_before {
            Some(t) => {
                if record.timestamp.is_before(t) {
                    return Ok(false);
                }
            },
            None => {},
        }
        match &self.not_after {
            Some(t) => {
                if record.timestamp.is_before(t) {
                    return Ok(false);
                }
            },
            None => {},
        }
        if self.event_ids.len() > 0 {
            let id = match EventId::try_from(record) {
                Ok(id) => id,
                Err(e) => {
                    return Err(e);
                },
            };
            let mut at: usize = 0;
            while at < self.event_ids.len()
                invariant
                    at <= self.event_ids@.len(),
                    self.shows(*record) == Ok::<bool, EventIdError>(
                        holds_code(self.event_ids@, id.0),
                    ),
                    forall|i: int| 0 <= i < at ==> self.event_ids@[i] != id.0,
                decreases self.event_ids@.len() - at,
            {
                if self.event_ids[at] == id.value() {
                    return Ok(true);
                }
                at = at + 1;
            }
            Ok(false)
        } else {
            Ok(true)
        }
    }
}

/// Record `a` is listed before record `b` on account of the order asked
/// for. In the order of storage no record is moved before another.
pub open spec fn precedes(records: Seq<AuditRecord>, order: SortOrder, a: int, b: int) -> bool {
    match order {
        SortOrder::Storage => false,
        SortOrder::RecordId => records[a].event_record_id < records[b].event_record_id,
        SortOrder::Time => records[a].timestamp.before(records[b].timestamp),
    }
}

/// The first position at or after `from` of a record before which `new` is listed.
pub open spec fn turn(records: Seq<AuditRecord>, order: SortOrder, list: Seq<usize>, new: int, from: int) -> int
    decreases list.len() - from,
{
    if from < 0 || from >= list.len() || precedes(records, order, new, list[from] as int) {
        from
    } else {
        turn(records, order, list, new, from + 1)
    }
}

/// The places of the first `upto` records in the order asked for; records
/// that the order does not tell apart stay in the order of storage.
pub open spec fn sorted_places(records: Seq<AuditRecord>, order: SortOrder, upto: int) -> Seq<usize>
    decreases upto,
{
    if upto <= 0 {
        Seq::empty()
    } else {
        let earlier = sorted_places(records, order, upto - 1);
        earlier.insert(turn(records, order, earlier, upto - 1, 0), (upto - 1) as usize)
    }
}

/// No record is listed behind one that it precedes.
pub open spec fn in_listing_order(records: Seq<AuditRecord>, order: SortOrder, list: Seq<usize>) -> bool {
    forall|i: int, j: int|
        0 <= i < j < list.len() ==> !precedes(
            records,
            order,
            (#[trigger] list[j]) as int,
            (#[trigger] list[i]) as int,
        )
}

proof fn turn_splits(records: Seq<AuditRecord>, order: SortOrder, list: Seq<usize>, new: int, from: int)
    requires
        0 <= from <= list.len(),
    ensures
        from <= turn(records, order, list, new, from) <= list.len(),
        forall|i: int|
            from <= i < turn(records, order, list, new, from) ==> !precedes(
                records,
                order,
                new,
                (#[trigger] list[i]) as int,
            ),
        turn(records, order, list, new, from) < list.len() ==> precedes(
            records,
            order,
            new,
            list[turn(records, order, list, new, from)] as int,
        ),
    decreases list.len() - from,
{
    if from < list.len() && !precedes(records, order, new, list[from] as int) {
        turn_splits(records, order, list, new, from + 1);
    }
}

fn listed_before(records: &Vec<AuditRecord>, order: SortOrder, a: usize, b: usize) -> (before: bool)
    requires
        a < records@.len(),
        b < records@.len(),
    ensures
        before == precedes(records@, order, a as int, b as int),
{
    match order {
        SortOrder::Storage => false,
        SortOrder::RecordId => records[a].event_record_id < records[b].event_record_id,
        SortOrder::Time => records[a].timestamp.is_before(&records[b].timestamp),
    }
}

/// The places of the records in the order in which they are listed.
pub fn listing_order(records: &Vec<AuditRecord>, order: SortOrder) -> (list: Vec<usize>)
    ensures
        list@ == sorted_places(records@, order, records@.len() as int),
        list@.len() == records@.len(),
        forall|i: int| 0 <= i < list@.len() ==> (#[trigger] list@[i]) < records@.len(),
        in_listing_order(records@, order, list@),
{
    let mut list: Vec<usize> = Vec::new();
    let mut done: usize = 0;
    while done < records.len()
        invariant
            done <= records@.len(),
            list@ == sorted_places(records@, order, done as int),
            list@.len() == done,
            forall|i: int| 0 <= i < list@.len() ==> (#[trigger] list@[i]) < done,
            in_listing_order(records@, order, list@),
        decreases records@.len() - done,
    {
        let mut at: usize = 0;
        while at < list.len() && !listed_before(records, order, done, list[at])
            invariant
                at <= list@.len(),
                done < records@.len(),
                forall|i: int| 0 <= i < list@.len() ==> (#[trigger] list@[i]) < done,
                turn(records@, order, list@, done as int, 0) == turn(
                    records@,
                    order,
                    list@,
                    done as int,
                    at as int,
                ),
            decreases list@.len() - at,
        {
            at = at + 1;
        }
        proof {
            turn_splits(records@, order, list@, done as int, 0);
        }
        let ghost before = list@;
        list.insert(at, done);
        proof {
            assert forall|i: int| 0 <= i < list@.len() implies (#[trigger] list@[i]) < done + 1 by {
                if i < at {
                    assert(list@[i] == before[i]);
                } else if i > at {
                    assert(list@[i] == before[i - 1]);
                }
            }
            assert forall|i: int, j: int| 0 <= i < j < list@.len() implies !precedes(
                records@,
                order,
                (#[trigger] list@[j]) as int,
                (#[trigger] list@[i]) as int,
            ) by {
                let bi = if i < at { i } else { i - 1 };
                let bj = if j < at { j } else { j - 1 };
                if i != at {
                    assert(list@[i] == before[bi]);
                }
                if j != at {
                    assert(list@[j] == before[bj]);
                }
                if i == at {
                    assert(precedes(records@, order, done as int, before[at as int] as int));
                    assert(bj == at || !precedes(records@, order, before[bj] as int, before[at as int] as int));
                }
            }
        }
        done = done + 1;
    }
    list
}

} // verus!
