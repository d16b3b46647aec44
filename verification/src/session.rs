//! A session: the events filed under one key, in the order of events.

use vstd::prelude::*;
use crate::record::{AuditRecord, EventKey, Timestamp, event_text_of};
use crate::session_event::{EventRow, SessionEvent, SessionEventView};
use crate::session_id::{SessionId, SessionKey};
use crate::text::same_text;

verus! {

/// The events of one session and the names of the users seen in them.
/// A session is made together with its first event and never empties.
/// `events` is in the order of events and holds no two events of one place;
/// `usernames` holds each name once, in the order in which they were seen.
#[derive(Debug)]
pub struct Session {
    pub events: Vec<SessionEvent>,
    pub session_id: SessionId,
    pub usernames: Vec<String>,
}

/// A `Session` with its texts as sequences of characters.
pub struct SessionView {
    pub id: SessionKey,
    pub events: Seq<SessionEventView>,
    pub usernames: Seq<Seq<char>>,
}

/// What a session looks like from outside: its bounds, its users and the
/// number of its events.
#[derive(Debug)]
pub struct SessionAsJson {
    pub begin: Timestamp,
    pub end: Timestamp,
    /// The nanoseconds from `begin` to `end`.
    pub duration: i128,
    pub session_id: SessionId,
    pub usernames: Vec<String>,
    pub events: usize,
}

/// The views of the events, one by one.
pub open spec fn event_views(events: Seq<SessionEvent>) -> Seq<SessionEventView> {
    Seq::new(events.len(), |i: int| events[i]@)
}

/// The characters of each text.
pub open spec fn texts(names: Seq<String>) -> Seq<Seq<char>> {
    Seq::new(names.len(), |i: int| names[i]@)
}

/// The user that a record names as the one logged on: the text at
/// `Event.EventData.TargetUserName`.
pub open spec fn username_of(record: AuditRecord) -> Option<Seq<char>> {
    event_text_of(record.data, "TargetUserName"@)
}

/// The first position at or after `from` whose event does not come before `key`.
pub open spec fn slot(events: Seq<SessionEventView>, key: EventKey, from: int) -> int
    decreases events.len() - from,
{
    if from < 0 || from >= events.len() || !events[from].key().before(key) {
        from
    } else {
        slot(events, key, from + 1)
    }
}

/// `events` with `event` filed at its place; where an event of the same
/// place is there already, that one stays and `event` is left out.
pub open spec fn filed(events: Seq<SessionEventView>, event: SessionEventView) -> Seq<SessionEventView> {
    let at = slot(events, event.key(), 0);
    if 0 <= at < events.len() && events[at].key() == event.key() {
        events
    } else {
        events.insert(at, event)
    }
}

/// `names` with `name` added at the end, unless it is there already.
pub open spec fn noted(names: Seq<Seq<char>>, name: Option<Seq<char>>) -> Seq<Seq<char>> {
    match name {
        Some(n) => if names.contains(n) {
            names
        } else {
            names.push(n)
        },
        None => names,
    }
}

/// The events stand in the strict order of events.
pub open spec fn in_order(events: Seq<SessionEventView>) -> bool {
    forall|i: int, j: int|
        0 <= i < j < events.len() ==> (#[trigger] events[i]).key().before(
            (#[trigger] events[j]).key(),
        )
}

impl SessionView {
    /// The session that `event` opens.
    pub open spec fn started_by(event: SessionEventView) -> SessionView {
        SessionView {
            id: event.id,
            events: seq![event],
            usernames: noted(Seq::empty(), username_of(event.record)),
        }
    }

    /// The session after `event` was added to it.
    pub open spec fn with(self, event: SessionEventView) -> SessionView {
        SessionView {
            id: self.id,
            events: filed(self.events, event),
            usernames: noted(self.usernames, username_of(event.record)),
        }
    }

    /// The session holds an event; its events stand in the strict order
    /// of events and are all of its key; no user is named twice, and every
    /// user that an event names is among the users.
    pub open spec fn wf(self) -> bool {
        &&& self.events.len() > 0
        &&& in_order(self.events)
        &&& forall|i: int| 0 <= i < self.events.len() ==> (#[trigger] self.events[i]).id == self.id
        &&& self.usernames.no_duplicates()
        &&& forall|i: int|
            0 <= i < self.events.len() ==> (username_of((#[trigger] self.events[i]).record) matches Some(
                name,
            ) ==> self.usernames.contains(name))
    }

    /// The instant of the first event.
    pub open spec fn begin(self) -> Timestamp {
        self.events[0].record.timestamp
    }

    /// The instant of the last event.
    pub open spec fn end(self) -> Timestamp {
        self.events[self.events.len() - 1].record.timestamp
    }

    /// The place of the first event in the order of events.
    pub open spec fn first_key(self) -> EventKey {
        self.events[0].key()
    }

    /// No user is known for the session.
    pub open spec fn anonymous(self) -> bool {
        self.usernames.len() == 0
    }
}

impl View for Session {
    type V = SessionView;

    open spec fn view(&self) -> SessionView {
        SessionView {
            id: self.session_id@,
            events: event_views(self.events@),
            usernames: texts(self.usernames@),
        }
    }
}

/// Before its slot stand the events that come before `key`; at it, none that does.
pub proof fn slot_splits(events: Seq<SessionEventView>, key: EventKey, from: int)
    requires
        0 <= from <= events.len(),
    ensures
        from <= slot(events, key, from) <= events.len(),
        forall|i: int| from <= i < slot(events, key, from) ==> (#[trigger] events[i]).key().before(key),
        slot(events, key, from) < events.len() ==> !events[slot(events, key, from)].key().before(key),
    decreases events.len() - from,
{
    if from < events.len() && events[from].key().before(key) {
        slot_splits(events, key, from + 1);
    }
}

/// What filing changes: every event that was there stays, the place of
/// the new event is taken, and nothing else comes in.
pub proof fn filed_facts(events: Seq<SessionEventView>, event: SessionEventView)
    ensures
        forall|k: int|
            0 <= k < filed(events, event).len() ==> (#[trigger] filed(events, event)[k]) == event
                || events.contains(filed(events, event)[k]),
        forall|k: int| 0 <= k < events.len() ==> filed(events, event).contains(#[trigger] events[k]),
        exists|k: int|
            0 <= k < filed(events, event).len() && (#[trigger] filed(events, event)[k]).key()
                == event.key(),
{
    let at = slot(events, event.key(), 0);
    slot_splits(events, event.key(), 0);
    let after = filed(events, event);
    if at < events.len() && events[at].key() == event.key() {
        assert(after[at].key() == event.key());
        assert forall|k: int| 0 <= k < after.len() implies (#[trigger] after[k]) == event
            || events.contains(after[k]) by {
            assert(events[k] == after[k]);
        }
        assert forall|k: int| 0 <= k < events.len() implies after.contains(#[trigger] events[k]) by {
            assert(after[k] == events[k]);
        }
    } else {
        assert(after[at] == event);
        assert forall|k: int| 0 <= k < after.len() implies (#[trigger] after[k]) == event
            || events.contains(after[k]) by {
            if k < at {
                assert(events[k] == after[k]);
            } else if k > at {
                assert(events[k - 1] == after[k]);
            }
        }
        assert forall|k: int| 0 <= k < events.len() implies after.contains(#[trigger] events[k]) by {
            if k < at {
                assert(after[k] == events[k]);
            } else {
                assert(after[k + 1] == events[k]);
            }
        }
    }
}

/// Adding an event of the session's own key keeps a session well-formed.
pub proof fn with_keeps_wf(session: SessionView, event: SessionEventView)
    requires
        session.wf(),
        event.id == session.id,
    ensures
        session.with(event).wf(),
{
    let key = event.key();
    let at = slot(session.events, key, 0);
    slot_splits(session.events, key, 0);
    let after = filed(session.events, event);
    if !(at < session.events.len() && session.events[at].key() == key) {
        assert forall|i: int, j: int| 0 <= i < j < after.len() implies (#[trigger] after[i]).key().before(
            (#[trigger] after[j]).key(),
        ) by {
            let bi = if i < at { i } else { i - 1 };
            let bj = if j < at { j } else { j - 1 };
            if i != at {
                assert(after[i] == session.events[bi]);
            }
            if j != at {
                assert(after[j] == session.events[bj]);
            }
            if i == at {
                assert(!session.events[at].key().before(key));
                assert(at == bj || session.events[at].key().before(session.events[bj].key()));
            }
        }
        assert forall|i: int| 0 <= i < after.len() implies (#[trigger] after[i]).id == session.id by {
            if i < at {
                assert(after[i] == session.events[i]);
            } else if i > at {
                assert(after[i] == session.events[i - 1]);
            }
        }
    }
    filed_facts(session.events, event);
    let names = noted(session.usernames, username_of(event.record));
    assert forall|i: int| 0 <= i < after.len() implies (username_of(
        (#[trigger] after[i]).record,
    ) matches Some(name) ==> names.contains(name)) by {
        if let Some(name) = username_of(after[i].record) {
            if after[i] == event {
                if !session.usernames.contains(name) {
                    assert(names[names.len() - 1] == name);
                }
            } else {
                let k = choose|k: int| 0 <= k < session.events.len() && session.events[k] == after[i];
                assert(session.usernames.contains(name));
                let m = choose|m: int| 0 <= m < session.usernames.len() && session.usernames[m] == name;
                assert(names[m] == name);
            }
        }
    }
    match username_of(event.record) {
        Some(n) => {
            if !session.usernames.contains(n) {
                let names = session.usernames.push(n);
                assert forall|i: int, j: int| 0 <= i < names.len() && 0 <= j < names.len() && i != j implies names[i] != names[j] by {
                    if i < session.usernames.len() {
                        assert(session.usernames.contains(names[i]));
                    }
                    if j < session.usernames.len() {
                        assert(session.usernames.contains(names[j]));
                    }
                }
            }
        },
        None => {},
    }
}

pub(crate) fn key_before(a: &AuditRecord, b: &AuditRecord) -> (before: bool)
    ensures
        before == a.key().before(b.key()),
{
    a.timestamp.is_before(&b.timestamp) || (a.timestamp.secs == b.timestamp.secs
        && a.timestamp.nanos == b.timestamp.nanos && a.event_record_id < b.event_record_id)
}

fn same_key(a: &AuditRecord, b: &AuditRecord) -> (same: bool)
    ensures
        same == (a.key() == b.key()),
{
    a.timestamp.secs == b.timestamp.secs && a.timestamp.nanos == b.timestamp.nanos
        && a.event_record_id == b.event_record_id
}

fn note(names: &mut Vec<String>, name: Option<&str>)
    ensures
        texts(final(names)@) == noted(texts(old(names)@), crate::filter::optional_text(name)),
{
    match name {
        Some(n) => {
            let mut i: usize = 0;
            while i < names.len()
                invariant
                    i <= names@.len(),
                    names@ == old(names)@,
                    name == Some(n),
                    forall|k: int| 0 <= k < i ==> texts(names@)[k] != n@,
                decreases names@.len() - i,
            {
                if same_text(names[i].as_str(), n) {
                    assert(texts(names@)[i as int] == n@);
                    assert(texts(names@).contains(n@));
                    return ;
                }
                i = i + 1;
            }
            let ghost before = names@;
            names.push(n.to_owned());
            assert(texts(names@) =~= texts(before).push(n@));
        },
        None => {},
    }
}

impl Session {
    /// The session is well-formed, as its view says.
    pub open spec fn wf(self) -> bool {
        self@.wf()
    }

    /// Opens a session with its first event.
    pub fn from(value: SessionEvent) -> (session: Session)
        ensures
            session@ == SessionView::started_by(value@),
            session.wf(),
    {
        let session_id = value.session_id.duplicate();
        let mut usernames: Vec<String> = Vec::new();
        assert(texts(usernames@) =~= Seq::<Seq<char>>::empty());
        note(&mut usernames, value.record.event_text("TargetUserName"));
        let mut events: Vec<SessionEvent> = Vec::new();
        events.push(value);
        assert(event_views(events@) =~= seq![value@]);
        let session = Session { events, session_id, usernames };
        proof {
            let names = session@.usernames;
            assert(names.len() <= 1);
            if let Some(name) = username_of(value@.record) {
                assert(names[0] == name);
            }
        }
        session
    }

    /// The key of the session.
    pub fn session_id(&self) -> (id: &SessionId)
        ensures
            *id == self.session_id,
    {
        &self.session_id
    }

    /// Adds an event of this session's key.
    pub fn add_event(&mut self, event: SessionEvent)
        requires
            old(self).wf(),
            event@.id == old(self)@.id,
        ensures
            final(self)@ == old(self)@.with(event@),
            final(self).wf(),
    {
        proof {
            with_keeps_wf(self@, event@);
        }
        note(&mut self.usernames, event.record.event_text("TargetUserName"));
        let mut at: usize = 0;
        while at < self.events.len() && key_before(&self.events[at].record, &event.record)
            invariant
                at <= self.events@.len(),
                slot(event_views(self.events@), event@.key(), 0) == slot(
                    event_views(self.events@),
                    event@.key(),
                    at as int,
                ),
            decreases self.events@.len() - at,
        {
            at = at + 1;
        }
        let taken: bool = at < self.events.len() && same_key(&self.events[at].record, &event.record);
        if !taken {
            let ghost before = self.events@;
            self.events.insert(at, event);
            assert(event_views(self.events@) =~= event_views(before).insert(at as int, event@));
        }
    }

    /// The earliest event.
    pub fn first_event(&self) -> (event: &SessionEvent)
        requires
            self.wf(),
        ensures
            *event == self.events@[0],
            event@.record.timestamp == self@.begin(),
    {
        &self.events[0]
    }

    /// The latest event.
    pub fn last_event(&self) -> (event: &SessionEvent)
        requires
            self.wf(),
        ensures
            *event == self.events@[self.events@.len() - 1],
            event@.record.timestamp == self@.end(),
    {
        &self.events[self.events.len() - 1]
    }

    /// Whether no user is known for the session.
    pub fn is_anonymous(&self) -> (anonymous: bool)
        ensures
            anonymous == self@.anonymous(),
    {
        self.usernames.len() == 0
    }

    /// Whether this session begins before `other`: whether its first event
    /// comes before the first event of `other`.
    pub fn begins_before(&self, other: &Session) -> (before: bool)
        requires
            self.wf(),
            other.wf(),
        ensures
            before == self@.first_key().before(other@.first_key()),
    {
        self.events[0].is_before(&other.events[0])
    }

    /// One row for each event, in the order of the events.
    pub fn rows(&self) -> (rows: Vec<EventRow>)
        ensures
            rows@.len() == self@.events.len(),
            forall|i: int|
                0 <= i < rows@.len() ==> #[trigger] rows@[i] == SessionEvent::row_of(self@.events[i]),
    {
        let mut rows: Vec<EventRow> = Vec::new();
        let mut at: usize = 0;
        while at < self.events.len()
            invariant
                at <= self.events@.len(),
                rows@.len() == at,
                forall|i: int|
                    0 <= i < at ==> #[trigger] rows@[i] == SessionEvent::row_of(self@.events[i]),
            decreases self.events@.len() - at,
        {
            rows.push(self.events[at].row());
            at = at + 1;
        }
        rows
    }

    /// The names of the users seen in the session.
    pub fn usernames(&self) -> (names: &Vec<String>)
        ensures
            texts(names@) == self@.usernames,
    {
        &self.usernames
    }

    /// The bounds, the users and the size of the session.
    pub fn into(self) -> (summary: SessionAsJson)
        requires
            self.wf(),
        ensures
            summary.begin == self@.begin(),
            summary.end == self@.end(),
            summary.duration == self@.end().nanos_since(self@.begin()),
            summary.session_id@ == self@.id,
            texts(summary.usernames@) == self@.usernames,
            summary.events == self@.events.len(),
    {
        let begin = self.first_event().record.timestamp;
        let end = self.last_event().record.timestamp;
        let duration = end.duration_since(&begin);
        let events: usize = self.events.len();
        SessionAsJson {
            begin,
            end,
            duration,
            session_id: self.session_id,
            usernames: self.usernames,
            events,
        }
    }
}

/// What a session's summary shows can be had from its events alone: no
/// event is earlier than `begin` or later than `end`, both are instants of
/// events, the time between them is not negative, and every user that an
/// event names is among the users.
pub proof fn summary_matches_events(session: SessionView, i: int)
    requires
        session.wf(),
        0 <= i < session.events.len(),
    ensures
        session.begin().not_after(session.events[i].record.timestamp),
        session.events[i].record.timestamp.not_after(session.end()),
        session.begin() == session.events[0].record.timestamp,
        session.end() == session.events[session.events.len() - 1].record.timestamp,
        session.begin().nanos < 1_000_000_000 && session.end().nanos < 1_000_000_000
            ==> session.end().nanos_since(session.begin()) >= 0,
        username_of(session.events[i].record) matches Some(name) ==> session.usernames.contains(name),
{
    let last = session.events.len() - 1;
    if 0 < i {
        assert(session.events[0].key().before(session.events[i].key()));
    }
    if i < last {
        assert(session.events[i].key().before(session.events[last].key()));
    }
    if 0 < last {
        assert(session.events[0].key().before(session.events[last].key()));
    }
    let b = session.begin();
    let e = session.end();
    assert(b.not_after(e));
    if b.nanos < 1_000_000_000 && e.nanos < 1_000_000_000 {
        assert((e.secs - b.secs) * 1_000_000_000 + (e.nanos - b.nanos) >= 0) by (nonlinear_arith)
            requires
                b.secs < e.secs || (b.secs == e.secs && b.nanos <= e.nanos),
                0 <= b.nanos < 1_000_000_000,
                0 <= e.nanos < 1_000_000_000,
        ;
    }
}

} // verus!
