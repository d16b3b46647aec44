//! The sessions of a run: every session event of every log, filed under its key.

use vstd::prelude::*;
use crate::record::{AuditRecord, EventKey};
use crate::sequence::reversed;
use crate::session::{Session, SessionView, key_before};
use crate::session_event::{SessionEvent, SessionEventView};
use crate::session_id::SessionKey;
use crate::text::same_text;

verus! {

/// The sessions found so far, in the order in which their first events were
/// met. No two of them have the same key.
#[derive(Debug)]
pub struct SessionStore {
    pub sessions: Vec<Session>,
}

/// The views of the sessions, one by one.
pub open spec fn session_views(sessions: Seq<Session>) -> Seq<SessionView> {
    Seq::new(sessions.len(), |i: int| sessions[i]@)
}

/// The records of each log.
pub open spec fn contents(files: Seq<Vec<AuditRecord>>) -> Seq<Seq<AuditRecord>> {
    Seq::new(files.len(), |i: int| files[i]@)
}

/// The first position at or after `from` of a session with the key `id`;
/// the length of `views` where there is none.
pub open spec fn place(views: Seq<SessionView>, id: SessionKey, from: int) -> int
    decreases views.len() - from,
{
    if from < 0 || from >= views.len() || views[from].id == id {
        from
    } else {
        place(views, id, from + 1)
    }
}

/// The sessions after `event` was filed: added to the session of its key,
/// or opening a new session behind the others.
pub open spec fn upserted(views: Seq<SessionView>, event: SessionEventView) -> Seq<SessionView> {
    let at = place(views, event.id, 0);
    if 0 <= at < views.len() {
        views.update(at, views[at].with(event))
    } else {
        views.push(SessionView::started_by(event))
    }
}

/// The sessions after the first `upto` of `records` were read: each record
/// that is a session event is filed, the others are passed over.
pub open spec fn absorbed(views: Seq<SessionView>, records: Seq<AuditRecord>, upto: int) -> Seq<SessionView>
    decreases upto,
{
    if upto <= 0 {
        views
    } else {
        let earlier = absorbed(views, records, upto - 1);
        match SessionEvent::classified(records[upto - 1]) {
            Ok(event) => upserted(earlier, event),
            Err(_) => earlier,
        }
    }
}

/// The sessions after the first `upto` of `files` were read, one after the other.
pub open spec fn gathered(files: Seq<Seq<AuditRecord>>, upto: int) -> Seq<SessionView>
    decreases upto,
{
    if upto <= 0 {
        Seq::empty()
    } else {
        absorbed(gathered(files, upto - 1), files[upto - 1], files[upto - 1].len() as int)
    }
}

/// Those of the first `upto` of `views` for which a user is known.
pub open spec fn named_only(views: Seq<SessionView>, upto: int) -> Seq<SessionView>
    decreases upto,
{
    if upto <= 0 {
        Seq::empty()
    } else if views[upto - 1].anonymous() {
        named_only(views, upto - 1)
    } else {
        named_only(views, upto - 1).push(views[upto - 1])
    }
}

/// The sessions that an import of `files` gives.
pub open spec fn imported(files: Seq<Seq<AuditRecord>>, include_anonymous: bool) -> Seq<SessionView> {
    let all = gathered(files, files.len() as int);
    if include_anonymous {
        all
    } else {
        named_only(all, all.len() as int)
    }
}

/// The first position at or after `from` of a session that begins after `key`.
pub open spec fn rank(views: Seq<SessionView>, key: EventKey, from: int) -> int
    decreases views.len() - from,
{
    if from < 0 || from >= views.len() || key.before(views[from].first_key()) {
        from
    } else {
        rank(views, key, from + 1)
    }
}

/// The first `upto` of `views` in the order of their first events; sessions
/// that begin at the same place keep the order that they had.
pub open spec fn arranged(views: Seq<SessionView>, upto: int) -> Seq<SessionView>
    decreases upto,
{
    if upto <= 0 {
        Seq::empty()
    } else {
        let earlier = arranged(views, upto - 1);
        earlier.insert(rank(earlier, views[upto - 1].first_key(), 0), views[upto - 1])
    }
}

/// No session begins before one that stands before it.
pub open spec fn by_first_event(views: Seq<SessionView>) -> bool {
    forall|i: int, j: int|
        0 <= i < j < views.len() ==> !(#[trigger] views[j]).first_key().before(
            (#[trigger] views[i]).first_key(),
        )
}

/// Before its rank stand the sessions that do not begin after `key`; at it, one that does.
pub proof fn rank_splits(views: Seq<SessionView>, key: EventKey, from: int)
    requires
        0 <= from <= views.len(),
    ensures
        from <= rank(views, key, from) <= views.len(),
        forall|i: int|
            from <= i < rank(views, key, from) ==> !key.before((#[trigger] views[i]).first_key()),
        rank(views, key, from) < views.len() ==> key.before(
            views[rank(views, key, from)].first_key(),
        ),
    decreases views.len() - from,
{
    if from < views.len() && !key.before(views[from].first_key()) {
        rank_splits(views, key, from + 1);
    }
}

/// Every session is well-formed and no two have the same key.
pub open spec fn store_wf(views: Seq<SessionView>) -> bool {
    &&& forall|i: int| 0 <= i < views.len() ==> (#[trigger] views[i]).wf()
    &&& forall|i: int, j: int|
        0 <= i < j < views.len() ==> (#[trigger] views[i]).id != (#[trigger] views[j]).id
}

/// At its place stands the first session of the key, where there is one.
pub proof fn place_finds(views: Seq<SessionView>, id: SessionKey, from: int)
    requires
        0 <= from <= views.len(),
    ensures
        from <= place(views, id, from) <= views.len(),
        forall|i: int| from <= i < place(views, id, from) ==> (#[trigger] views[i]).id != id,
        place(views, id, from) < views.len() ==> views[place(views, id, from)].id == id,
    decreases views.len() - from,
{
    if from < views.len() && views[from].id != id {
        place_finds(views, id, from + 1);
    }
}

/// Filing an event keeps the sessions well-formed and their keys distinct.
pub proof fn upserted_keeps_wf(views: Seq<SessionView>, event: SessionEventView)
    requires
        store_wf(views),
    ensures
        store_wf(upserted(views, event)),
{
    let at = place(views, event.id, 0);
    place_finds(views, event.id, 0);
    let after = upserted(views, event);
    if at < views.len() {
        crate::session::with_keeps_wf(views[at], event);
        assert forall|i: int| 0 <= i < after.len() implies (#[trigger] after[i]).wf() by {
            if i != at {
                assert(after[i] == views[i]);
            }
        }
        assert forall|i: int, j: int| 0 <= i < j < after.len() implies (#[trigger] after[i]).id != (
        #[trigger] after[j]).id by {
            assert(after[i].id == views[i].id);
            assert(after[j].id == views[j].id);
        }
    } else {
        let opened = SessionView::started_by(event);
        assert(opened.usernames.len() <= 1);
        if let Some(name) = crate::session::username_of(event.record) {
            assert(opened.usernames[0] == name);
        }
        assert(opened.wf());
        assert forall|i: int| 0 <= i < after.len() implies (#[trigger] after[i]).wf() by {
            if i < views.len() {
                assert(after[i] == views[i]);
            }
        }
        assert forall|i: int, j: int| 0 <= i < j < after.len() implies (#[trigger] after[i]).id != (
        #[trigger] after[j]).id by {
            assert(after[i] == views[i]);
            if j < views.len() {
                assert(after[j] == views[j]);
            }
        }
    }
}

impl View for SessionStore {
    type V = Seq<SessionView>;

    open spec fn view(&self) -> Seq<SessionView> {
        session_views(self.sessions@)
    }
}

impl SessionStore {
    /// Every session is well-formed and no two have the same key.
    pub open spec fn wf(self) -> bool {
        store_wf(self@)
    }

    /// A store without sessions.
    pub fn new() -> (store: SessionStore)
        ensures
            store@ == Seq::<SessionView>::empty(),
            store.wf(),
    {
        let store = SessionStore { sessions: Vec::new() };
        assert(store@ =~= Seq::<SessionView>::empty());
        store
    }

    /// Files `event` under its key.
    pub fn add_event(&mut self, event: SessionEvent)
        requires
            old(self).wf(),
        ensures
            final(self)@ == upserted(old(self)@, event@),
            final(self).wf(),
    {
        proof {
            upserted_keeps_wf(self@, event@);
            place_finds(self@, event@.id, 0);
        }
        let mut at: usize = 0;
        while at < self.sessions.len() && !self.sessions[at].session_id.same_as(&event.session_id)
            invariant
                at <= self.sessions@.len(),
                place(self@, event@.id, 0) == place(self@, event@.id, at as int),
            decreases self.sessions@.len() - at,
        {
            at = at + 1;
        }
        let ghost before = self.sessions@;
        if at < self.sessions.len() {
            let mut session = self.sessions.remove(at);
            assert(session@ == session_views(before)[at as int]);
            session.add_event(event);
            self.sessions.insert(at, session);
            assert(self@ =~= session_views(before).update(at as int, session@));
        } else {
            let session = Session::from(event);
            self.sessions.push(session);
            assert(self@ =~= session_views(before).push(session@));
        }
    }

    /// Files every session event among `records`, in their order.
    pub fn add_records(&mut self, records: Vec<AuditRecord>)
        requires
            old(self).wf(),
        ensures
            final(self)@ == absorbed(old(self)@, records@, records@.len() as int),
            final(self).wf(),
    {
        let ghost all = records@;
        let ghost count = records@.len() as int;
        let mut rest = reversed(records);
        let ghost mut done: int = 0;
        while rest.len() > 0
            invariant
                self.wf(),
                all.len() == count,
                rest@.len() + done == count,
                0 <= done,
                forall|i: int| 0 <= i < rest@.len() ==> rest@[i] == all[count - 1 - i],
                self@ == absorbed(old(self)@, all, done),
            decreases rest@.len(),
        {
            match rest.pop() {
                Some(record) => {
                    assert(record == all[done]);
                    match SessionEvent::try_from(record) {
                        Ok(event) => {
                            self.add_event(event);
                        },
                        Err(_) => {},
                    }
                    proof {
                        done = done + 1;
                    }
                },
                None => {},
            }
        }
    }

    /// Leaves out the sessions for which no user is known.
    pub fn without_anonymous(self) -> (store: SessionStore)
        requires
            self.wf(),
        ensures
            store@ == named_only(self@, self@.len() as int),
            store.wf(),
    {
        let ghost all = self@;
        let ghost count = self@.len() as int;
        let ghost items = self.sessions@;
        let mut rest = reversed(self.sessions);
        let mut kept: Vec<Session> = Vec::new();
        let ghost mut done: int = 0;
        assert(session_views(kept@) =~= named_only(all, 0));
        while rest.len() > 0
            invariant
                store_wf(all),
                all == session_views(items),
                items.len() == count,
                rest@.len() + done == count,
                0 <= done,
                forall|i: int| 0 <= i < rest@.len() ==> rest@[i] == items[count - 1 - i],
                session_views(kept@) == named_only(all, done),
                kept@.len() <= done,
                forall|k: int|
                    0 <= k < kept@.len() ==> exists|i: int|
                        0 <= i < done && all[i] == (#[trigger] kept@[k])@,
                forall|j: int, k: int|
                    0 <= j < k < kept@.len() ==> (#[trigger] kept@[j])@.id != (#[trigger] kept@[k])@.id,
            decreases rest@.len(),
        {
            match rest.pop() {
                Some(session) => {
                    assert(session == items[done]);
                    assert(session@ == all[done]);
                    if !session.is_anonymous() {
                        let ghost before = kept@;
                        kept.push(session);
                        assert(session_views(kept@) =~= session_views(before).push(session@));
                        assert forall|j: int, k: int| 0 <= j < k < kept@.len() implies (
                        #[trigger] kept@[j])@.id != (#[trigger] kept@[k])@.id by {
                            if k == kept@.len() - 1 {
                                assert(kept@[j] == before[j]);
                                let i = choose|i: int| 0 <= i < done && all[i] == before[j]@;
                                assert(all[i].id != all[done].id);
                            } else {
                                assert(kept@[j] == before[j]);
                                assert(kept@[k] == before[k]);
                            }
                        }
                        assert forall|k: int| 0 <= k < kept@.len() implies exists|i: int|
                            0 <= i < done + 1 && all[i] == (#[trigger] kept@[k])@ by {
                            if k == kept@.len() - 1 {
                                assert(all[done] == kept@[k]@);
                            } else {
                                assert(kept@[k] == before[k]);
                                let i = choose|i: int| 0 <= i < done && all[i] == before[k]@;
                                assert(all[i] == kept@[k]@);
                            }
                        }
                    }
                    proof {
                        done = done + 1;
                    }
                },
                None => {},
            }
        }
        let store = SessionStore { sessions: kept };
        proof {
            assert forall|k: int| 0 <= k < store@.len() implies (#[trigger] store@[k]).wf() by {
                let i = choose|i: int| 0 <= i < done && all[i] == kept@[k]@;
                assert(all[i].wf());
            }
            assert forall|j: int, k: int| 0 <= j < k < store@.len() implies (#[trigger] store@[j]).id != (
            #[trigger] store@[k]).id by {
                assert(kept@[j]@.id != kept@[k]@.id);
            }
        }
        store
    }

    /// Reads the session events of every log in `files`, one log after the
    /// other, and files them; then leaves out the sessions without a known
    /// user unless `include_anonymous` is set.
    pub fn import(files: Vec<Vec<AuditRecord>>, include_anonymous: bool) -> (store: SessionStore)
        ensures
            store@ == imported(contents(files@), include_anonymous),
            store.wf(),
    {
        let ghost all = contents(files@);
        let ghost lists = files@;
        let ghost count = files@.len() as int;
        let mut store = SessionStore::new();
        let mut rest = reversed(files);
        let ghost mut done: int = 0;
        while rest.len() > 0
            invariant
                store.wf(),
                all == contents(lists),
                lists.len() == count,
                rest@.len() + done == count,
                0 <= done,
                forall|i: int| 0 <= i < rest@.len() ==> rest@[i] == lists[count - 1 - i],
                store@ == gathered(all, done),
            decreases rest@.len(),
        {
            match rest.pop() {
                Some(records) => {
                    assert(records == lists[done]);
                    assert(records@ == all[done]);
                    store.add_records(records);
                    proof {
                        done = done + 1;
                    }
                },
                None => {},
            }
        }
        if include_anonymous {
            store
        } else {
            store.without_anonymous()
        }
    }

    /// The sessions in the order of their first events. Sessions that begin
    /// at the same place stay in the order in which they were opened.
    pub fn into_sorted(self) -> (sessions: Vec<Session>)
        requires
            self.wf(),
        ensures
            session_views(sessions@) == arranged(self@, self@.len() as int),
            by_first_event(session_views(sessions@)),
            sessions@.to_multiset() == self.sessions@.to_multiset(),
    {
        let ghost all = self@;
        let ghost items = self.sessions@;
        let ghost count = self.sessions@.len() as int;
        let mut rest = reversed(self.sessions);
        let mut sorted: Vec<Session> = Vec::new();
        let ghost mut done: int = 0;
        assert(session_views(sorted@) =~= arranged(all, 0));
        assert(items.take(0) =~= sorted@);
        while rest.len() > 0
            invariant
                store_wf(all),
                all == session_views(items),
                items.len() == count,
                rest@.len() + done == count,
                0 <= done,
                forall|i: int| 0 <= i < rest@.len() ==> rest@[i] == items[count - 1 - i],
                session_views(sorted@) == arranged(all, done),
                by_first_event(session_views(sorted@)),
                sorted@.to_multiset() == items.take(done).to_multiset(),
                forall|k: int| 0 <= k < sorted@.len() ==> (#[trigger] sorted@[k])@.events.len() > 0,
            decreases rest@.len(),
        {
            match rest.pop() {
                Some(session) => {
                    assert(session == items[done]);
                    assert(session@ == all[done]);
                    assert(session@.wf());
                    let ghost views = session_views(sorted@);
                    let ghost key = session@.first_key();
                    let mut at: usize = 0;
                    while at < sorted.len() && !key_before(
                        &session.events[0].record,
                        &sorted[at].events[0].record,
                    )
                        invariant
                            at <= sorted@.len(),
                            session@.events.len() > 0,
                            views == session_views(sorted@),
                            key == session@.first_key(),
                            forall|k: int|
                                0 <= k < sorted@.len() ==> (#[trigger] sorted@[k])@.events.len() > 0,
                            rank(views, key, 0) == rank(views, key, at as int),
                        decreases sorted@.len() - at,
                    {
                        at = at + 1;
                    }
                    let ghost before = sorted@;
                    sorted.insert(at, session);
                    proof {
                        rank_splits(views, key, 0);
                        let after = session_views(sorted@);
                        assert(after =~= views.insert(at as int, session@));
                        assert forall|i: int, j: int| 0 <= i < j < after.len() implies !(
                        #[trigger] after[j]).first_key().before((#[trigger] after[i]).first_key()) by {
                            let bi = if i < at { i } else { i - 1 };
                            let bj = if j < at { j } else { j - 1 };
                            if i != at {
                                assert(after[i] == views[bi]);
                            }
                            if j != at {
                                assert(after[j] == views[bj]);
                            }
                            if i == at {
                                assert(key.before(views[at as int].first_key()));
                                assert(!views[bj].first_key().before(views[at as int].first_key()));
                            }
                        }
                        assert forall|k: int| 0 <= k < sorted@.len() implies (
                        #[trigger] sorted@[k])@.events.len() > 0 by {
                            if k < at {
                                assert(sorted@[k] == before[k]);
                            } else if k > at {
                                assert(sorted@[k] == before[k - 1]);
                            }
                        }
                        vstd::seq_lib::to_multiset_insert(before, at as int, session);
                        vstd::seq_lib::to_multiset_build(items.take(done), session);
                        assert(items.take(done + 1) =~= items.take(done).push(session));
                        done = done + 1;
                    }
                },
                None => {},
            }
        }
        assert(items.take(count) =~= items);
        sorted
    }

    /// The first position at or after `from` of a session whose key holds
    /// the text `text`; the length of `views` where there is none.
    pub open spec fn place_of_text(views: Seq<SessionView>, text: Seq<char>, from: int) -> int
        decreases views.len() - from,
    {
        if from < 0 || from >= views.len() || views[from].id.text() == text {
            from
        } else {
            Self::place_of_text(views, text, from + 1)
        }
    }

    /// Looks for the session whose key holds the text `session_id`; where
    /// keys of several kinds hold it, the first such session is found.
    pub fn find_session(&self, session_id: &str) -> (found: Option<&Session>)
        ensures
            match found {
                Some(session) => {
                    let at = Self::place_of_text(self@, session_id@, 0);
                    0 <= at < self.sessions@.len() && *session == self.sessions@[at]
                },
                None => Self::place_of_text(self@, session_id@, 0) >= self.sessions@.len(),
            },
    {
        let mut at: usize = 0;
        while at < self.sessions.len()
            invariant
                at <= self.sessions@.len(),
                Self::place_of_text(self@, session_id@, 0) == Self::place_of_text(
                    self@,
                    session_id@,
                    at as int,
                ),
            decreases self.sessions@.len() - at,
        {
            if same_text(self.sessions[at].session_id.value(), session_id) {
                return Some(&self.sessions[at]);
            }
            at = at + 1;
        }
        None
    }
}

} // verus!
