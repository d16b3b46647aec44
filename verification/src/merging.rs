//! What an import does not depend on: the order of the logs, and how often
//! a log is read.
//!
//! Two events of one session that stand at the same place in the order of
//! events count as one; which of them a session keeps depends on the order
//! in which they were met. What is compared here is therefore what does not:
//! the keys of the sessions, the places of their events, their bounds, and
//! their users.

use vstd::prelude::*;
use crate::record::{AuditRecord, EventKey};
use crate::session::{SessionView, filed, filed_facts, noted, username_of};
use crate::session_event::{SessionEvent, SessionEventView};
use crate::session_id::SessionKey;
use crate::session_store::{
    absorbed, gathered, imported, named_only, place, place_finds, store_wf, upserted,
    upserted_keeps_wf,
};

verus! {

/// The session holds an event at the place `key`.
pub open spec fn has_key(session: SessionView, key: EventKey) -> bool {
    exists|k: int| 0 <= k < session.events.len() && (#[trigger] session.events[k]).key() == key
}

/// Two sessions have the same key, as many events, event by event at the
/// same places, the same bounds, and the same users.
#[verifier::opaque]
pub open spec fn alike(x: SessionView, y: SessionView) -> bool {
    &&& x.id == y.id
    &&& forall|key: EventKey| has_key(x, key) <==> has_key(y, key)
    &&& x.events.len() == y.events.len()
    &&& forall|i: int| 0 <= i < x.events.len() ==> (#[trigger] x.events[i]).key() == y.events[i].key()
    &&& x.begin() == y.begin()
    &&& x.end() == y.end()
    &&& forall|name: Seq<char>| x.usernames.contains(name) <==> y.usernames.contains(name)
}

/// One of `others` is like `x`.
#[verifier::opaque]
pub open spec fn has_like(x: SessionView, others: Seq<SessionView>) -> bool {
    exists|j: int| 0 <= j < others.len() && alike(x, #[trigger] others[j])
}

/// Each session of one side has its like on the other.
pub open spec fn same_sessions(a: Seq<SessionView>, b: Seq<SessionView>) -> bool {
    &&& forall|i: int| 0 <= i < a.len() ==> has_like(#[trigger] a[i], b)
    &&& forall|j: int| 0 <= j < b.len() ==> has_like(#[trigger] b[j], a)
}

/// The place in `others` of a session like `x`.
pub proof fn like_of(x: SessionView, others: Seq<SessionView>) -> (j: int)
    requires
        has_like(x, others),
    ensures
        0 <= j < others.len(),
        alike(x, others[j]),
{
    reveal(has_like);
    choose|j: int| 0 <= j < others.len() && alike(x, #[trigger] others[j])
}

/// A session has its like in `others` where one of them is like it.
pub proof fn has_like_at(x: SessionView, others: Seq<SessionView>, j: int)
    requires
        0 <= j < others.len(),
        alike(x, others[j]),
    ensures
        has_like(x, others),
{
    reveal(has_like);
}

/// Every log of one side is a log of the other.
pub open spec fn same_logs(a: Seq<Seq<AuditRecord>>, b: Seq<Seq<AuditRecord>>) -> bool {
    &&& forall|i: int| 0 <= i < a.len() ==> b.contains(#[trigger] a[i])
    &&& forall|j: int| 0 <= j < b.len() ==> a.contains(#[trigger] b[j])
}

/// `event` is what some record gives that stands in one of the first `full`
/// logs or among the first `part` records of the log behind them.
pub open spec fn met(files: Seq<Seq<AuditRecord>>, full: int, part: int, event: SessionEventView) -> bool {
    exists|f: int, r: int|
        0 <= f < files.len() && 0 <= r < files[f].len() && (f < full || (f == full && r < part))
            && #[trigger] SessionEvent::classified(files[f][r]) == Ok::<
            SessionEventView,
            crate::session_event::SessionEventError,
        >(event)
}

/// The events met so far.
pub open spec fn seen_upto(files: Seq<Seq<AuditRecord>>, full: int, part: int) -> Set<SessionEventView> {
    Set::new(|event: SessionEventView| met(files, full, part, event))
}

/// The session of the key `id` holds an event at the place `key`.
pub open spec fn holds_key(views: Seq<SessionView>, id: SessionKey, key: EventKey) -> bool {
    exists|i: int, k: int|
        0 <= i < views.len() && 0 <= k < views[i].events.len() && views[i].id == id && (
        #[trigger] views[i].events[k]).key() == key
}

/// The session of the key `id` knows the user `name`.
pub open spec fn holds_name(views: Seq<SessionView>, id: SessionKey, name: Seq<char>) -> bool {
    exists|i: int| 0 <= i < views.len() && (#[trigger] views[i]).id == id && views[i].usernames.contains(name)
}

/// An event in `seen` of the key `id` names the user `name`.
pub open spec fn names_user(seen: Set<SessionEventView>, id: SessionKey, name: Seq<char>) -> bool {
    exists|e: SessionEventView| #[trigger] seen.contains(e) && e.id == id && username_of(e.record) == Some(name)
}

/// The sessions hold what the events in `seen` call for and nothing else.
pub open spec fn reflects(views: Seq<SessionView>, seen: Set<SessionEventView>) -> bool {
    &&& store_wf(views)
    &&& forall|i: int, k: int|
        0 <= i < views.len() && 0 <= k < views[i].events.len() ==> seen.contains(
            #[trigger] views[i].events[k],
        )
    &&& forall|e: SessionEventView| #[trigger] seen.contains(e) ==> holds_key(views, e.id, e.key())
    &&& forall|i: int, name: Seq<char>|
        0 <= i < views.len() && #[trigger] views[i].usernames.contains(name) ==> names_user(
            seen,
            views[i].id,
            name,
        )
    &&& forall|e: SessionEventView| #[trigger]
        seen.contains(e) ==> match username_of(e.record) {
            Some(name) => holds_name(views, e.id, name),
            None => true,
        }
}

proof fn noted_facts(names: Seq<Seq<char>>, name: Option<Seq<char>>)
    ensures
        forall|u: Seq<char>| #[trigger]
            noted(names, name).contains(u) <==> names.contains(u) || name == Some(u),
{
    let after = noted(names, name);
    assert forall|u: Seq<char>| #[trigger] after.contains(u) <==> names.contains(u) || name == Some(
        u,
    ) by {
        if names.contains(u) {
            let m = choose|m: int| 0 <= m < names.len() && names[m] == u;
            assert(after[m] == u);
        }
        if name == Some(u) && !names.contains(u) {
            assert(after[after.len() - 1] == u);
        }
        if after.contains(u) {
            let m = choose|m: int| 0 <= m < after.len() && after[m] == u;
            if m < names.len() {
                assert(names[m] == u);
            }
        }
    }
}

proof fn upsert_reflects(views: Seq<SessionView>, seen: Set<SessionEventView>, event: SessionEventView)
    requires
        reflects(views, seen),
    ensures
        reflects(upserted(views, event), seen.insert(event)),
{
    let at = place(views, event.id, 0);
    place_finds(views, event.id, 0);
    upserted_keeps_wf(views, event);
    let after = upserted(views, event);
    let all = seen.insert(event);
    let old_events = if at < views.len() { views[at].events } else { Seq::empty() };
    let old_names = if at < views.len() { views[at].usernames } else { Seq::empty() };
    let new_events = after[at].events;
    let new_names = after[at].usernames;
    assert(after[at].id == event.id);
    assert(new_names == noted(old_names, username_of(event.record)));
    noted_facts(old_names, username_of(event.record));
    if at < views.len() {
        assert(new_events == filed(old_events, event));
        filed_facts(old_events, event);
    } else {
        assert(new_events[0] == event);
    }
    assert forall|i: int| 0 <= i < after.len() && i != at implies #[trigger] after[i] == views[i] by {}
    assert forall|i: int, k: int| 0 <= i < after.len() && 0 <= k < after[i].events.len() implies all.contains(
        #[trigger] after[i].events[k],
    ) by {
        if i != at {
            assert(after[i] == views[i]);
            assert(seen.contains(views[i].events[k]));
        } else if at < views.len() {
            if new_events[k] != event {
                let k0 = choose|k0: int| 0 <= k0 < old_events.len() && old_events[k0] == new_events[k];
                assert(seen.contains(views[at].events[k0]));
            }
        }
    }
    assert forall|e: SessionEventView| #[trigger] all.contains(e) implies holds_key(after, e.id, e.key()) by {
        if e == event {
            if at < views.len() {
                let k1 = choose|k1: int| 0 <= k1 < new_events.len() && (#[trigger] new_events[k1]).key() == event.key();
                assert(after[at].events[k1].key() == e.key());
            } else {
                assert(after[at].events[0].key() == e.key());
            }
        } else {
            assert(seen.contains(e));
            let (i0, k0) = choose|i0: int, k0: int|
                0 <= i0 < views.len() && 0 <= k0 < views[i0].events.len() && views[i0].id == e.id && (
                #[trigger] views[i0].events[k0]).key() == e.key();
            if i0 != at {
                assert(after[i0] == views[i0]);
                assert(after[i0].events[k0].key() == e.key());
            } else {
                assert(new_events.contains(old_events[k0]));
                let k1 = choose|k1: int| 0 <= k1 < new_events.len() && new_events[k1] == old_events[k0];
                assert(after[at].events[k1].key() == e.key());
            }
        }
    }
    assert forall|i: int, name: Seq<char>| 0 <= i < after.len() && #[trigger] after[i].usernames.contains(
        name,
    ) implies names_user(all, after[i].id, name) by {
        if i != at {
            assert(after[i] == views[i]);
            assert(views[i].usernames.contains(name));
            let e0 = choose|e0: SessionEventView| #[trigger] seen.contains(e0) && e0.id == views[i].id && username_of(e0.record) == Some(name);
            assert(all.contains(e0));
        } else {
            if old_names.contains(name) {
                assert(views[at].usernames.contains(name));
                let e0 = choose|e0: SessionEventView| #[trigger] seen.contains(e0) && e0.id == views[at].id && username_of(e0.record) == Some(name);
                assert(all.contains(e0));
            } else {
                assert(all.contains(event));
            }
        }
    }
    assert forall|e: SessionEventView| #[trigger] all.contains(e) implies match username_of(e.record) {
        Some(name) => holds_name(after, e.id, name),
        None => true,
    } by {
        if let Some(name) = username_of(e.record) {
            if e == event {
                assert(after[at].usernames.contains(name));
            } else {
                assert(seen.contains(e));
                let i0 = choose|i0: int| 0 <= i0 < views.len() && (#[trigger] views[i0]).id == e.id && views[i0].usernames.contains(name);
                if i0 != at {
                    assert(after[i0] == views[i0]);
                } else {
                    assert(after[at].usernames.contains(name));
                }
            }
        }
    }
}

proof fn absorbed_reflects(files: Seq<Seq<AuditRecord>>, full: int, part: int)
    requires
        0 <= full < files.len(),
        0 <= part <= files[full].len(),
        reflects(gathered(files, full), seen_upto(files, full, 0)),
    ensures
        reflects(absorbed(gathered(files, full), files[full], part), seen_upto(files, full, part)),
    decreases part,
{
    if part > 0 {
        absorbed_reflects(files, full, part - 1);
        let earlier = absorbed(gathered(files, full), files[full], part - 1);
        let before = seen_upto(files, full, part - 1);
        let now = seen_upto(files, full, part);
        match SessionEvent::classified(files[full][part - 1]) {
            Ok(event) => {
                upsert_reflects(earlier, before, event);
                assert forall|e: SessionEventView| before.insert(event).contains(e) implies now.contains(e) by {
                    if e != event {
                        assert(met(files, full, part - 1, e));
                    }
                }
                assert forall|e: SessionEventView| now.contains(e) implies before.insert(event).contains(e) by {
                    let (f, r) = choose|f: int, r: int|
                        0 <= f < files.len() && 0 <= r < files[f].len() && (f < full || (f == full && r < part))
                            && #[trigger] SessionEvent::classified(files[f][r]) == Ok::<
                            SessionEventView,
                            crate::session_event::SessionEventError,
                        >(e);
                    if !(f == full && r == part - 1) {
                        assert(met(files, full, part - 1, e));
                    }
                }
                assert(now =~= before.insert(event));
            },
            Err(_) => {
                assert forall|e: SessionEventView| now.contains(e) implies before.contains(e) by {
                    let (f, r) = choose|f: int, r: int|
                        0 <= f < files.len() && 0 <= r < files[f].len() && (f < full || (f == full && r < part))
                            && #[trigger] SessionEvent::classified(files[f][r]) == Ok::<
                            SessionEventView,
                            crate::session_event::SessionEventError,
                        >(e);
                    assert(met(files, full, part - 1, e));
                }
                assert forall|e: SessionEventView| before.contains(e) implies now.contains(e) by {
                    assert(met(files, full, part - 1, e));
                }
                assert(now =~= before);
            },
        }
    }
}

proof fn gathered_reflects(files: Seq<Seq<AuditRecord>>, upto: int)
    requires
        0 <= upto <= files.len(),
    ensures
        reflects(gathered(files, upto), seen_upto(files, upto, 0)),
    decreases upto,
{
    if upto > 0 {
        gathered_reflects(files, upto - 1);
        absorbed_reflects(files, upto - 1, files[upto - 1].len() as int);
        let before = seen_upto(files, upto - 1, files[upto - 1].len() as int);
        let now = seen_upto(files, upto, 0);
        assert forall|e: SessionEventView| before.contains(e) <==> now.contains(e) by {
            if before.contains(e) {
                assert(met(files, upto - 1, files[upto - 1].len() as int, e));
            }
            if now.contains(e) {
                assert(met(files, upto, 0, e));
            }
        }
        assert(now =~= before);
    }
}

proof fn alike_when_reflecting(a: Seq<SessionView>, b: Seq<SessionView>, seen: Set<SessionEventView>, i: int)
    requires
        reflects(a, seen),
        reflects(b, seen),
        0 <= i < a.len(),
    ensures
        has_like(a[i], b),
{
    let x = a[i];
    assert(x.wf());
    let first = x.events[0];
    assert(seen.contains(a[i].events[0]));
    assert(holds_key(b, first.id, first.key()));
    let (j, k) = choose|j: int, k: int|
        0 <= j < b.len() && 0 <= k < b[j].events.len() && b[j].id == first.id && (
        #[trigger] b[j].events[k]).key() == first.key();
    let y = b[j];
    assert(y.wf());
    assert(y.id == x.id);
    half_alike(a, b, seen, i, j);
    half_alike(b, a, seen, j, i);
    same_places(x, y, x.events.len() as int);
    same_places(y, x, y.events.len() as int);
    assert(alike(x, y)) by {
        reveal(alike);
    }
    has_like_at(x, b, j);
}

/// Of two like sessions either both are anonymous or neither is.
pub proof fn alike_in_anonymity(x: SessionView, y: SessionView)
    requires
        alike(x, y),
    ensures
        x.anonymous() == y.anonymous(),
{
    reveal(alike);
    if x.usernames.len() > 0 {
        assert(x.usernames.contains(x.usernames[0]));
        assert(y.usernames.contains(x.usernames[0]));
    }
    if y.usernames.len() > 0 {
        assert(y.usernames.contains(y.usernames[0]));
        assert(x.usernames.contains(y.usernames[0]));
    }
}

/// Two sessions that hold events at the same places hold them in the same
/// order: the first `upto` events of one stand at the places of the first
/// `upto` of the other.
proof fn same_places(x: SessionView, y: SessionView, upto: int)
    requires
        crate::session::in_order(x.events),
        crate::session::in_order(y.events),
        forall|key: EventKey| has_key(x, key) <==> has_key(y, key),
        0 <= upto <= x.events.len(),
    ensures
        upto <= y.events.len(),
        forall|i: int| 0 <= i < upto ==> (#[trigger] x.events[i]).key() == y.events[i].key(),
    decreases upto,
{
    if upto > 0 {
        same_places(x, y, upto - 1);
        let i = upto - 1;
        let kx = x.events[i].key();
        assert(has_key(x, kx));
        assert(has_key(y, kx));
        let m = choose|m: int| 0 <= m < y.events.len() && (#[trigger] y.events[m]).key() == kx;
        if m < i {
            assert(x.events[m].key().before(x.events[i].key()));
            assert(x.events[m].key() == y.events[m].key());
        }
        let ky = y.events[i].key();
        assert(has_key(y, ky));
        assert(has_key(x, ky));
        let n = choose|n: int| 0 <= n < x.events.len() && (#[trigger] x.events[n]).key() == ky;
        if n < i {
            assert(y.events[n].key().before(y.events[i].key()));
            assert(x.events[n].key() == y.events[n].key());
        }
        if i < m {
            assert(y.events[i].key().before(y.events[m].key()));
        }
        if i < n {
            assert(x.events[i].key().before(x.events[n].key()));
        }
    }
}

/// Of two sessions of one key in stores that reflect the same events, the
/// second holds every place and user of the first and begins no later and
/// ends no earlier.
proof fn half_alike(a: Seq<SessionView>, b: Seq<SessionView>, seen: Set<SessionEventView>, i: int, j: int)
    requires
        reflects(a, seen),
        reflects(b, seen),
        0 <= i < a.len(),
        0 <= j < b.len(),
        a[i].id == b[j].id,
    ensures
        forall|key: EventKey| has_key(a[i], key) ==> has_key(b[j], key),
        forall|name: Seq<char>| a[i].usernames.contains(name) ==> b[j].usernames.contains(name),
        !a[i].events[0].key().before(b[j].events[0].key()),
        !b[j].events[b[j].events.len() - 1].key().before(a[i].events[a[i].events.len() - 1].key()),
{
    let x = a[i];
    let y = b[j];
    assert(x.wf() && y.wf());
    assert forall|key: EventKey| has_key(x, key) implies has_key(y, key) by {
        let k = choose|k: int| 0 <= k < x.events.len() && (#[trigger] x.events[k]).key() == key;
        let e = a[i].events[k];
        assert(seen.contains(e));
        assert(e.id == x.id);
        assert(holds_key(b, e.id, e.key()));
        let (j1, k1) = choose|j1: int, k1: int|
            0 <= j1 < b.len() && 0 <= k1 < b[j1].events.len() && b[j1].id == e.id && (
            #[trigger] b[j1].events[k1]).key() == e.key();
        if j1 != j {
            if j1 < j {
                assert(b[j1].id != b[j].id);
            } else {
                assert(b[j].id != b[j1].id);
            }
        }
        assert(y.events[k1].key() == key);
    }
    assert forall|name: Seq<char>| x.usernames.contains(name) implies y.usernames.contains(name) by {
        assert(a[i].usernames.contains(name));
        assert(names_user(seen, a[i].id, name));
        let e = choose|e: SessionEventView| #[trigger] seen.contains(e) && e.id == a[i].id && username_of(e.record) == Some(name);
        assert(holds_name(b, e.id, name));
        let j1 = choose|j1: int| 0 <= j1 < b.len() && (#[trigger] b[j1]).id == e.id && b[j1].usernames.contains(name);
        if j1 != j {
            if j1 < j {
                assert(b[j1].id != b[j].id);
            } else {
                assert(b[j].id != b[j1].id);
            }
        }
    }
    let first = x.events[0];
    assert(has_key(x, first.key()));
    let m = choose|m: int| 0 <= m < y.events.len() && (#[trigger] y.events[m]).key() == first.key();
    if 0 < m {
        assert(y.events[0].key().before(y.events[m].key()));
    }
    let last = x.events[x.events.len() - 1];
    assert(has_key(x, last.key()));
    let n = choose|n: int| 0 <= n < y.events.len() && (#[trigger] y.events[n]).key() == last.key();
    if n < y.events.len() - 1 {
        assert(y.events[n].key().before(y.events[y.events.len() - 1].key()));
    }
}

/// Which of the first `upto` sessions stay when the anonymous ones are left out.
pub proof fn named_only_keeps(views: Seq<SessionView>, upto: int, session: SessionView)
    requires
        0 <= upto <= views.len(),
    ensures
        named_only(views, upto).contains(session) <==> (exists|i: int|
            0 <= i < upto && #[trigger] views[i] == session) && !session.anonymous(),
    decreases upto,
{
    if upto > 0 {
        named_only_keeps(views, upto - 1, session);
        let earlier = named_only(views, upto - 1);
        let now = named_only(views, upto);
        if !views[upto - 1].anonymous() {
            assert(now == earlier.push(views[upto - 1]));
            if now.contains(session) {
                let m = choose|m: int| 0 <= m < now.len() && now[m] == session;
                if m < earlier.len() {
                    assert(earlier[m] == session);
                } else {
                    assert(views[upto - 1] == session);
                }
            }
            if earlier.contains(session) {
                let m = choose|m: int| 0 <= m < earlier.len() && earlier[m] == session;
                assert(now[m] == session);
            }
            if views[upto - 1] == session {
                assert(now[now.len() - 1] == session);
            }
        }
        if exists|i: int| 0 <= i < upto && #[trigger] views[i] == session {
            let i = choose|i: int| 0 <= i < upto && #[trigger] views[i] == session;
            if i < upto - 1 {
                assert(views[i] == session);
            }
        }
    }
}

/// An import that leaves out the anonymous sessions gives exactly the
/// sessions of the full import for which a user is known.
pub proof fn only_anonymous_sessions_removed(files: Seq<Seq<AuditRecord>>, session: SessionView)
    ensures
        imported(files, false).contains(session) <==> imported(files, true).contains(session)
            && !session.anonymous(),
{
    let all = imported(files, true);
    named_only_keeps(all, all.len() as int, session);
    if all.contains(session) {
        let i = choose|i: int| 0 <= i < all.len() && all[i] == session;
        assert(all[i] == session);
    }
}

proof fn filtering_keeps_likeness(a: Seq<SessionView>, b: Seq<SessionView>)
    requires
        forall|i: int| 0 <= i < a.len() ==> has_like(#[trigger] a[i], b),
    ensures
        forall|i: int|
            0 <= i < named_only(a, a.len() as int).len() ==> has_like(
                #[trigger] named_only(a, a.len() as int)[i],
                named_only(b, b.len() as int),
            ),
{
    let fa = named_only(a, a.len() as int);
    let fb = named_only(b, b.len() as int);
    assert forall|i: int| 0 <= i < fa.len() implies has_like(#[trigger] fa[i], fb) by {
        let x = fa[i];
        assert(fa.contains(x));
        named_only_keeps(a, a.len() as int, x);
        let i0 = choose|i0: int| 0 <= i0 < a.len() && #[trigger] a[i0] == x;
        let j0 = like_of(a[i0], b);
        let y = b[j0];
        alike_in_anonymity(x, y);
        named_only_keeps(b, b.len() as int, y);
        assert(b[j0] == y);
        assert(fb.contains(y));
        let j = choose|j: int| 0 <= j < fb.len() && fb[j] == y;
        has_like_at(x, fb, j);
    }
}

proof fn gathered_alike(a: Seq<Seq<AuditRecord>>, b: Seq<Seq<AuditRecord>>)
    requires
        same_logs(a, b),
    ensures
        forall|i: int|
            0 <= i < gathered(a, a.len() as int).len() ==> has_like(
                #[trigger] gathered(a, a.len() as int)[i],
                gathered(b, b.len() as int),
            ),
{
    let va = gathered(a, a.len() as int);
    let vb = gathered(b, b.len() as int);
    gathered_reflects(a, a.len() as int);
    gathered_reflects(b, b.len() as int);
    let sa = seen_upto(a, a.len() as int, 0);
    let sb = seen_upto(b, b.len() as int, 0);
    assert forall|e: SessionEventView| sa.contains(e) implies sb.contains(e) by {
        same_logs_meet(a, b, e);
    }
    assert forall|e: SessionEventView| sb.contains(e) implies sa.contains(e) by {
        same_logs_meet(b, a, e);
    }
    assert(sa =~= sb);
    assert forall|i: int| 0 <= i < va.len() implies has_like(#[trigger] va[i], vb) by {
        alike_when_reflecting(va, vb, sa, i);
    }
}

/// The sessions that an import gives do not depend on the order of the
/// logs, nor on how often a log is given: two lists of the same logs give
/// sessions of the same keys, with as many events at the same places, the
/// same bounds and so the same duration, and the same users.
pub proof fn import_ignores_order(a: Seq<Seq<AuditRecord>>, b: Seq<Seq<AuditRecord>>, include_anonymous: bool)
    requires
        same_logs(a, b),
    ensures
        same_sessions(imported(a, include_anonymous), imported(b, include_anonymous)),
{
    let va = gathered(a, a.len() as int);
    let vb = gathered(b, b.len() as int);
    gathered_alike(a, b);
    gathered_alike(b, a);
    if !include_anonymous {
        filtering_keeps_likeness(va, vb);
        filtering_keeps_likeness(vb, va);
    }
}

proof fn same_logs_meet(a: Seq<Seq<AuditRecord>>, b: Seq<Seq<AuditRecord>>, event: SessionEventView)
    requires
        same_logs(a, b),
        met(a, a.len() as int, 0, event),
    ensures
        met(b, b.len() as int, 0, event),
{
    let (f, r) = choose|f: int, r: int|
        0 <= f < a.len() && 0 <= r < a[f].len() && (f < a.len() || (f == a.len() && r < 0))
            && #[trigger] SessionEvent::classified(a[f][r]) == Ok::<
            SessionEventView,
            crate::session_event::SessionEventError,
        >(event);
    assert(b.contains(a[f]));
    let g = choose|g: int| 0 <= g < b.len() && b[g] == a[f];
    assert(SessionEvent::classified(b[g][r]) == Ok::<
        SessionEventView,
        crate::session_event::SessionEventError,
    >(event));
}

/// Two logs read in either order give the same sessions.
pub proof fn import_of_two_logs_commutes(first: Seq<AuditRecord>, second: Seq<AuditRecord>, include_anonymous: bool)
    ensures
        same_sessions(
            imported(seq![first, second], include_anonymous),
            imported(seq![second, first], include_anonymous),
        ),
{
    let a = seq![first, second];
    let b = seq![second, first];
    assert(b[1] == first && b[0] == second);
    assert(a[0] == first && a[1] == second);
    import_ignores_order(a, b, include_anonymous);
}

/// What an import gives is a matter of the logs and of the choice on
/// anonymous sessions alone: two imports of the same logs under the same
/// choice hold the same sessions in the same order, each with the same key,
/// the same events in the same order, and the same users.
pub proof fn import_is_repeatable(
    first: crate::session_store::SessionStore,
    second: crate::session_store::SessionStore,
    files: Seq<Seq<AuditRecord>>,
    include_anonymous: bool,
)
    requires
        first@ == imported(files, include_anonymous),
        second@ == imported(files, include_anonymous),
    ensures
        first@ == second@,
        first@.len() == second@.len(),
        forall|i: int|
            0 <= i < first@.len() ==> (#[trigger] first@[i]).id == second@[i].id && first@[i].events
                == second@[i].events && first@[i].events.len() == second@[i].events.len(),
{
}

/// Reading every log a second time changes nothing.
pub proof fn import_twice_changes_nothing(files: Seq<Seq<AuditRecord>>, include_anonymous: bool)
    ensures
        same_sessions(imported(files + files, include_anonymous), imported(files, include_anonymous)),
{
    let twice = files + files;
    assert forall|i: int| 0 <= i < twice.len() implies files.contains(#[trigger] twice[i]) by {
        if i < files.len() {
            assert(files[i] == twice[i]);
        } else {
            assert(files[i - files.len()] == twice[i]);
        }
    }
    assert forall|j: int| 0 <= j < files.len() implies twice.contains(#[trigger] files[j]) by {
        assert(twice[j] == files[j]);
    }
    import_ignores_order(twice, files, include_anonymous);
}

} // verus!
