//! The summary of a session as a document, and what is read back from it.

use vstd::prelude::*;
use crate::document::text_member;
use crate::session::{SessionAsJson, SessionView, texts};
use crate::session_id::{SessionId, SessionKey};
use crate::value::{FieldValue, member_from};

verus! {

/// The node that holds a span of `nanos` nanoseconds: a number, which
/// takes a span from `-2^63` up to `2^64 - 1`.
pub open spec fn span_node(nanos: int) -> Option<FieldValue> {
    if 0 <= nanos <= u64::MAX {
        Some(FieldValue::Number(nanos as u64))
    } else if i64::MIN <= nanos < 0 {
        Some(FieldValue::Negative(nanos as i64))
    } else {
        None
    }
}

/// The name under which a key of each kind is written.
pub open spec fn kind_name(key: SessionKey) -> Seq<char> {
    match key {
        SessionKey::ActivityId(_) => "ActivityId"@,
        SessionKey::SessionName(_) => "SessionName"@,
        SessionKey::LogonId(_) => "LogonId"@,
    }
}

/// `node` holds the key: an object whose one member is called by the kind
/// of the key and holds its text.
pub open spec fn shows_key(node: FieldValue, key: SessionKey) -> bool {
    &&& node matches FieldValue::Object(members)
    &&& members@.len() == 1
    &&& text_member(members@, 0, kind_name(key), key.text())
}

/// `node` holds the names: a list of texts, one for each name, in their order.
pub open spec fn shows_names(node: FieldValue, names: Seq<Seq<char>>) -> bool {
    &&& node matches FieldValue::List(items)
    &&& items@.len() == names.len()
    &&& forall|i: int| 0 <= i < names.len() ==> (#[trigger] items@[i]).text() == Some(names[i])
}

impl SessionAsJson {
    /// The summary can be written: both bounds have a text and the span
    /// between them fits a number.
    pub open spec fn showable(self) -> bool {
        &&& self.begin.text(false) is Some
        &&& self.end.text(false) is Some
        &&& span_node(self.duration as int) is Some
    }

    /// `doc` is the document of the summary: an object with the members
    /// `begin`, `end`, `duration`, `session_id`, `usernames` and `events`,
    /// in this order. The bounds are written with their fractions, the
    /// duration in nanoseconds.
    pub open spec fn shown_by(self, doc: FieldValue) -> bool {
        &&& doc matches FieldValue::Object(members)
        &&& members@.len() == 6
        &&& self.begin.text(false) matches Some(begin)
        &&& text_member(members@, 0, "begin"@, begin)
        &&& self.end.text(false) matches Some(end)
        &&& text_member(members@, 1, "end"@, end)
        &&& members@[2].0@ == "duration"@
        &&& Some(members@[2].1) == span_node(self.duration as int)
        &&& members@[3].0@ == "session_id"@
        &&& shows_key(members@[3].1, self.session_id@)
        &&& members@[4].0@ == "usernames"@
        &&& shows_names(members@[4].1, texts(self.usernames@))
        &&& members@[5].0@ == "events"@
        &&& members@[5].1 == FieldValue::Number(self.events as u64)
    }

    /// Writes the summary as a document; `None` where it cannot be written.
    pub fn to_document(&self) -> (doc: Option<FieldValue>)
        ensures
            match doc {
                Some(d) => self.shown_by(d),
                None => !self.showable(),
            },
    {
        let begin = match self.begin.to_rfc3339(false) {
            Some(text) => text,
            None => {
                return None;
            },
        };
        let end = match self.end.to_rfc3339(false) {
            Some(text) => text,
            None => {
                return None;
            },
        };
        let duration = if 0 <= self.duration && self.duration <= 0xffff_ffff_ffff_ffff {
            FieldValue::Number(self.duration as u64)
        } else if -0x8000_0000_0000_0000 <= self.duration && self.duration < 0 {
            FieldValue::Negative(self.duration as i64)
        } else {
            return None;
        };
        let mut names: Vec<FieldValue> = Vec::new();
        let mut at: usize = 0;
        while at < self.usernames.len()
            invariant
                at <= self.usernames@.len(),
                names@.len() == at,
                forall|i: int| 0 <= i < at ==> (#[trigger] names@[i]).text() == Some(self.usernames@[i]@),
            decreases self.usernames@.len() - at,
        {
            names.push(FieldValue::Text(self.usernames[at].clone()));
            at = at + 1;
        }
        let mut key: Vec<(String, FieldValue)> = Vec::new();
        match &self.session_id {
            SessionId::ActivityId(s) => {
                key.push((String::from_str("ActivityId"), FieldValue::Text(s.clone())));
            },
            SessionId::SessionName(s) => {
                key.push((String::from_str("SessionName"), FieldValue::Text(s.clone())));
            },
            SessionId::LogonId(s) => {
                key.push((String::from_str("LogonId"), FieldValue::Text(s.clone())));
            },
        }
        let mut members: Vec<(String, FieldValue)> = Vec::new();
        members.push((String::from_str("begin"), FieldValue::Text(begin)));
        members.push((String::from_str("end"), FieldValue::Text(end)));
        members.push((String::from_str("duration"), duration));
        members.push((String::from_str("session_id"), FieldValue::Object(key)));
        members.push((String::from_str("usernames"), FieldValue::List(names)));
        members.push((String::from_str("events"), FieldValue::Number(self.events as u64)));
        Some(FieldValue::Object(members))
    }
}

/// The summary of `session`, where a summary gives what `Session::into` gives.
pub open spec fn summarizes(summary: SessionAsJson, session: SessionView) -> bool {
    &&& summary.begin == session.begin()
    &&& summary.end == session.end()
    &&& summary.duration == session.end().nanos_since(session.begin())
    &&& summary.session_id@ == session.id
    &&& texts(summary.usernames@) == session.usernames
    &&& summary.events == session.events.len()
}

/// What is read back from the document of a session's summary is what the
/// events of the session give: under `begin` the instant of the first
/// event, under `end` that of the last, under `duration` the nanoseconds
/// between the two, under `usernames` the users of the session, and under
/// `events` the number of the events.
pub proof fn document_reads_back(summary: SessionAsJson, session: SessionView, doc: FieldValue)
    requires
        summarizes(summary, session),
        summary.shown_by(doc),
    ensures
        doc.member("begin"@) matches Some(node) && node.text() == session.events[0].record.timestamp.text(
            false,
        ),
        doc.member("end"@) matches Some(node) && node.text() == session.events[session.events.len()
            - 1].record.timestamp.text(false),
        doc.member("duration"@) == span_node(
            session.events[session.events.len() - 1].record.timestamp.nanos_since(
                session.events[0].record.timestamp,
            ),
        ),
        doc.member("usernames"@) matches Some(node) && shows_names(node, session.usernames),
        doc.member("events"@) == Some(FieldValue::Number(session.events.len() as u64)),
{
    reveal_strlit("begin");
    reveal_strlit("end");
    reveal_strlit("duration");
    reveal_strlit("session_id");
    reveal_strlit("usernames");
    reveal_strlit("events");
    let members = doc->Object_0@;
    assert("begin"@.len() == 5 && "end"@.len() == 3 && "duration"@.len() == 8 && "session_id"@.len()
        == 10 && "usernames"@.len() == 9 && "events"@.len() == 6);
    reveal_with_fuel(member_from, 7);
    assert(member_from(members, "begin"@, 0) == Some(members[0].1));
    assert(member_from(members, "end"@, 0) == Some(members[1].1));
    assert(member_from(members, "duration"@, 0) == Some(members[2].1));
    assert(member_from(members, "usernames"@, 0) == Some(members[4].1));
    assert(member_from(members, "events"@, 0) == Some(members[5].1));
}

} // verus!
