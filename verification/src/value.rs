//! The field tree of a decoded audit record.

use vstd::prelude::*;
use crate::text::same_text;

verus! {

/// One node of a record's field tree. An object keeps its members in the
/// order in which they were given; a name is looked up from the front.
#[derive(Debug, PartialEq, Eq)]
pub enum FieldValue {
    Null,
    Bool(bool),
    Number(u64),
    Negative(i64),
    Text(String),
    List(Vec<FieldValue>),
    Object(Vec<(String, FieldValue)>),
}

/// The value of the first member at or after `from` whose name is `key`.
pub open spec fn member_from(members: Seq<(String, FieldValue)>, key: Seq<char>, from: int) -> Option<FieldValue>
    decreases members.len() - from,
{
    if from < 0 || from >= members.len() {
        None
    } else if members[from].0@ == key {
        Some(members[from].1)
    } else {
        member_from(members, key, from + 1)
    }
}

impl FieldValue {
    /// The member called `key`, where this is an object that has one.
    pub open spec fn member(self, key: Seq<char>) -> Option<FieldValue> {
        match self {
            FieldValue::Object(members) => member_from(members@, key, 0),
            _ => None,
        }
    }

    /// The member reached by two names in turn.
    pub open spec fn member2(self, a: Seq<char>, b: Seq<char>) -> Option<FieldValue> {
        match self.member(a) {
            Some(inner) => inner.member(b),
            None => None,
        }
    }

    /// The member reached by three names in turn.
    pub open spec fn member3(self, a: Seq<char>, b: Seq<char>, c: Seq<char>) -> Option<FieldValue> {
        match self.member2(a, b) {
            Some(inner) => inner.member(c),
            None => None,
        }
    }

    /// The characters of a text node.
    pub open spec fn text(self) -> Option<Seq<char>> {
        match self {
            FieldValue::Text(s) => Some(s@),
            _ => None,
        }
    }

    /// The number of a non-negative number node.
    pub open spec fn number(self) -> Option<u64> {
        match self {
            FieldValue::Number(n) => Some(n),
            _ => None,
        }
    }

    /// The member called `key`, where this is an object that has one; of
    /// several members of that name the first.
    pub fn get(&self, key: &str) -> (found: Option<&FieldValue>)
        ensures
            match found {
                Some(v) => self.member(key@) == Some(*v),
                None => self.member(key@) is None,
            },
    {
        match self {
            FieldValue::Object(members) => {
                let mut i: usize = 0;
                while i < members.len()
                    invariant
                        i <= members.len(),
                        self.member(key@) == member_from(members@, key@, i as int),
                    decreases members.len() - i,
                {
                    let entry = &members[i];
                    if same_text(entry.0.as_str(), key) {
                        return Some(&entry.1);
                    }
                    i = i + 1;
                }
                None
            },
            _ => None,
        }
    }

    /// The member reached by two names in turn.
    pub fn get2(&self, a: &str, b: &str) -> (found: Option<&FieldValue>)
        ensures
            match found {
                Some(v) => self.member2(a@, b@) == Some(*v),
                None => self.member2(a@, b@) is None,
            },
    {
        match self.get(a) {
            Some(inner) => inner.get(b),
            None => None,
        }
    }

    /// The member reached by three names in turn.
    pub fn get3(&self, a: &str, b: &str, c: &str) -> (found: Option<&FieldValue>)
        ensures
            match found {
                Some(v) => self.member3(a@, b@, c@) == Some(*v),
                None => self.member3(a@, b@, c@) is None,
            },
    {
        match self.get2(a, b) {
            Some(inner) => inner.get(c),
            None => None,
        }
    }

    /// The text of a text node.
    pub fn as_str(&self) -> (found: Option<&str>)
        ensures
            match found {
                Some(s) => self.text() == Some(s@),
                None => self.text() is None,
            },
    {
        match self {
            FieldValue::Text(s) => Some(s.as_str()),
            _ => None,
        }
    }

    /// The number of a non-negative number node.
    pub fn as_u64(&self) -> (found: Option<u64>)
        ensures
            found == self.number(),
    {
        match self {
            FieldValue::Number(n) => Some(*n),
            _ => None,
        }
    }
}

} // verus!
