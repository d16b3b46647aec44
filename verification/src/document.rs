//! The forest as a document: every process an object of its fields, with
//! its children as further members.

use vstd::prelude::*;
use crate::process::{Process, ProcessView};
use crate::pstree::{ProcessForest, ProcessNode};
use crate::value::FieldValue;

verus! {

/// The number of members that every process has: its own fields.
pub const OWN_MEMBERS: usize = 17;

/// Member `at` is called `name` and holds the text `text`.
pub open spec fn text_member(members: Seq<(String, FieldValue)>, at: int, name: Seq<char>, text: Seq<char>) -> bool {
    members[at].0@ == name && members[at].1.text() == Some(text)
}

/// Member `at` is called `name` and holds the number `number`.
pub open spec fn number_member(members: Seq<(String, FieldValue)>, at: int, name: Seq<char>, number: u64) -> bool {
    members[at].0@ == name && members[at].1 == FieldValue::Number(number)
}

/// The first members are the fields of `process`, each under its name, with
/// `stamp` for the instant of its creation.
pub open spec fn own_members(members: Seq<(String, FieldValue)>, process: ProcessView, stamp: Seq<char>) -> bool {
    &&& members.len() >= OWN_MEMBERS
    &&& text_member(members, 0, "timestamp"@, stamp)
    &&& number_member(members, 1, "event_record_id"@, process.event_record_id)
    &&& text_member(members, 2, "SubjectUserSid"@, process.subject_user_sid)
    &&& text_member(members, 3, "SubjectUserName"@, process.subject_user_name)
    &&& text_member(members, 4, "SubjectDomainName"@, process.subject_domain_name)
    &&& text_member(members, 5, "SubjectLogonId"@, process.subject_logon_id)
    &&& number_member(members, 6, "NewProcessId"@, process.new_process_id)
    &&& text_member(members, 7, "NewProcessName"@, process.new_process_name)
    &&& text_member(members, 8, "TokenElevationType"@, process.token_elevation_type)
    &&& number_member(members, 9, "ProcessId"@, process.process_id)
    &&& text_member(members, 10, "CommandLine"@, process.command_line)
    &&& text_member(members, 11, "TargetUserSid"@, process.target_user_sid)
    &&& text_member(members, 12, "TargetUserName"@, process.target_user_name)
    &&& text_member(members, 13, "TargetDomainName"@, process.target_domain_name)
    &&& text_member(members, 14, "TargetLogonId"@, process.target_logon_id)
    &&& text_member(members, 15, "ParentProcessName"@, process.parent_process_name)
    &&& text_member(members, 16, "MandatoryLabel"@, process.mandatory_label)
}

/// The children that the document of the process at `node` shows. Nothing
/// is shown deeper than there are processes.
pub open spec fn shown_children(nodes: Seq<ProcessNode>, node: usize, depth: nat) -> Seq<usize> {
    if depth + 1 < nodes.len() {
        nodes[node as int].children@
    } else {
        Seq::empty()
    }
}

/// `doc` is the document of the process at `node`: an object that holds
/// the fields of the process, the instant with its fraction, and then one
/// member for each child, called by the child's instant cut to whole
/// seconds and holding the child's document.
pub open spec fn documents(doc: FieldValue, nodes: Seq<ProcessNode>, node: usize, depth: nat) -> bool
    decreases nodes.len() - depth,
{
    &&& node < nodes.len()
    &&& depth < nodes.len()
    &&& doc matches FieldValue::Object(members)
    &&& nodes[node as int].process.timestamp.text(false) matches Some(stamp)
    &&& own_members(members@, nodes[node as int].process@, stamp)
    &&& members@.len() == OWN_MEMBERS + shown_children(nodes, node, depth).len()
    &&& forall|k: int|
        0 <= k < shown_children(nodes, node, depth).len() ==> {
            let child = shown_children(nodes, node, depth)[k];
            &&& child < nodes.len()
            &&& nodes[child as int].process.timestamp.text(true) == Some(
                (#[trigger] members@[OWN_MEMBERS + k]).0@,
            )
            &&& documents(members@[OWN_MEMBERS + k].1, nodes, child, depth + 1)
        }
}

/// Every instant that the document of the process at `node` shows has a text.
pub open spec fn printable(nodes: Seq<ProcessNode>, node: usize, depth: nat) -> bool
    decreases nodes.len() - depth,
{
    node < nodes.len() && depth < nodes.len() ==> {
        &&& nodes[node as int].process.timestamp.text(false) is Some
        &&& forall|k: int|
            0 <= k < shown_children(nodes, node, depth).len() ==> {
                let child = #[trigger] shown_children(nodes, node, depth)[k];
                child < nodes.len() ==> nodes[child as int].process.timestamp.text(true) is Some
                    && printable(nodes, child, depth + 1)
            }
    }
}

/// `doc` is the document of the forest: an object with one member for each
/// root, in the order of the roots, called by the root's instant with its
/// fraction and holding the root's document.
pub open spec fn documents_forest(doc: FieldValue, forest: ProcessForest) -> bool {
    &&& doc matches FieldValue::Object(members)
    &&& members@.len() == forest.roots@.len()
    &&& forall|k: int|
        0 <= k < forest.roots@.len() ==> {
            let root = forest.roots@[k];
            &&& forest.nodes@[root as int].process.timestamp.text(false) == Some(
                (#[trigger] members@[k]).0@,
            )
            &&& documents(members@[k].1, forest.nodes@, root, 0)
        }
}

/// Every instant that the document of the forest shows has a text.
pub open spec fn printable_forest(forest: ProcessForest) -> bool {
    forall|k: int|
        0 <= k < forest.roots@.len() ==> printable(forest.nodes@, #[trigger] forest.roots@[k], 0)
}

fn text_entry(name: &str, text: &str) -> (entry: (String, FieldValue))
    ensures
        entry.0@ == name@,
        entry.1.text() == Some(text@),
{
    (String::from_str(name), FieldValue::Text(String::from_str(text)))
}

fn number_entry(name: &str, number: u64) -> (entry: (String, FieldValue))
    ensures
        entry.0@ == name@,
        entry.1 == FieldValue::Number(number),
{
    (String::from_str(name), FieldValue::Number(number))
}

fn own_entries(process: &Process, stamp: &str) -> (members: Vec<(String, FieldValue)>)
    ensures
        members@.len() == OWN_MEMBERS,
        own_members(members@, process@, stamp@),
{
    let mut members: Vec<(String, FieldValue)> = Vec::new();
    members.push(text_entry("timestamp", stamp));
    members.push(number_entry("event_record_id", process.event_record_id));
    members.push(text_entry("SubjectUserSid", process.subject_user_sid.as_str()));
    members.push(text_entry("SubjectUserName", process.subject_user_name.as_str()));
    members.push(text_entry("SubjectDomainName", process.subject_domain_name.as_str()));
    members.push(text_entry("SubjectLogonId", process.subject_logon_id.as_str()));
    members.push(number_entry("NewProcessId", process.new_process_id));
    members.push(text_entry("NewProcessName", process.new_process_name.as_str()));
    members.push(text_entry("TokenElevationType", process.token_elevation_type.as_str()));
    members.push(number_entry("ProcessId", process.process_id));
    members.push(text_entry("CommandLine", process.command_line.as_str()));
    members.push(text_entry("TargetUserSid", process.target_user_sid.as_str()));
    members.push(text_entry("TargetUserName", process.target_user_name.as_str()));
    members.push(text_entry("TargetDomainName", process.target_domain_name.as_str()));
    members.push(text_entry("TargetLogonId", process.target_logon_id.as_str()));
    members.push(text_entry("ParentProcessName", process.parent_process_name.as_str()));
    members.push(text_entry("MandatoryLabel", process.mandatory_label.as_str()));
    members
}

impl ProcessForest {
    fn document_node(&self, node: usize, depth: usize) -> (doc: Option<FieldValue>)
        requires
            self.wf(),
            node < self.nodes@.len(),
            depth < self.nodes@.len(),
        ensures
            match doc {
                Some(d) => documents(d, self.nodes@, node, depth as nat),
                None => !printable(self.nodes@, node, depth as nat),
            },
        decreases self.nodes@.len() - depth,
    {
        let process = &self.nodes[node].process;
        let stamp = match process.timestamp.to_rfc3339(false) {
            Some(stamp) => stamp,
            None => {
                return None;
            },
        };
        let mut members = own_entries(process, stamp.as_str());
        let count: usize = self.nodes.len();
        if depth < count - 1 {
            let children = &self.nodes[node].children;
            assert(children@ == shown_children(self.nodes@, node, depth as nat));
            assert(crate::pstree::lists_group(
                self.parents(),
                self.stamps(),
                Some(node),
                self.nodes@.len() as int,
                self.nodes@[node as int].children@,
            ));
            let mut k: usize = 0;
            while k < children.len()
                invariant
                    self.wf(),
                    node < self.nodes@.len(),
                    depth + 1 < self.nodes@.len(),
                    count == self.nodes@.len(),
                    k <= children@.len(),
                    children@ == shown_children(self.nodes@, node, depth as nat),
                    forall|j: int| 0 <= j < children@.len() ==> (#[trigger] children@[j]) < self.nodes@.len(),
                    members@.len() == OWN_MEMBERS + k,
                    own_members(members@, self.nodes@[node as int].process@, stamp@),
                    forall|j: int|
                        0 <= j < k ==> {
                            let child = children@[j];
                            &&& self.nodes@[child as int].process.timestamp.text(true) == Some(
                                (#[trigger] members@[OWN_MEMBERS + j]).0@,
                            )
                            &&& documents(
                                members@[OWN_MEMBERS + j].1,
                                self.nodes@,
                                child,
                                (depth + 1) as nat,
                            )
                        },
                decreases children@.len() - k,
            {
                let child: usize = children[k];
                let name = match self.nodes[child].process.timestamp.to_rfc3339(true) {
                    Some(name) => name,
                    None => {
                        assert(shown_children(self.nodes@, node, depth as nat)[k as int] == child);
                        return None;
                    },
                };
                let below = match self.document_node(child, depth + 1) {
                    Some(below) => below,
                    None => {
                        assert(shown_children(self.nodes@, node, depth as nat)[k as int] == child);
                        return None;
                    },
                };
                let ghost before = members@;
                members.push((name, below));
                assert forall|j: int| 0 <= j < k + 1 implies {
                    let other = children@[j];
                    &&& self.nodes@[other as int].process.timestamp.text(true) == Some(
                        (#[trigger] members@[OWN_MEMBERS + j]).0@,
                    )
                    &&& documents(members@[OWN_MEMBERS + j].1, self.nodes@, other, (depth + 1) as nat)
                } by {
                    if j < k {
                        assert(members@[OWN_MEMBERS + j] == before[OWN_MEMBERS + j]);
                    }
                }
                k = k + 1;
            }
        }
        Some(FieldValue::Object(members))
    }

    /// The forest as a document; `None` where an instant that it would
    /// show has no text.
    pub fn to_document(&self) -> (doc: Option<FieldValue>)
        requires
            self.wf(),
        ensures
            match doc {
                Some(d) => documents_forest(d, *self),
                None => !printable_forest(*self),
            },
    {
        let mut members: Vec<(String, FieldValue)> = Vec::new();
        assert(crate::pstree::lists_group(
            self.parents(),
            self.stamps(),
            None,
            self.nodes@.len() as int,
            self.roots@,
        ));
        let mut k: usize = 0;
        while k < self.roots.len()
            invariant
                self.wf(),
                k <= self.roots@.len(),
                forall|j: int| 0 <= j < self.roots@.len() ==> (#[trigger] self.roots@[j]) < self.nodes@.len(),
                members@.len() == k,
                forall|j: int|
                    0 <= j < k ==> {
                        let root = self.roots@[j];
                        &&& self.nodes@[root as int].process.timestamp.text(false) == Some(
                            (#[trigger] members@[j]).0@,
                        )
                        &&& documents(members@[j].1, self.nodes@, root, 0)
                    },
            decreases self.roots@.len() - k,
        {
            let root: usize = self.roots[k];
            let name = match self.nodes[root].process.timestamp.to_rfc3339(false) {
                Some(name) => name,
                None => {
                    assert(!printable(self.nodes@, self.roots@[k as int], 0));
                    return None;
                },
            };
            let below = match self.document_node(root, 0) {
                Some(below) => below,
                None => {
                    assert(!printable(self.nodes@, self.roots@[k as int], 0));
                    return None;
                },
            };
            let ghost before = members@;
            members.push((name, below));
            assert forall|j: int| 0 <= j < k + 1 implies {
                let other = self.roots@[j];
                &&& self.nodes@[other as int].process.timestamp.text(false) == Some(
                    (#[trigger] members@[j]).0@,
                )
                &&& documents(members@[j].1, self.nodes@, other, 0)
            } by {
                if j < k {
                    assert(members@[j] == before[j]);
                }
            }
            k = k + 1;
        }
        Some(FieldValue::Object(members))
    }
}

} // verus!
