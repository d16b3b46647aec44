//! The lineage forest of the processes of one log.
//!
//! The operating system gives the identifier of an ended process to a new
//! one, so the parent of a process is looked for among all processes that
//! carried its parent identifier: of those created no later than the child,
//! the one created last is its parent. Where several of them were created at
//! that same instant, the one that stands last in the log is taken. A process
//! is never its own parent.

use vstd::prelude::*;
use crate::filter::{has_username, is_usable, keeps, optional_text, usable};
use crate::process::{Process, ProcessView, line_of};
use crate::record::{AuditRecord, Timestamp};
use crate::sequence::reversed;

verus! {

/// `cand` may be the parent of `child`: another process that carried the
/// child's parent identifier and was created no later than the child.
pub open spec fn eligible(procs: Seq<Process>, child: int, cand: int) -> bool {
    &&& 0 <= child < procs.len()
    &&& 0 <= cand < procs.len()
    &&& cand != child
    &&& procs[cand].new_process_id == procs[child].process_id
    &&& procs[cand].timestamp.not_after(procs[child].timestamp)
}

/// `b` was created after `a`, or at the same instant and stands no earlier in the log.
pub open spec fn no_later(procs: Seq<Process>, a: int, b: int) -> bool {
    procs[a].timestamp.before(procs[b].timestamp) || (procs[a].timestamp == procs[b].timestamp
        && a <= b)
}

/// `parent` is the parent of `child`: the last created of its eligible candidates.
pub open spec fn is_parent(procs: Seq<Process>, child: int, parent: int) -> bool {
    &&& eligible(procs, child, parent)
    &&& forall|c: int| #[trigger] eligible(procs, child, c) ==> no_later(procs, c, parent)
}

/// The parent of each process, `None` for one that has none.
pub open spec fn parents_of(procs: Seq<Process>, parents: Seq<Option<usize>>) -> bool {
    &&& parents.len() == procs.len()
    &&& forall|c: int|
        0 <= c < procs.len() ==> match #[trigger] parents[c] {
            Some(p) => is_parent(procs, c, p as int),
            None => forall|k: int| !eligible(procs, c, k),
        }
}

/// `a` stands before `b` among siblings: by creation, then by place in the log.
pub open spec fn sibling_before(stamps: Seq<Timestamp>, a: int, b: int) -> bool {
    stamps[a].before(stamps[b]) || (stamps[a] == stamps[b] && a < b)
}

/// `members` lists, in the order of siblings, exactly the processes whose
/// parent is `group`.
pub open spec fn lists_group(
    parents: Seq<Option<usize>>,
    stamps: Seq<Timestamp>,
    group: Option<usize>,
    upto: int,
    members: Seq<usize>,
) -> bool {
    &&& forall|k: int|
        0 <= k < members.len() ==> (#[trigger] members[k]) < upto && parents[members[k] as int]
            == group
    &&& forall|c: int|
        0 <= c < upto && #[trigger] parents[c] == group ==> exists|k: int|
            0 <= k < members.len() && members[k] == c
    &&& forall|j: int, k: int|
        0 <= j < k < members.len() ==> sibling_before(
            stamps,
            #[trigger] members[j] as int,
            #[trigger] members[k] as int,
        )
}

/// One process of the forest. `parent` and `children` hold places in the
/// forest's `nodes`; `is_root` says that the process has no parent.
#[derive(Debug)]
pub struct ProcessNode {
    pub process: Process,
    pub parent: Option<usize>,
    pub children: Vec<usize>,
    pub is_root: bool,
}

/// All processes of one log, in the order of the log, each linked to its
/// children, and the places of those without a parent.
#[derive(Debug)]
pub struct ProcessForest {
    pub nodes: Vec<ProcessNode>,
    pub roots: Vec<usize>,
}

/// One line of the outline of a forest: a process and how deep it stands
/// under its root.
#[derive(Clone, Copy, Debug, PartialEq, Eq, Structural)]
pub struct OutlineLine {
    pub depth: usize,
    pub node: usize,
}

/// The outline of the process at `node` and of all below it, a parent
/// before its children. Nothing is listed deeper than there are processes.
pub open spec fn outline_of(nodes: Seq<ProcessNode>, node: usize, depth: nat) -> Seq<OutlineLine>
    decreases nodes.len() - depth, 0int,
{
    if depth >= nodes.len() || node >= nodes.len() {
        Seq::empty()
    } else {
        seq![OutlineLine { depth: depth as usize, node }] + outline_of_list(
            nodes,
            nodes[node as int].children@,
            0,
            depth + 1,
        )
    }
}

/// The outlines of the processes in `list` from `from` on, one after the other.
pub open spec fn outline_of_list(nodes: Seq<ProcessNode>, list: Seq<usize>, from: int, depth: nat) -> Seq<OutlineLine>
    decreases nodes.len() - depth, list.len() - from + 1,
{
    if from < 0 || from >= list.len() {
        Seq::empty()
    } else {
        outline_of(nodes, list[from], depth) + outline_of_list(nodes, list, from + 1, depth)
    }
}

/// Two blanks for each step of depth.
pub open spec fn indent_of(depth: nat) -> Seq<char>
    decreases depth,
{
    if depth == 0 {
        Seq::empty()
    } else {
        indent_of((depth - 1) as nat) + "  "@
    }
}

/// The text of one line of the outline: the indent, a dash, and the line
/// that shows the process with its instant cut to whole seconds. `None`
/// where that instant has no text.
pub open spec fn shown_line(nodes: Seq<ProcessNode>, line: OutlineLine) -> Option<Seq<char>> {
    match nodes[line.node as int].process.timestamp.text(true) {
        Some(created) => Some(
            indent_of(line.depth as nat) + "- "@ + line_of(nodes[line.node as int].process@, created),
        ),
        None => None,
    }
}

/// Every line of an outline names a process of the forest.
pub proof fn outline_in_bounds(nodes: Seq<ProcessNode>, node: usize, depth: nat)
    ensures
        forall|i: int|
            0 <= i < outline_of(nodes, node, depth).len() ==> (#[trigger] outline_of(
                nodes,
                node,
                depth,
            )[i]).node < nodes.len(),
    decreases nodes.len() - depth, 0int,
{
    if !(depth >= nodes.len() || node >= nodes.len()) {
        outline_list_in_bounds(nodes, nodes[node as int].children@, 0, depth + 1);
        let below = outline_of_list(nodes, nodes[node as int].children@, 0, depth + 1);
        let all = outline_of(nodes, node, depth);
        assert forall|i: int| 0 <= i < all.len() implies (#[trigger] all[i]).node < nodes.len() by {
            if i > 0 {
                assert(all[i] == below[i - 1]);
            }
        }
    }
}

/// Every line of the outlines of a list names a process of the forest.
pub proof fn outline_list_in_bounds(nodes: Seq<ProcessNode>, list: Seq<usize>, from: int, depth: nat)
    ensures
        forall|i: int|
            0 <= i < outline_of_list(nodes, list, from, depth).len() ==> (#[trigger] outline_of_list(
                nodes,
                list,
                from,
                depth,
            )[i]).node < nodes.len(),
    decreases nodes.len() - depth, list.len() - from + 1,
{
    if !(from < 0 || from >= list.len()) {
        outline_in_bounds(nodes, list[from], depth);
        outline_list_in_bounds(nodes, list, from + 1, depth);
        let first = outline_of(nodes, list[from], depth);
        let rest = outline_of_list(nodes, list, from + 1, depth);
        let all = outline_of_list(nodes, list, from, depth);
        assert forall|i: int| 0 <= i < all.len() implies (#[trigger] all[i]).node < nodes.len() by {
            if i < first.len() {
                assert(all[i] == first[i]);
            } else {
                assert(all[i] == rest[i - first.len()]);
            }
        }
    }
}

fn indent(depth: usize) -> (text: String)
    ensures
        text@ == indent_of(depth as nat),
{
    let mut text = String::new();
    let mut done: usize = 0;
    while done < depth
        invariant
            done <= depth,
            text@ == indent_of(done as nat),
        decreases depth - done,
    {
        text.append("  ");
        done = done + 1;
    }
    text
}

fn find_parent(processes: &Vec<Process>, child: usize) -> (parent: Option<usize>)
    requires
        child < processes.len(),
    ensures
        match parent {
            Some(p) => is_parent(processes@, child as int, p as int),
            None => forall|k: int| !eligible(processes@, child as int, k),
        },
{
    let mut best: Option<usize> = None;
    let mut cand: usize = 0;
    while cand < processes.len()
        invariant
            cand <= processes.len(),
            child < processes.len(),
            match best {
                Some(b) => b < cand && eligible(processes@, child as int, b as int) && forall|k: int|
                    0 <= k < cand && #[trigger] eligible(processes@, child as int, k) ==> no_later(
                        processes@,
                        k,
                        b as int,
                    ),
                None => forall|k: int| 0 <= k < cand ==> !eligible(processes@, child as int, k),
            },
        decreases processes.len() - cand,
    {
        let c = &processes[cand];
        let kid = &processes[child];
        if cand != child && c.new_process_id == kid.process_id && c.timestamp.is_not_after(
            &kid.timestamp,
        ) {
            let better: bool = match best {
                Some(b) => !c.timestamp.is_before(&processes[b].timestamp),
                None => true,
            };
            if better {
                best = Some(cand);
            }
        }
        cand = cand + 1;
    }
    best
}

fn same_group(a: &Option<usize>, b: &Option<usize>) -> (same: bool)
    ensures
        same == (*a == *b),
{
    match (a, b) {
        (Some(x), Some(y)) => *x == *y,
        (None, None) => true,
        _ => false,
    }
}

fn group_members(parents: &Vec<Option<usize>>, stamps: &Vec<Timestamp>, group: Option<usize>) -> (members: Vec<usize>)
    requires
        parents.len() == stamps.len(),
    ensures
        lists_group(parents@, stamps@, group, parents.len() as int, members@),
{
    let mut members: Vec<usize> = Vec::new();
    let mut c: usize = 0;
    while c < parents.len()
        invariant
            c <= parents.len(),
            parents.len() == stamps.len(),
            lists_group(parents@, stamps@, group, c as int, members@),
        decreases parents.len() - c,
    {
        if same_group(&parents[c], &group) {
            let mut at: usize = 0;
            while at < members.len() && !stamps[c].is_before(&stamps[members[at]])
                invariant
                    at <= members.len(),
                    c < parents.len(),
                    parents.len() == stamps.len(),
                    lists_group(parents@, stamps@, group, c as int, members@),
                    forall|j: int| 0 <= j < at ==> sibling_before(stamps@, #[trigger] members[j] as int, c as int),
                decreases members.len() - at,
            {
                at = at + 1;
            }
            let ghost before = members@;
            members.insert(at, c);
            proof {
                let after = members@;
                assert forall|k: int| 0 <= k < after.len() implies (#[trigger] after[k]) < c + 1
                    && parents@[after[k] as int] == group by {
                    if k < at {
                        assert(after[k] == before[k]);
                    } else if k > at {
                        assert(after[k] == before[k - 1]);
                    }
                }
                assert forall|x: int| 0 <= x < c + 1 && #[trigger] parents@[x] == group implies exists|k: int|
                    0 <= k < after.len() && after[k] == x by {
                    if x == c {
                        assert(after[at as int] == c);
                    } else {
                        let k0 = choose|k: int| 0 <= k < before.len() && before[k] == x;
                        if k0 < at {
                            assert(after[k0] == x);
                        } else {
                            assert(after[k0 + 1] == x);
                        }
                    }
                }
                assert forall|j: int, k: int| 0 <= j < k < after.len() implies sibling_before(
                    stamps@,
                    #[trigger] after[j] as int,
                    #[trigger] after[k] as int,
                ) by {
                    let bj = if j < at { j } else { j - 1 };
                    let bk = if k < at { k } else { k - 1 };
                    if j != at {
                        assert(after[j] == before[bj]);
                    }
                    if k != at {
                        assert(after[k] == before[bk]);
                    }
                    if j == at {
                        assert(sibling_before(stamps@, before[at as int] as int, before[bk] as int)
                            || bk == at);
                    }
                }
            }
        } else {
            assert forall|x: int| 0 <= x < c + 1 && #[trigger] parents@[x] == group implies exists|k: int|
                0 <= k < members@.len() && members@[k] == x by {
            }
        }
        c = c + 1;
    }
    members
}

/// Why a log gives no forest.
#[derive(Clone, Copy, Debug, PartialEq, Eq, Structural)]
pub enum ForestError {
    /// The user name asked for is no usable regular expression.
    InvalidUsername,
}

/// The fields of the processes in `processes`.
pub open spec fn views_of(processes: Seq<Process>) -> Seq<ProcessView> {
    Seq::new(processes.len(), |i: int| processes[i]@)
}

/// The processes that the first `upto` of `records` give: one for each
/// record that is a complete process creation and that the filter keeps, in
/// the order of the records.
pub open spec fn selected(records: Seq<AuditRecord>, username: Option<Seq<char>>, upto: int) -> Seq<ProcessView>
    decreases upto,
{
    if upto <= 0 {
        Seq::empty()
    } else {
        let earlier = selected(records, username, upto - 1);
        match Process::parsed(records[upto - 1]) {
            Ok(process) => if keeps(username, process) == Some(true) {
                earlier.push(process)
            } else {
                earlier
            },
            Err(_) => earlier,
        }
    }
}

/// The filter has no answer for one of the processes among the first `upto` of `records`.
pub open spec fn undecided(records: Seq<AuditRecord>, username: Option<Seq<char>>, upto: int) -> bool {
    exists|i: int|
        0 <= i < upto && (#[trigger] Process::parsed(records[i]) matches Ok(process) && keeps(
            username,
            process,
        ) is None)
}

impl ProcessForest {
    /// The processes of the forest, in the order of the log.
    pub open spec fn procs(self) -> Seq<Process> {
        Seq::new(self.nodes@.len(), |i: int| self.nodes@[i].process)
    }

    /// The instant at which each process was created.
    pub open spec fn stamps(self) -> Seq<Timestamp> {
        Seq::new(self.nodes@.len(), |i: int| self.nodes@[i].process.timestamp)
    }

    /// The parent that each node records.
    pub open spec fn parents(self) -> Seq<Option<usize>> {
        Seq::new(self.nodes@.len(), |i: int| self.nodes@[i].parent)
    }

    /// The links are those that the processes call for: each node records
    /// its parent, is a root exactly when it has none, and lists its
    /// children in the order of siblings; `roots` lists the roots in that order.
    pub open spec fn wf(self) -> bool {
        let n = self.nodes@.len() as int;
        &&& parents_of(self.procs(), self.parents())
        &&& forall|i: int|
            0 <= i < n ==> (#[trigger] self.nodes@[i]).is_root == (self.nodes@[i].parent is None)
        &&& forall|i: int|
            0 <= i < n ==> lists_group(
                self.parents(),
                self.stamps(),
                Some(i as usize),
                n,
                (#[trigger] self.nodes@[i]).children@,
            )
        &&& lists_group(self.parents(), self.stamps(), None, n, self.roots@)
    }

    fn outline_node(&self, node: usize, depth: usize, lines: &mut Vec<OutlineLine>)
        ensures
            final(lines)@ == old(lines)@ + outline_of(self.nodes@, node, depth as nat),
        decreases self.nodes@.len() - depth, 0int,
    {
        if depth >= self.nodes.len() || node >= self.nodes.len() {
            assert(lines@ =~= lines@ + Seq::<OutlineLine>::empty());
            return ;
        }
        let ghost start = lines@;
        lines.push(OutlineLine { depth, node });
        self.outline_list(&self.nodes[node].children, depth + 1, lines);
        assert(lines@ =~= start + outline_of(self.nodes@, node, depth as nat));
    }

    fn outline_list(&self, list: &Vec<usize>, depth: usize, lines: &mut Vec<OutlineLine>)
        ensures
            final(lines)@ == old(lines)@ + outline_of_list(self.nodes@, list@, 0, depth as nat),
        decreases self.nodes@.len() - depth, 1int,
    {
        let ghost start = lines@;
        let mut at: usize = 0;
        assert(lines@ =~= start);
        while at < list.len()
            invariant
                at <= list@.len(),
                start + outline_of_list(self.nodes@, list@, 0, depth as nat) == lines@
                    + outline_of_list(self.nodes@, list@, at as int, depth as nat),
            decreases list@.len() - at,
        {
            let ghost before = lines@;
            self.outline_node(list[at], depth, lines);
            assert(before + outline_of_list(self.nodes@, list@, at as int, depth as nat) =~= lines@
                + outline_of_list(self.nodes@, list@, at + 1, depth as nat));
            at = at + 1;
        }
        assert(lines@ + outline_of_list(self.nodes@, list@, at as int, depth as nat) =~= lines@);
    }

    /// The outline of the forest: every root with all below it, the roots
    /// and the children of each process in the order of siblings.
    pub fn outline(&self) -> (lines: Vec<OutlineLine>)
        ensures
            lines@ == outline_of_list(self.nodes@, self.roots@, 0, 0),
    {
        let mut lines: Vec<OutlineLine> = Vec::new();
        self.outline_list(&self.roots, 0, &mut lines);
        assert(lines@ =~= outline_of_list(self.nodes@, self.roots@, 0, 0));
        lines
    }

    /// The outline of the forest as text, one line for each process;
    /// `None` where the instant of a process in it has no text.
    pub fn outline_text(&self) -> (texts: Option<Vec<String>>)
        ensures
            match texts {
                Some(t) => {
                    let lines = outline_of_list(self.nodes@, self.roots@, 0, 0);
                    &&& t@.len() == lines.len()
                    &&& forall|i: int|
                        0 <= i < t@.len() ==> shown_line(self.nodes@, lines[i]) == Some(
                            (#[trigger] t@[i])@,
                        )
                },
                None => exists|i: int|
                    0 <= i < outline_of_list(self.nodes@, self.roots@, 0, 0).len() && shown_line(
                        self.nodes@,
                        #[trigger] outline_of_list(self.nodes@, self.roots@, 0, 0)[i],
                    ) is None,
            },
    {
        let lines = self.outline();
        proof {
            outline_list_in_bounds(self.nodes@, self.roots@, 0, 0);
        }
        let mut texts: Vec<String> = Vec::new();
        let mut at: usize = 0;
        while at < lines.len()
            invariant
                at <= lines@.len(),
                lines@ == outline_of_list(self.nodes@, self.roots@, 0, 0),
                forall|i: int| 0 <= i < lines@.len() ==> (#[trigger] lines@[i]).node < self.nodes@.len(),
                texts@.len() == at,
                forall|i: int|
                    0 <= i < at ==> shown_line(self.nodes@, lines@[i]) == Some((#[trigger] texts@[i])@),
            decreases lines@.len() - at,
        {
            let line = lines[at];
            match self.nodes[line.node].process.describe() {
                Some(shown) => {
                    let mut text = indent(line.depth);
                    text.append("- ");
                    text.append(shown.as_str());
                    texts.push(text);
                },
                None => {
                    assert(shown_line(self.nodes@, lines@[at as int]) is None);
                    return None;
                },
            }
            at = at + 1;
        }
        Some(texts)
    }

    /// Links `processes`, given in the order of the log, into a forest.
    pub fn from_processes(processes: Vec<Process>) -> (forest: ProcessForest)
        ensures
            forest.wf(),
            forest.procs() == processes@,
    {
        let count: usize = processes.len();
        let mut parents: Vec<Option<usize>> = Vec::new();
        let mut stamps: Vec<Timestamp> = Vec::new();
        let mut c: usize = 0;
        while c < count
            invariant
                c <= count,
                count == processes@.len(),
                parents@.len() == c,
                stamps@.len() == c,
                forall|k: int| 0 <= k < c ==> #[trigger] stamps@[k] == processes@[k].timestamp,
                forall|k: int|
                    0 <= k < c ==> match #[trigger] parents@[k] {
                        Some(p) => is_parent(processes@, k, p as int),
                        None => forall|j: int| !eligible(processes@, k, j),
                    },
            decreases count - c,
        {
            parents.push(find_parent(&processes, c));
            stamps.push(processes[c].timestamp);
            c = c + 1;
        }
        let roots = group_members(&parents, &stamps, None);
        let ghost procs = processes@;
        let mut rest = reversed(processes);
        let mut nodes: Vec<ProcessNode> = Vec::new();
        while rest.len() > 0
            invariant
                parents@.len() == count,
                stamps@.len() == count,
                procs.len() == count,
                rest@.len() + nodes@.len() == count,
                forall|i: int| 0 <= i < rest@.len() ==> rest@[i] == procs[count - 1 - i],
                forall|i: int|
                    0 <= i < nodes@.len() ==> {
                        let node = #[trigger] nodes@[i];
                        &&& node.process == procs[i]
                        &&& node.parent == parents@[i]
                        &&& node.is_root == (parents@[i] is None)
                        &&& lists_group(parents@, stamps@, Some(i as usize), count as int, node.children@)
                    },
            decreases rest@.len(),
        {
            let at: usize = nodes.len();
            match rest.pop() {
                Some(process) => {
                    let children = group_members(&parents, &stamps, Some(at));
                    let parent = parents[at];
                    let is_root = parent.is_none();
                    nodes.push(ProcessNode { process, parent, children, is_root });
                },
                None => {},
            }
        }
        let forest = ProcessForest { nodes, roots };
        proof {
            assert(forest.procs() =~= procs);
            assert(forest.parents() =~= parents@);
            assert(forest.stamps() =~= stamps@);
        }
        forest
    }
}

/// Builds the forest of one log: reads a process out of every record that
/// is a complete process creation, passes over the other records, keeps the
/// processes that `username` selects, and links them.
pub fn from_records(records: &Vec<AuditRecord>, username: Option<&str>) -> (result: Result<ProcessForest, ForestError>)
    ensures
        match result {
            Ok(forest) => {
                &&& usable(optional_text(username))
                &&& !undecided(records@, optional_text(username), records@.len() as int)
                &&& forest.wf()
                &&& views_of(forest.procs()) == selected(
                    records@,
                    optional_text(username),
                    records@.len() as int,
                )
            },
            Err(e) => e == ForestError::InvalidUsername && (!usable(optional_text(username))
                || undecided(records@, optional_text(username), records@.len() as int)),
        },
{
    if !is_usable(username) {
        return Err(ForestError::InvalidUsername);
    }
    let ghost name = optional_text(username);
    let mut kept: Vec<Process> = Vec::new();
    let mut at: usize = 0;
    while at < records.len()
        invariant
            at <= records@.len(),
            name == optional_text(username),
            views_of(kept@) == selected(records@, name, at as int),
            !undecided(records@, name, at as int),
        decreases records@.len() - at,
    {
        match Process::try_from(&records[at]) {
            Ok(process) => {
                match has_username(username, &process) {
                    Some(keep) => {
                        if keep {
                            let ghost before = kept@;
                            kept.push(process);
                            assert(views_of(kept@) =~= views_of(before).push(process@));
                        }
                    },
                    None => {
                        assert(Process::parsed(records@[at as int]) is Ok);
                        assert(undecided(records@, name, records@.len() as int));
                        return Err(ForestError::InvalidUsername);
                    },
                }
            },
            Err(_) => {},
        }
        at = at + 1;
    }
    let forest = ProcessForest::from_processes(kept);
    Ok(forest)
}

/// A process that is no root has exactly one parent: it stands among the
/// children of the node that it records as its parent and of no other node,
/// and that parent was created no later than the process itself.
pub proof fn non_root_has_one_parent(forest: ProcessForest, child: int)
    requires
        forest.wf(),
        0 <= child < forest.nodes@.len(),
        !forest.nodes@[child].is_root,
    ensures
        forest.nodes@[child].parent matches Some(p) && p < forest.nodes@.len() && p != child
            && forest.nodes@[p as int].children@.contains(child as usize)
            && forest.nodes@[p as int].process.timestamp.not_after(
            forest.nodes@[child].process.timestamp,
        ),
        forall|q: int|
            0 <= q < forest.nodes@.len() && #[trigger] forest.nodes@[q].children@.contains(
                child as usize,
            ) ==> forest.nodes@[child].parent == Some(q as usize),
{
    let n = forest.nodes@.len() as int;
    let parents = forest.parents();
    assert(parents[child] == forest.nodes@[child].parent);
    let p = forest.nodes@[child].parent->0;
    assert(is_parent(forest.procs(), child, p as int));
    let kids = forest.nodes@[p as int].children@;
    assert(lists_group(parents, forest.stamps(), Some(p), n, kids));
    let k = choose|k: int| 0 <= k < kids.len() && kids[k] == child;
    assert(kids[k] == child as usize);
    assert forall|q: int|
        0 <= q < n && #[trigger] forest.nodes@[q].children@.contains(
            child as usize,
        ) implies forest.nodes@[child].parent == Some(q as usize) by {
        let others = forest.nodes@[q].children@;
        assert(lists_group(parents, forest.stamps(), Some(q as usize), n, others));
        let j = choose|j: int| 0 <= j < others.len() && others[j] == child as usize;
        assert(parents[others[j] as int] == Some(q as usize));
    }
}

/// Where several processes carried the identifier that a child names as its
/// parent's, the child hangs under the one created last among those created
/// no later than the child: no other candidate is younger than the parent.
pub proof fn parent_is_latest_candidate(forest: ProcessForest, child: int, other: int)
    requires
        forest.wf(),
        eligible(forest.procs(), child, other),
    ensures
        forest.nodes@[child].parent matches Some(p) && eligible(forest.procs(), child, p as int)
            && !forest.nodes@[child].is_root && forest.nodes@[p as int].children@.contains(
            child as usize,
        ) && !forest.nodes@[p as int].process.timestamp.before(
            forest.nodes@[other].process.timestamp,
        ),
{
    assert(forest.parents()[child] == forest.nodes@[child].parent);
    non_root_has_one_parent(forest, child);
}

} // verus!
