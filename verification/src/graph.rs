//! Reachability over a workflow graph.

use vstd::prelude::*;
use crate::ir::{
    CompensationNode, ConditionalBranchArm, ConditionalBranchNode, HumanGateNode, LoopNode, NodeView,
    ParallelForkNode, ParallelJoinNode, SequenceNode, StepNode, SubworkflowNode, WaitNode, WorkflowIrNode,
    clone_opt, clone_strings, ids,
};
use crate::text::str_eq;
use crate::keyed_map::KeyedMap;

verus! {

/// `a` is a node of the graph and `b` is one of its successors.
pub open spec fn edge(nodes: KeyedMap<WorkflowIrNode>, a: Seq<char>, b: Seq<char>) -> bool {
    nodes.contains(a) && nodes.lookup(a).unwrap().successor_ids().contains(b)
}

/// Consecutive ids of `p` are joined by edges.
pub open spec fn is_walk(nodes: KeyedMap<WorkflowIrNode>, p: Seq<Seq<char>>) -> bool
    decreases p.len(),
{
    if p.len() <= 1 {
        true
    } else {
        edge(nodes, p[p.len() - 2], p.last()) && is_walk(nodes, p.drop_last())
    }
}

/// Some walk leads from `entry` to `x` (`entry` reaches itself).
pub open spec fn reachable(nodes: KeyedMap<WorkflowIrNode>, entry: Seq<char>, x: Seq<char>) -> bool {
    exists|p: Seq<Seq<char>>| #[trigger] is_walk(nodes, p) && p.len() > 0 && p[0] == entry && p.last() == x
}

/// Number of `false` entries.
pub open spec fn count_false(s: Seq<bool>) -> nat
    decreases s.len(),
{
    if s.len() == 0 {
        0
    } else {
        count_false(s.drop_last()) + if s.last() { 0nat } else { 1nat }
    }
}

proof fn lemma_count_false_update(s: Seq<bool>, i: int)
    requires
        0 <= i < s.len(),
        !s[i],
    ensures
        count_false(s.update(i, true)) + 1 == count_false(s),
    decreases s.len(),
{
    if i < s.len() - 1 {
        lemma_count_false_update(s.drop_last(), i);
        assert(s.update(i, true).drop_last() =~= s.drop_last().update(i, true));
    } else {
        assert(s.update(i, true).drop_last() =~= s.drop_last());
    }
}

pub proof fn lemma_reachable_entry(nodes: KeyedMap<WorkflowIrNode>, entry: Seq<char>)
    ensures
        reachable(nodes, entry, entry),
{
    let p = seq![entry];
    assert(is_walk(nodes, p));
}

pub proof fn lemma_reachable_step(nodes: KeyedMap<WorkflowIrNode>, entry: Seq<char>, a: Seq<char>, b: Seq<char>)
    requires
        reachable(nodes, entry, a),
        edge(nodes, a, b),
    ensures
        reachable(nodes, entry, b),
{
    let p = choose|p: Seq<Seq<char>>| #[trigger] is_walk(nodes, p) && p.len() > 0 && p[0] == entry && p.last() == a;
    let q = p.push(b);
    assert(q.drop_last() =~= p);
    assert(is_walk(nodes, q));
}

/// A set of key positions that holds the entry and is closed under edges
/// holds every reachable key.
proof fn lemma_closed_holds_reachable(
    nodes: KeyedMap<WorkflowIrNode>,
    entry: Seq<char>,
    marks: Seq<bool>,
    p: Seq<Seq<char>>,
)
    requires
        nodes.wf(),
        marks.len() == nodes.len(),
        is_walk(nodes, p),
        p.len() > 0,
        p[0] == entry,
        nodes.contains(entry) ==> marks[nodes.index_of(entry)],
        forall|i: int, j: int|
            0 <= i < marks.len() && 0 <= j < marks.len() && marks[i] && #[trigger] edge(nodes, nodes.key(i), nodes.key(j))
                ==> marks[j],
    ensures
        nodes.contains(p.last()) ==> marks[nodes.index_of(p.last())],
    decreases p.len(),
{
    if p.len() > 1 {
        let q = p.drop_last();
        lemma_closed_holds_reachable(nodes, entry, marks, q);
        let a = q.last();
        assert(a == p[p.len() - 2]);
        assert(edge(nodes, a, p.last()));
        if nodes.contains(p.last()) {
            let i = nodes.index_of(a);
            let j = nodes.index_of(p.last());
            assert(nodes.key(i) == a);
            assert(nodes.key(j) == p.last());
            assert(marks[i]);
            assert(edge(nodes, nodes.key(i), nodes.key(j)));
        }
    }
}

/// For each node position, whether the node is reachable from `entry`.
pub fn reachable_marks(entry: &String, nodes: &KeyedMap<WorkflowIrNode>) -> (r: Vec<bool>)
    requires
        nodes.wf(),
    ensures
        r@.len() == nodes.len(),
        forall|i: int| 0 <= i < nodes.len() ==> (#[trigger] r@[i] <==> reachable(*nodes, entry@, nodes.key(i))),
{
    let n = nodes.size();
    let mut marks: Vec<bool> = Vec::new();
    let mut k: usize = 0;
    while k < n
        invariant
            k <= n,
            n == nodes.len(),
            marks@.len() == k,
            forall|i: int| 0 <= i < k ==> !#[trigger] marks@[i],
        decreases n - k,
    {
        marks.push(false);
        k += 1;
    }
    let mut frontier: Vec<usize> = Vec::new();
    let ghost g_entry = entry@;
    match nodes.position(entry) {
        Some(e) => {
            proof {
                lemma_count_false_update(marks@, e as int);
                lemma_reachable_entry(*nodes, g_entry);
            }
            marks.set(e, true);
            frontier.push(e);
            assert(frontier@[0] == e);
        },
        None => {},
    }
    while frontier.len() > 0
        invariant
            nodes.wf(),
            n == nodes.len(),
            marks@.len() == n,
            g_entry == entry@,
            forall|i: int| 0 <= i < n ==> #[trigger] marks@[i] ==> reachable(*nodes, g_entry, nodes.key(i)),
            forall|t: int| 0 <= t < frontier@.len() ==> #[trigger] frontier@[t] < n && marks@[frontier@[t] as int],
            nodes.contains(g_entry) ==> marks@[nodes.index_of(g_entry)],
            forall|i: int, j: int|
                0 <= i < n && 0 <= j < n && marks@[i] && !frontier@.contains(i as usize)
                    && #[trigger] edge(*nodes, nodes.key(i), nodes.key(j)) ==> marks@[j],
        decreases count_false(marks@) + frontier@.len(),
    {
        let ghost before_count = count_false(marks@) + frontier@.len();
        let ghost old_frontier = frontier@;
        let i = frontier.pop().unwrap();
        proof {
            assert forall|i2: int| 0 <= i2 < n && !frontier@.contains(i2 as usize) && i2 != i implies !#[trigger] old_frontier.contains(i2 as usize) by {
                if old_frontier.contains(i2 as usize) {
                    let t = choose|t: int| 0 <= t < old_frontier.len() && old_frontier[t] == i2 as usize;
                    if t < frontier@.len() {
                        assert(frontier@[t] == i2 as usize);
                    }
                }
            }
        }
        let succ = nodes.value_at(i).successors();
        let ghost node_i = nodes.value(i as int);
        proof {
            nodes.lemma_unique_position(i as int, nodes.key(i as int));
        }
        let mut s: usize = 0;
        while s < succ.len()
            invariant
                nodes.wf(),
                n == nodes.len(),
                i < n,
                marks@.len() == n,
                marks@[i as int],
                g_entry == entry@,
                node_i == nodes.value(i as int),
                nodes.lookup(nodes.key(i as int)) == Some(node_i),
                ids(succ@) == node_i.successor_ids(),
                s <= succ@.len(),
                count_false(marks@) + frontier@.len() < before_count,
                forall|i2: int| 0 <= i2 < n ==> #[trigger] marks@[i2] ==> reachable(*nodes, g_entry, nodes.key(i2)),
                forall|t: int| 0 <= t < frontier@.len() ==> #[trigger] frontier@[t] < n && marks@[frontier@[t] as int],
                nodes.contains(g_entry) ==> marks@[nodes.index_of(g_entry)],
                forall|i2: int, j: int|
                    0 <= i2 < n && 0 <= j < n && marks@[i2] && !frontier@.contains(i2 as usize) && i2 != i
                        && #[trigger] edge(*nodes, nodes.key(i2), nodes.key(j)) ==> marks@[j],
                forall|t: int, j: int|
                    0 <= t < s && 0 <= j < n && nodes.key(j) == #[trigger] ids(succ@)[t] ==> #[trigger] marks@[j],
            decreases succ@.len() - s,
        {
            match nodes.position(&succ[s]) {
                Some(j) => {
                    if !marks[j] {
                        proof {
                            lemma_count_false_update(marks@, j as int);
                            assert(ids(succ@)[s as int] == succ@[s as int]@);
                            assert(node_i.successor_ids().contains(nodes.key(j as int)));
                            assert(edge(*nodes, nodes.key(i as int), nodes.key(j as int)));
                            lemma_reachable_step(*nodes, g_entry, nodes.key(i as int), nodes.key(j as int));
                        }
                        let ghost fr0 = frontier@;
                        let ghost mk0 = marks@;
                        marks.set(j, true);
                        frontier.push(j);
                        proof {
                            assert forall|i2: int| 0 <= i2 < n && !frontier@.contains(i2 as usize) implies !#[trigger] fr0.contains(i2 as usize) by {
                                if fr0.contains(i2 as usize) {
                                    let t = choose|t: int| 0 <= t < fr0.len() && fr0[t] == i2 as usize;
                                    assert(frontier@[t] == i2 as usize);
                                }
                            }
                            assert(frontier@[frontier@.len() - 1] == j);
                            assert forall|t: int| 0 <= t < frontier@.len() implies #[trigger] frontier@[t] < n && marks@[frontier@[t] as int] by {
                                if t < fr0.len() {
                                    assert(frontier@[t] == fr0[t]);
                                }
                            }
                        }
                    }
                },
                None => {},
            }
            proof {
                assert forall|t: int, j: int|
                    0 <= t < s + 1 && 0 <= j < n && nodes.key(j) == #[trigger] ids(succ@)[t] implies #[trigger] marks@[j] by {
                    if t == s {
                        assert(ids(succ@)[t] == succ@[t]@);
                        nodes.lemma_unique_position(j, nodes.key(j));
                    }
                }
            }
            s += 1;
        }
        proof {
            assert forall|i2: int, j: int|
                0 <= i2 < n && 0 <= j < n && marks@[i2] && !frontier@.contains(i2 as usize)
                    && #[trigger] edge(*nodes, nodes.key(i2), nodes.key(j)) implies marks@[j] by {
                if i2 == i {
                    nodes.lemma_unique_position(i as int, nodes.key(i as int));
                    let t = node_i.successor_ids().index_of(nodes.key(j));
                    assert(ids(succ@)[t] == nodes.key(j));
                }
            }
        }
    }
    proof {
        assert forall|i: int| 0 <= i < n implies (#[trigger] marks@[i] <==> reachable(*nodes, g_entry, nodes.key(i))) by {
            if reachable(*nodes, g_entry, nodes.key(i)) {
                let p = choose|p: Seq<Seq<char>>| #[trigger] is_walk(*nodes, p) && p.len() > 0 && p[0] == g_entry && p.last() == nodes.key(i);
                assert forall|i2: int, j: int|
                    0 <= i2 < marks@.len() && 0 <= j < marks@.len() && marks@[i2] && #[trigger] edge(*nodes, nodes.key(i2), nodes.key(j))
                        implies marks@[j] by {
                    assert(!frontier@.contains(i2 as usize));
                }
                lemma_closed_holds_reachable(*nodes, g_entry, marks@, p);
                nodes.lemma_unique_position(i, nodes.key(i));
            }
        }
    }
    marks
}

/// `id`, redirected to `to` when it is `from`.
pub open spec fn rw(id: Seq<char>, from: Seq<char>, to: Seq<char>) -> Seq<char> {
    if id == from { to } else { id }
}

/// An optional id, redirected.
pub open spec fn rw_opt(o: Option<Seq<char>>, from: Seq<char>, to: Seq<char>) -> Option<Seq<char>> {
    match o {
        Some(id) => Some(rw(id, from, to)),
        None => None,
    }
}

/// A list of ids, each redirected.
pub open spec fn rw_seq(s: Seq<Seq<char>>, from: Seq<char>, to: Seq<char>) -> Seq<Seq<char>> {
    s.map_values(|id: Seq<char>| rw(id, from, to))
}

/// A node with every reference to `from` redirected to `to`; all other
/// content (intent, capabilities, roles, conditions, order) is kept.
pub open spec fn rewrite_view(v: NodeView, from: Seq<char>, to: Seq<char>) -> NodeView {
    match v {
        NodeView::Step { capabilities, roles, description, next } => NodeView::Step {
            capabilities,
            roles,
            description,
            next: rw_opt(next, from, to),
        },
        NodeView::Sequence { steps } => NodeView::Sequence { steps: rw_seq(steps, from, to) },
        NodeView::ParallelFork { branches } => NodeView::ParallelFork { branches: rw_seq(branches, from, to) },
        NodeView::ParallelJoin { next } => NodeView::ParallelJoin { next: rw_opt(next, from, to) },
        NodeView::ConditionalBranch { arms, default } => NodeView::ConditionalBranch {
            arms: arms.map_values(|a: (Seq<char>, Seq<char>)| (a.0, rw(a.1, from, to))),
            default: rw_opt(default, from, to),
        },
        NodeView::Loop { body, next } => NodeView::Loop { body: rw(body, from, to), next: rw_opt(next, from, to) },
        NodeView::Wait { next } => NodeView::Wait { next: rw_opt(next, from, to) },
        NodeView::HumanGate { next } => NodeView::HumanGate { next: rw_opt(next, from, to) },
        NodeView::Subworkflow { next } => NodeView::Subworkflow { next: rw_opt(next, from, to) },
        NodeView::Compensation { target, handler } => NodeView::Compensation {
            target: rw(target, from, to),
            handler: rw(handler, from, to),
        },
    }
}

fn rw_id(id: &String, from: &String, to: &String) -> (r: String)
    ensures
        r@ == rw(id@, from@, to@),
{
    if str_eq(id, from) {
        to.clone()
    } else {
        id.clone()
    }
}

fn rw_opt_id(o: &Option<String>, from: &String, to: &String) -> (r: Option<String>)
    ensures
        crate::ir::opt_chars(r) == rw_opt(crate::ir::opt_chars(*o), from@, to@),
{
    match o {
        Some(id) => Some(rw_id(id, from, to)),
        None => None,
    }
}

fn rw_ids(v: &Vec<String>, from: &String, to: &String) -> (r: Vec<String>)
    ensures
        ids(r@) == rw_seq(ids(v@), from@, to@),
{
    let mut r: Vec<String> = Vec::new();
    let mut i: usize = 0;
    while i < v.len()
        invariant
            i <= v@.len(),
            ids(r@) =~= rw_seq(ids(v@), from@, to@).take(i as int),
        decreases v@.len() - i,
    {
        r.push(rw_id(&v[i], from, to));
        assert(rw_seq(ids(v@), from@, to@).take(i + 1) =~= rw_seq(ids(v@), from@, to@).take(i as int).push(
            rw(v@[i as int]@, from@, to@),
        ));
        i += 1;
    }
    assert(rw_seq(ids(v@), from@, to@).take(i as int) =~= rw_seq(ids(v@), from@, to@));
    r
}

/// A copy of `node` with every reference to `from` redirected to `to`.
pub fn rewritten(node: &WorkflowIrNode, from: &String, to: &String) -> (r: WorkflowIrNode)
    ensures
        r.node_view() == rewrite_view(node.node_view(), from@, to@),
{
    match node {
        WorkflowIrNode::Step(n) => WorkflowIrNode::Step(StepNode {
            capabilities: clone_strings(&n.capabilities),
            roles: clone_strings(&n.roles),
            description: clone_opt(&n.description),
            next: rw_opt_id(&n.next, from, to),
        }),
        WorkflowIrNode::Sequence(n) => WorkflowIrNode::Sequence(SequenceNode { steps: rw_ids(&n.steps, from, to) }),
        WorkflowIrNode::ParallelFork(n) => WorkflowIrNode::ParallelFork(ParallelForkNode { branches: rw_ids(&n.branches, from, to) }),
        WorkflowIrNode::ParallelJoin(n) => WorkflowIrNode::ParallelJoin(ParallelJoinNode { next: rw_opt_id(&n.next, from, to) }),
        WorkflowIrNode::ConditionalBranch(n) => {
            let ghost want = n.arms@.map_values(|a: ConditionalBranchArm| (a.condition@, a.target@)).map_values(
                |a: (Seq<char>, Seq<char>)| (a.0, rw(a.1, from@, to@)),
            );
            let mut arms: Vec<ConditionalBranchArm> = Vec::new();
            let mut i: usize = 0;
            while i < n.arms.len()
                invariant
                    i <= n.arms@.len(),
                    want == n.arms@.map_values(|a: ConditionalBranchArm| (a.condition@, a.target@)).map_values(
                        |a: (Seq<char>, Seq<char>)| (a.0, rw(a.1, from@, to@)),
                    ),
                    arms@.map_values(|a: ConditionalBranchArm| (a.condition@, a.target@)) =~= want.take(i as int),
                decreases n.arms@.len() - i,
            {
                arms.push(ConditionalBranchArm { condition: n.arms[i].condition.clone(), target: rw_id(&n.arms[i].target, from, to) });
                assert(want.take(i + 1) =~= want.take(i as int).push(want[i as int]));
                i += 1;
            }
            assert(want.take(i as int) =~= want);
            WorkflowIrNode::ConditionalBranch(ConditionalBranchNode { arms, default: rw_opt_id(&n.default, from, to) })
        },
        WorkflowIrNode::Loop(n) => WorkflowIrNode::Loop(LoopNode { body: rw_id(&n.body, from, to), next: rw_opt_id(&n.next, from, to) }),
        WorkflowIrNode::Wait(n) => WorkflowIrNode::Wait(WaitNode { next: rw_opt_id(&n.next, from, to) }),
        WorkflowIrNode::HumanGate(n) => WorkflowIrNode::HumanGate(HumanGateNode { next: rw_opt_id(&n.next, from, to) }),
        WorkflowIrNode::Subworkflow(n) => WorkflowIrNode::Subworkflow(SubworkflowNode { next: rw_opt_id(&n.next, from, to) }),
        WorkflowIrNode::Compensation(n) => WorkflowIrNode::Compensation(CompensationNode {
            target: rw_id(&n.target, from, to),
            handler: rw_id(&n.handler, from, to),
        }),
    }
}

/// Rewrites every reference from `from` to `to` in the node map; keys and
/// all other node content are kept.
pub fn rewrite_reference(nodes: &mut KeyedMap<WorkflowIrNode>, from: &String, to: &String)
    requires
        old(nodes).wf(),
    ensures
        final(nodes).wf(),
        final(nodes).len() == old(nodes).len(),
        forall|k: Seq<char>| #[trigger] final(nodes).contains(k) == old(nodes).contains(k),
        forall|k: Seq<char>| old(nodes).contains(k) ==> (#[trigger] final(nodes).lookup(k)).unwrap().node_view()
            == rewrite_view(old(nodes).lookup(k).unwrap().node_view(), from@, to@),
{
    let ghost before = *nodes;
    let n = nodes.size();
    let mut i: usize = 0;
    while i < n
        invariant
            before.wf(),
            nodes.wf(),
            n == nodes.len(),
            n == before.len(),
            i <= n,
            forall|j: int| 0 <= j < n ==> #[trigger] nodes.key(j) == before.key(j),
            forall|j: int| 0 <= j < i ==> (#[trigger] nodes.value(j)).node_view() == rewrite_view(before.value(j).node_view(), from@, to@),
            forall|j: int| i <= j < n ==> #[trigger] nodes.value(j) == before.value(j),
        decreases n - i,
    {
        let node = rewritten(nodes.value_at(i), from, to);
        nodes.set_value_at(i, node);
        i += 1;
    }
    proof {
        assert forall|k: Seq<char>| #[trigger] nodes.contains(k) == before.contains(k) by {
            if nodes.contains(k) {
                let q = nodes.index_of(k);
                assert(before.key(q) == k);
            }
            if before.contains(k) {
                let q = before.index_of(k);
                assert(nodes.key(q) == k);
            }
        }
        assert forall|k: Seq<char>| before.contains(k) implies (#[trigger] nodes.lookup(k)).unwrap().node_view()
            == rewrite_view(before.lookup(k).unwrap().node_view(), from@, to@) by {
            let q = before.index_of(k);
            before.lemma_unique_position(q, k);
            assert(nodes.key(q) == k);
            nodes.lemma_unique_position(q, k);
        }
    }
}

} // verus!
