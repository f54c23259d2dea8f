//! The workflow graph the compiler, simulator and run walk operate on: an
//! entry node id and a map from node ids to nodes.
//!
//! Node ids are plain strings; each node names its successors by id.

use vstd::prelude::*;
use crate::keyed_map::KeyedMap;

verus! {

/// A unit of work.
#[derive(Clone, Debug, PartialEq, Eq)]
pub struct StepNode {
    /// Capability requirements declared for the step.
    pub capabilities: Vec<String>,
    /// Roles allowed to perform the step.
    pub roles: Vec<String>,
    /// Human-facing intent description.
    pub description: Option<String>,
    /// The node that follows, if any.
    pub next: Option<String>,
}

/// An ordered group of child nodes.
#[derive(Clone, Debug, PartialEq, Eq)]
pub struct SequenceNode {
    /// The children, in order.
    pub steps: Vec<String>,
}

/// A fork into parallel branches.
#[derive(Clone, Debug, PartialEq, Eq)]
pub struct ParallelForkNode {
    /// The branch entry nodes, in declaration order.
    pub branches: Vec<String>,
}

/// The join of parallel branches.
#[derive(Clone, Debug, PartialEq, Eq)]
pub struct ParallelJoinNode {
    /// The node that follows, if any.
    pub next: Option<String>,
}

/// One arm of a conditional branch.
#[derive(Clone, Debug, PartialEq, Eq)]
pub struct ConditionalBranchArm {
    /// The condition guarding the arm.
    pub condition: String,
    /// The node the arm leads to.
    pub target: String,
}

/// A choice among arms decided by the control plane.
#[derive(Clone, Debug, PartialEq, Eq)]
pub struct ConditionalBranchNode {
    /// The declared arms, in order.
    pub arms: Vec<ConditionalBranchArm>,
    /// The default arm, if declared.
    pub default: Option<String>,
}

/// A bounded loop.
#[derive(Clone, Debug, PartialEq, Eq)]
pub struct LoopNode {
    /// The loop body entry.
    pub body: String,
    /// The loop exit, if any.
    pub next: Option<String>,
}

/// A wait on an external event.
#[derive(Clone, Debug, PartialEq, Eq)]
pub struct WaitNode {
    /// The node that follows, if any.
    pub next: Option<String>,
}

/// A wait on a human decision.
#[derive(Clone, Debug, PartialEq, Eq)]
pub struct HumanGateNode {
    /// The node that follows, if any.
    pub next: Option<String>,
}

/// A call of another workflow.
#[derive(Clone, Debug, PartialEq, Eq)]
pub struct SubworkflowNode {
    /// The node that follows, if any.
    pub next: Option<String>,
}

/// A compensation handler attached to a target node.
#[derive(Clone, Debug, PartialEq, Eq)]
pub struct CompensationNode {
    /// The compensated node.
    pub target: String,
    /// The handler node.
    pub handler: String,
}

/// One node of a workflow graph.
#[derive(Clone, Debug, PartialEq, Eq)]
pub enum WorkflowIrNode {
    /// A unit of work.
    Step(StepNode),
    /// An ordered group of children.
    Sequence(SequenceNode),
    /// A parallel fork.
    ParallelFork(ParallelForkNode),
    /// A parallel join.
    ParallelJoin(ParallelJoinNode),
    /// A conditional branch.
    ConditionalBranch(ConditionalBranchNode),
    /// A bounded loop.
    Loop(LoopNode),
    /// A wait on an external event.
    Wait(WaitNode),
    /// A wait on a human decision.
    HumanGate(HumanGateNode),
    /// A subworkflow call.
    Subworkflow(SubworkflowNode),
    /// A compensation handler.
    Compensation(CompensationNode),
}

/// A workflow graph: the entry node and the nodes keyed by id.
#[derive(Clone, Debug, PartialEq, Eq)]
pub struct WorkflowIr {
    /// The entry node id.
    pub entry: String,
    /// The nodes, keyed by id and iterated in id order.
    pub nodes: KeyedMap<WorkflowIrNode>,
}

/// The ids held by a vector of strings.
pub open spec fn ids(v: Seq<String>) -> Seq<Seq<char>> {
    v.map_values(|s: String| s@)
}

/// The id held by an optional string, as a sequence of zero or one ids.
pub open spec fn opt_ids(o: Option<String>) -> Seq<Seq<char>> {
    match o {
        Some(s) => seq![s@],
        None => Seq::empty(),
    }
}

/// The targets of a branch's arms.
pub open spec fn arm_targets(arms: Seq<ConditionalBranchArm>) -> Seq<Seq<char>> {
    arms.map_values(|a: ConditionalBranchArm| a.target@)
}

impl WorkflowIrNode {
    /// The ids a node points at, in the order the graph walks list them.
    pub open spec fn successor_ids(&self) -> Seq<Seq<char>> {
        match self {
            WorkflowIrNode::Step(n) => opt_ids(n.next),
            WorkflowIrNode::Sequence(n) => ids(n.steps@),
            WorkflowIrNode::ParallelFork(n) => ids(n.branches@),
            WorkflowIrNode::ParallelJoin(n) => opt_ids(n.next),
            WorkflowIrNode::ConditionalBranch(n) => arm_targets(n.arms@) + opt_ids(n.default),
            WorkflowIrNode::Loop(n) => seq![n.body@] + opt_ids(n.next),
            WorkflowIrNode::Wait(n) => opt_ids(n.next),
            WorkflowIrNode::HumanGate(n) => opt_ids(n.next),
            WorkflowIrNode::Subworkflow(n) => opt_ids(n.next),
            WorkflowIrNode::Compensation(n) => seq![n.target@, n.handler@],
        }
    }

    /// The node ids this node points at, in deterministic order.
    pub fn successors(&self) -> (r: Vec<String>)
        ensures
            ids(r@) == self.successor_ids(),
    {
        match self {
            WorkflowIrNode::Step(n) => optional(&n.next),
            WorkflowIrNode::Sequence(n) => clone_ids(&n.steps),
            WorkflowIrNode::ParallelFork(n) => clone_ids(&n.branches),
            WorkflowIrNode::ParallelJoin(n) => optional(&n.next),
            WorkflowIrNode::ConditionalBranch(n) => {
                let mut r: Vec<String> = Vec::new();
                let mut i: usize = 0;
                while i < n.arms.len()
                    invariant
                        i <= n.arms@.len(),
                        ids(r@) =~= arm_targets(n.arms@).take(i as int),
                    decreases n.arms@.len() - i,
                {
                    r.push(n.arms[i].target.clone());
                    assert(arm_targets(n.arms@).take(i + 1) =~= arm_targets(n.arms@).take(i as int).push(n.arms@[i as int].target@));
                    i += 1;
                }
                assert(arm_targets(n.arms@).take(i as int) =~= arm_targets(n.arms@));
                let ghost before = r@;
                if let Some(d) = &n.default {
                    r.push(d.clone());
                }
                assert(ids(r@) =~= arm_targets(n.arms@) + opt_ids(n.default));
                r
            },
            WorkflowIrNode::Loop(n) => {
                let mut r: Vec<String> = Vec::new();
                r.push(n.body.clone());
                if let Some(x) = &n.next {
                    r.push(x.clone());
                }
                assert(ids(r@) =~= seq![n.body@] + opt_ids(n.next));
                r
            },
            WorkflowIrNode::Wait(n) => optional(&n.next),
            WorkflowIrNode::HumanGate(n) => optional(&n.next),
            WorkflowIrNode::Subworkflow(n) => optional(&n.next),
            WorkflowIrNode::Compensation(n) => {
                let mut r: Vec<String> = Vec::new();
                r.push(n.target.clone());
                r.push(n.handler.clone());
                assert(ids(r@) =~= seq![n.target@, n.handler@]);
                r
            },
        }
    }
}

/// A single optional successor as a vector of zero or one ids.
fn optional(target: &Option<String>) -> (r: Vec<String>)
    ensures
        ids(r@) == opt_ids(*target),
{
    let mut r: Vec<String> = Vec::new();
    if let Some(t) = target {
        r.push(t.clone());
    }
    assert(ids(r@) =~= opt_ids(*target));
    r
}

/// A copy of a vector of ids.
pub fn clone_ids(v: &Vec<String>) -> (r: Vec<String>)
    ensures
        ids(r@) == ids(v@),
{
    let mut r: Vec<String> = Vec::new();
    let mut i: usize = 0;
    while i < v.len()
        invariant
            i <= v@.len(),
            ids(r@) =~= ids(v@).take(i as int),
        decreases v@.len() - i,
    {
        r.push(v[i].clone());
        assert(ids(v@).take(i + 1) =~= ids(v@).take(i as int).push(v@[i as int]@));
        i += 1;
    }
    assert(ids(v@).take(i as int) =~= ids(v@));
    r
}

/// A copy of a vector of strings.
pub fn clone_strings(v: &Vec<String>) -> (r: Vec<String>)
    ensures
        r@ == v@,
{
    let mut r: Vec<String> = Vec::new();
    let mut i: usize = 0;
    while i < v.len()
        invariant
            i <= v@.len(),
            r@ =~= v@.take(i as int),
        decreases v@.len() - i,
    {
        r.push(v[i].clone());
        assert(v@.take(i + 1) =~= v@.take(i as int).push(v@[i as int]));
        i += 1;
    }
    assert(v@.take(i as int) =~= v@);
    r
}

/// A copy of an optional string.
pub fn clone_opt(o: &Option<String>) -> (r: Option<String>)
    ensures
        r == *o,
{
    match o {
        Some(s) => Some(s.clone()),
        None => None,
    }
}

/// A node as plain values.
pub enum NodeView {
    /// A unit of work.
    Step { capabilities: Seq<Seq<char>>, roles: Seq<Seq<char>>, description: Option<Seq<char>>, next: Option<Seq<char>> },
    /// An ordered group of children.
    Sequence { steps: Seq<Seq<char>> },
    /// A parallel fork.
    ParallelFork { branches: Seq<Seq<char>> },
    /// A parallel join.
    ParallelJoin { next: Option<Seq<char>> },
    /// A conditional branch: (condition, target) arms and the default.
    ConditionalBranch { arms: Seq<(Seq<char>, Seq<char>)>, default: Option<Seq<char>> },
    /// A bounded loop.
    Loop { body: Seq<char>, next: Option<Seq<char>> },
    /// A wait on an external event.
    Wait { next: Option<Seq<char>> },
    /// A wait on a human decision.
    HumanGate { next: Option<Seq<char>> },
    /// A subworkflow call.
    Subworkflow { next: Option<Seq<char>> },
    /// A compensation handler.
    Compensation { target: Seq<char>, handler: Seq<char> },
}

/// The optional string's characters.
pub open spec fn opt_chars(o: Option<String>) -> Option<Seq<char>> {
    match o {
        Some(s) => Some(s@),
        None => None,
    }
}

impl WorkflowIrNode {
    /// The node as plain values.
    pub open spec fn node_view(&self) -> NodeView {
        match self {
            WorkflowIrNode::Step(n) => NodeView::Step {
                capabilities: ids(n.capabilities@),
                roles: ids(n.roles@),
                description: opt_chars(n.description),
                next: opt_chars(n.next),
            },
            WorkflowIrNode::Sequence(n) => NodeView::Sequence { steps: ids(n.steps@) },
            WorkflowIrNode::ParallelFork(n) => NodeView::ParallelFork { branches: ids(n.branches@) },
            WorkflowIrNode::ParallelJoin(n) => NodeView::ParallelJoin { next: opt_chars(n.next) },
            WorkflowIrNode::ConditionalBranch(n) => NodeView::ConditionalBranch {
                arms: n.arms@.map_values(|a: ConditionalBranchArm| (a.condition@, a.target@)),
                default: opt_chars(n.default),
            },
            WorkflowIrNode::Loop(n) => NodeView::Loop { body: n.body@, next: opt_chars(n.next) },
            WorkflowIrNode::Wait(n) => NodeView::Wait { next: opt_chars(n.next) },
            WorkflowIrNode::HumanGate(n) => NodeView::HumanGate { next: opt_chars(n.next) },
            WorkflowIrNode::Subworkflow(n) => NodeView::Subworkflow { next: opt_chars(n.next) },
            WorkflowIrNode::Compensation(n) => NodeView::Compensation { target: n.target@, handler: n.handler@ },
        }
    }

    /// A copy of this node.
    pub fn duplicate(&self) -> (r: Self)
        ensures
            r.node_view() == self.node_view(),
    {
        match self {
            WorkflowIrNode::Step(n) => WorkflowIrNode::Step(StepNode {
                capabilities: clone_strings(&n.capabilities),
                roles: clone_strings(&n.roles),
                description: clone_opt(&n.description),
                next: clone_opt(&n.next),
            }),
            WorkflowIrNode::Sequence(n) => WorkflowIrNode::Sequence(SequenceNode { steps: clone_strings(&n.steps) }),
            WorkflowIrNode::ParallelFork(n) => WorkflowIrNode::ParallelFork(ParallelForkNode { branches: clone_strings(&n.branches) }),
            WorkflowIrNode::ParallelJoin(n) => WorkflowIrNode::ParallelJoin(ParallelJoinNode { next: clone_opt(&n.next) }),
            WorkflowIrNode::ConditionalBranch(n) => {
                let mut arms: Vec<ConditionalBranchArm> = Vec::new();
                let mut i: usize = 0;
                while i < n.arms.len()
                    invariant
                        i <= n.arms@.len(),
                        arms@ =~= n.arms@.take(i as int),
                    decreases n.arms@.len() - i,
                {
                    arms.push(ConditionalBranchArm { condition: n.arms[i].condition.clone(), target: n.arms[i].target.clone() });
                    assert(n.arms@.take(i + 1) =~= n.arms@.take(i as int).push(n.arms@[i as int]));
                    i += 1;
                }
                assert(n.arms@.take(i as int) =~= n.arms@);
                WorkflowIrNode::ConditionalBranch(ConditionalBranchNode { arms, default: clone_opt(&n.default) })
            },
            WorkflowIrNode::Loop(n) => WorkflowIrNode::Loop(LoopNode { body: n.body.clone(), next: clone_opt(&n.next) }),
            WorkflowIrNode::Wait(n) => WorkflowIrNode::Wait(WaitNode { next: clone_opt(&n.next) }),
            WorkflowIrNode::HumanGate(n) => WorkflowIrNode::HumanGate(HumanGateNode { next: clone_opt(&n.next) }),
            WorkflowIrNode::Subworkflow(n) => WorkflowIrNode::Subworkflow(SubworkflowNode { next: clone_opt(&n.next) }),
            WorkflowIrNode::Compensation(n) => WorkflowIrNode::Compensation(CompensationNode { target: n.target.clone(), handler: n.handler.clone() }),
        }
    }
}

} // verus!
