//! Deterministic, equivalence-preserving optimizations of a candidate's
//! graph.
//!
//! - **RemoveUnreachableNodes** deletes nodes that cannot be reached from
//!   the entry; no simulation changes (see
//!   [`crate::teaching::simulation::lemma_simulation_ignores_unreachable`]).
//! - **CollapseSingleChildSequence** replaces a sequence with exactly one
//!   child by that child: every reference to the sequence is redirected to
//!   the child, and all step content is kept verbatim.
//!
//! Gates, in order: the proposal must be computed against the candidate's
//! current content epoch; the session policy must allow optimization; an
//! observed step touched by a collapse must carry evidence. Applying an
//! optimization is a content change: the approval and simulation are
//! cleared, the epoch advances and the candidate returns to `Compiled`.

use vstd::prelude::*;
use crate::graph::{edge, is_walk, reachable, reachable_marks, rewrite_reference, rewrite_view, rw};
use crate::ir::{NodeView, WorkflowIr, WorkflowIrNode, clone_ids, ids};
use crate::keyed_map::KeyedMap;
use crate::text::{decimal, push_decimal, str_eq};
use crate::teaching::blueprint::StepOrigin;
use crate::teaching::candidate::WorkflowCandidate;
use crate::teaching::error::TeachingCompilerError;
use crate::teaching::simulation::{SimulationReport, lemma_simulation_ignores_unreachable, simulation_result};

verus! {

/// The class of a deterministic optimization.
#[derive(Clone, Copy, Debug, PartialEq, Eq, Structural)]
pub enum OptimizationKind {
    /// Deletes nodes unreachable from the entry.
    RemoveUnreachableNodes,
    /// Replaces a single-child sequence with its child.
    CollapseSingleChildSequence,
}

/// A proposed, not-yet-applied optimization.
#[derive(Clone, Debug, PartialEq, Eq)]
pub struct OptimizationProposal {
    kind: OptimizationKind,
    description: String,
    affected_nodes: Vec<String>,
    epoch: u64,
}

/// A proposal as plain values.
pub struct ProposalSpec {
    /// The optimization class.
    pub kind: OptimizationKind,
    /// The human-facing description.
    pub description: Seq<char>,
    /// The node ids the transform touches.
    pub affected: Seq<Seq<char>>,
    /// The candidate epoch the proposal was computed against.
    pub epoch: u64,
}

impl OptimizationProposal {
    /// The proposal as plain values.
    pub closed spec fn spec_view(&self) -> ProposalSpec {
        ProposalSpec {
            kind: self.kind,
            description: self.description@,
            affected: ids(self.affected_nodes@),
            epoch: self.epoch,
        }
    }

    /// The optimization class.
    pub fn kind(&self) -> (r: OptimizationKind)
        ensures
            r == self.spec_view().kind,
    {
        self.kind
    }

    /// Human-facing description of the transform.
    pub fn description(&self) -> (r: &str)
        ensures
            r@ == self.spec_view().description,
    {
        self.description.as_str()
    }

    /// Nodes the transform touches.
    pub fn affected_nodes(&self) -> (r: &Vec<String>)
        ensures
            ids(r@) == self.spec_view().affected,
    {
        &self.affected_nodes
    }

    /// The candidate epoch the proposal was computed against.
    pub fn epoch(&self) -> (r: u64)
        ensures
            r == self.spec_view().epoch,
    {
        self.epoch
    }
}

/// The proposals of a list, as plain values.
pub open spec fn proposal_views(v: Seq<OptimizationProposal>) -> Seq<ProposalSpec> {
    v.map_values(|p: OptimizationProposal| p.spec_view())
}

/// The ids among the first `k` keys that are not reachable from `entry`,
/// in key order.
pub open spec fn unreachable_ids(nodes: KeyedMap<WorkflowIrNode>, entry: Seq<char>, k: int) -> Seq<Seq<char>>
    decreases k,
{
    if k <= 0 {
        Seq::empty()
    } else {
        let prev = unreachable_ids(nodes, entry, k - 1);
        if reachable(nodes, entry, nodes.key(k - 1)) {
            prev
        } else {
            prev.push(nodes.key(k - 1))
        }
    }
}

/// The description of a removal of `n` nodes.
pub open spec fn removal_description(n: nat) -> Seq<char> {
    "remove "@ + decimal(n) + " node(s) that are unreachable from the entry node"@
}

/// The description of the collapse of sequence `id`.
pub open spec fn collapse_description(id: Seq<char>) -> Seq<char> {
    "collapse single-child sequence `"@ + id + "` into its only child"@
}

/// The collapse proposals for the single-child sequences among the first
/// `k` nodes, in key order.
pub open spec fn collapse_proposals(nodes: KeyedMap<WorkflowIrNode>, k: int, epoch: u64) -> Seq<ProposalSpec>
    decreases k,
{
    if k <= 0 {
        Seq::empty()
    } else {
        let prev = collapse_proposals(nodes, k - 1, epoch);
        match nodes.value(k - 1).node_view() {
            NodeView::Sequence { steps } => if steps.len() == 1 {
                prev.push(
                    ProposalSpec {
                        kind: OptimizationKind::CollapseSingleChildSequence,
                        description: collapse_description(nodes.key(k - 1)),
                        affected: seq![nodes.key(k - 1), steps[0]],
                        epoch,
                    },
                )
            } else {
                prev
            },
            _ => prev,
        }
    }
}

/// Every applicable proposal for a graph at `epoch`: the removal of the
/// unreachable nodes (when there are any), then one collapse per
/// single-child sequence, in key order.
pub open spec fn expected_proposals(ir: WorkflowIr, epoch: u64) -> Seq<ProposalSpec> {
    let u = unreachable_ids(ir.nodes, ir.entry@, ir.nodes.len() as int);
    let removal = if u.len() > 0 {
        seq![
            ProposalSpec {
                kind: OptimizationKind::RemoveUnreachableNodes,
                description: removal_description(u.len()),
                affected: u,
                epoch,
            },
        ]
    } else {
        Seq::empty()
    };
    removal + collapse_proposals(ir.nodes, ir.nodes.len() as int, epoch)
}

/// Computes all currently applicable optimization proposals for the
/// candidate, in deterministic order.
pub fn propose_optimizations(candidate: &WorkflowCandidate) -> (r: Vec<OptimizationProposal>)
    requires
        candidate.wf(),
    ensures
        proposal_views(r@) == expected_proposals(candidate.spec_ir(), candidate.spec_epoch()),
{
    let ir = candidate.ir();
    let epoch = candidate.epoch();
    let marks = reachable_marks(&ir.entry, &ir.nodes);
    let n = ir.nodes.size();
    let mut unreachable: Vec<String> = Vec::new();
    let mut i: usize = 0;
    while i < n
        invariant
            ir.nodes.wf(),
            n == ir.nodes.len(),
            marks@.len() == n,
            forall|j: int| 0 <= j < n ==> (#[trigger] marks@[j] <==> reachable(ir.nodes, ir.entry@, ir.nodes.key(j))),
            i <= n,
            ids(unreachable@) == unreachable_ids(ir.nodes, ir.entry@, i as int),
        decreases n - i,
    {
        if !marks[i] {
            let ghost before = unreachable@;
            unreachable.push(ir.nodes.key_at(i).clone());
            assert(ids(unreachable@) =~= ids(before).push(ir.nodes.key(i as int)));
        }
        i += 1;
    }
    let mut proposals: Vec<OptimizationProposal> = Vec::new();
    if unreachable.len() > 0 {
        let mut description = String::from_str("remove ");
        push_decimal(&mut description, unreachable.len() as u64);
        description.append(" node(s) that are unreachable from the entry node");
        proposals.push(OptimizationProposal {
            kind: OptimizationKind::RemoveUnreachableNodes,
            description,
            affected_nodes: unreachable,
            epoch,
        });
    }
    let ghost head = proposal_views(proposals@);
    let mut i: usize = 0;
    while i < n
        invariant
            ir.nodes.wf(),
            n == ir.nodes.len(),
            i <= n,
            proposals@.len() >= head.len(),
            proposal_views(proposals@) == head + collapse_proposals(ir.nodes, i as int, epoch),
        decreases n - i,
    {
        let ghost before = proposal_views(proposals@);
        match ir.nodes.value_at(i) {
            WorkflowIrNode::Sequence(s) => {
                if s.steps.len() == 1 {
                    let id = ir.nodes.key_at(i);
                    let mut description = String::from_str("collapse single-child sequence `");
                    description.append(id.as_str());
                    description.append("` into its only child");
                    let mut affected: Vec<String> = Vec::new();
                    affected.push(id.clone());
                    affected.push(s.steps[0].clone());
                    proposals.push(OptimizationProposal {
                        kind: OptimizationKind::CollapseSingleChildSequence,
                        description,
                        affected_nodes: affected,
                        epoch,
                    });
                    assert(ids(affected@) =~= seq![ir.nodes.key(i as int), ids(s.steps@)[0]]);
                    assert(proposal_views(proposals@) =~= before.push(proposals@.last().spec_view()));
                }
            },
            _ => {},
        }
        i += 1;
    }
    proof {
        assert(proposal_views(proposals@) =~= expected_proposals(candidate.spec_ir(), candidate.spec_epoch()));
    }
    proposals
}

/// `after` keeps exactly the nodes of `before` reachable from `entry`.
pub open spec fn pruned(before: KeyedMap<WorkflowIrNode>, after: KeyedMap<WorkflowIrNode>, entry: Seq<char>) -> bool {
    forall|k: Seq<char>| #[trigger] after.lookup(k) == if reachable(before, entry, k) { before.lookup(k) } else { None }
}

/// `after` is `before` with the sequence `seq` collapsed into `child`: the
/// sequence node is gone, every reference to it (the entry too) now names
/// the child, and all other content is unchanged.
pub open spec fn collapsed(before: WorkflowIr, after: WorkflowIr, seq: Seq<char>, child: Seq<char>) -> bool {
    &&& after.entry@ == rw(before.entry@, seq, child)
    &&& forall|k: Seq<char>| #[trigger] after.nodes.contains(k) == (before.nodes.contains(k) && k != seq)
    &&& forall|k: Seq<char>| after.nodes.contains(k) ==> (#[trigger] after.nodes.lookup(k)).unwrap().node_view()
        == rewrite_view(before.nodes.lookup(k).unwrap().node_view(), seq, child)
}

/// The child of a collapse is an observed step that carries no evidence.
pub open spec fn evidence_missing(c: WorkflowCandidate, child: Seq<char>) -> bool {
    &&& c.spec_node_origins().lookup(child) == Some(StepOrigin::Observed)
    &&& !(c.spec_node_evidence().lookup(child) is Some && c.spec_node_evidence().lookup(child).unwrap()@.len() > 0)
}

/// `seq` names a sequence node whose only child is `child`.
pub open spec fn single_child_sequence(nodes: KeyedMap<WorkflowIrNode>, seq: Seq<char>, child: Seq<char>) -> bool {
    &&& nodes.lookup(seq) is Some
    &&& nodes.lookup(seq).unwrap().node_view() matches NodeView::Sequence { steps }
    &&& steps == seq![child]
}

/// The collapse named by `affected` passes every gate.
pub open spec fn collapse_allowed(c: WorkflowCandidate, affected: Seq<Seq<char>>) -> bool {
    &&& affected.len() == 2
    &&& !evidence_missing(c, affected[1])
    &&& c.spec_ir().nodes.contains(affected[1])
    &&& single_child_sequence(c.spec_ir().nodes, affected[0], affected[1])
}

/// Deletes every node unreachable from the entry.
fn remove_unreachable(candidate: &mut WorkflowCandidate)
    requires
        old(candidate).wf(),
    ensures
        final(candidate).spec_ir().nodes.wf(),
        final(candidate).spec_ir().entry == old(candidate).spec_ir().entry,
        pruned(old(candidate).spec_ir().nodes, final(candidate).spec_ir().nodes, old(candidate).spec_ir().entry@),
        final(candidate).spec_node_evidence() == old(candidate).spec_node_evidence(),
        final(candidate).spec_node_origins() == old(candidate).spec_node_origins(),
        final(candidate).spec_policy() == old(candidate).spec_policy(),
        final(candidate).spec_epoch() == old(candidate).spec_epoch(),
        final(candidate).spec_origin() == old(candidate).spec_origin(),
        final(candidate).spec_description() == old(candidate).spec_description(),
        final(candidate).spec_last_validation() == old(candidate).spec_last_validation(),
        final(candidate).spec_capability_inferences() == old(candidate).spec_capability_inferences(),
        final(candidate).spec_binding_proposals() == old(candidate).spec_binding_proposals(),
        final(candidate).spec_trigger_intents() == old(candidate).spec_trigger_intents(),
{
    let ir = candidate.ir_mut();
    let ghost before = ir.nodes;
    let marks = reachable_marks(&ir.entry, &ir.nodes);
    ir.nodes.retain_positions(&marks);
    proof {
        assert forall|k: Seq<char>| #[trigger] ir.nodes.lookup(k) == if reachable(before, ir.entry@, k) { before.lookup(k) } else { None } by {
            if before.contains(k) {
                let q = before.index_of(k);
                before.lemma_unique_position(q, k);
            }
        }
    }
}

/// Replaces the single-child sequence `seq` with its child `child`.
fn collapse(candidate: &mut WorkflowCandidate, seq: &String, child: &String)
    requires
        old(candidate).wf(),
    ensures
        final(candidate).spec_ir().nodes.wf(),
        collapsed(old(candidate).spec_ir(), final(candidate).spec_ir(), seq@, child@),
        final(candidate).spec_node_evidence() == old(candidate).spec_node_evidence(),
        final(candidate).spec_node_origins() == old(candidate).spec_node_origins(),
        final(candidate).spec_policy() == old(candidate).spec_policy(),
        final(candidate).spec_epoch() == old(candidate).spec_epoch(),
        final(candidate).spec_origin() == old(candidate).spec_origin(),
        final(candidate).spec_description() == old(candidate).spec_description(),
        final(candidate).spec_last_validation() == old(candidate).spec_last_validation(),
        final(candidate).spec_capability_inferences() == old(candidate).spec_capability_inferences(),
        final(candidate).spec_binding_proposals() == old(candidate).spec_binding_proposals(),
        final(candidate).spec_trigger_intents() == old(candidate).spec_trigger_intents(),
{
    let ir = candidate.ir_mut();
    let ghost before = *ir;
    rewrite_reference(&mut ir.nodes, seq, child);
    if str_eq(&ir.entry, seq) {
        ir.entry = child.clone();
    }
    let ghost mid = ir.nodes;
    ir.nodes.remove(seq);
    proof {
        assert forall|k: Seq<char>| #[trigger] ir.nodes.contains(k) == (before.nodes.contains(k) && k != seq@) by {
            assert(ir.nodes.contains(k) == ir.nodes.lookup(k) is Some);
            assert(mid.contains(k) == mid.lookup(k) is Some);
        }
        assert forall|k: Seq<char>| ir.nodes.contains(k) implies (#[trigger] ir.nodes.lookup(k)).unwrap().node_view()
            == rewrite_view(before.nodes.lookup(k).unwrap().node_view(), seq@, child@) by {
            assert(ir.nodes.lookup(k) == mid.lookup(k));
        }
    }
}

fn forbidden(reason: String) -> (e: TeachingCompilerError)
    ensures
        e is OptimizationForbidden,
{
    TeachingCompilerError::OptimizationForbidden { reason }
}

/// Applies one optimization proposal to the candidate.
///
/// Gates, in order: proposal freshness (exact content epoch), session
/// policy, and, for a collapse, the shape of the proposal, evidence for an
/// observed child, the child's existence and the sequence's shape. On any
/// refusal the candidate is unchanged; on success the content epoch
/// advances and the candidate returns to `Compiled`.
pub fn apply_optimization(candidate: &mut WorkflowCandidate, proposal: &OptimizationProposal) -> (r: Result<(), TeachingCompilerError>)
    requires
        old(candidate).wf(),
    ensures
        final(candidate).wf(),
        r is Err ==> *final(candidate) == *old(candidate),
        proposal.spec_view().epoch != old(candidate).spec_epoch() ==> {
            &&& r matches Err(TeachingCompilerError::StaleOptimizationProposal { proposal_epoch, candidate_epoch })
            &&& proposal_epoch == proposal.spec_view().epoch
            &&& candidate_epoch == old(candidate).spec_epoch()
        },
        proposal.spec_view().epoch == old(candidate).spec_epoch() && !old(candidate).spec_policy().allow_optimization
            ==> r matches Err(TeachingCompilerError::OptimizationForbidden { .. }),
        proposal.spec_view().epoch == old(candidate).spec_epoch() && old(candidate).spec_policy().allow_optimization
            && proposal.spec_view().kind is RemoveUnreachableNodes ==> {
            &&& r is Ok
            &&& final(candidate).spec_ir().entry == old(candidate).spec_ir().entry
            &&& pruned(old(candidate).spec_ir().nodes, final(candidate).spec_ir().nodes, old(candidate).spec_ir().entry@)
            &&& final(candidate).content_changed_from(old(candidate))
            &&& final(candidate).spec_policy() == old(candidate).spec_policy()
        },
        proposal.spec_view().epoch == old(candidate).spec_epoch() && old(candidate).spec_policy().allow_optimization
            && proposal.spec_view().kind is CollapseSingleChildSequence ==> {
            let a = proposal.spec_view().affected;
            &&& (a.len() != 2 || evidence_missing(*old(candidate), a[1])) ==> (r matches Err(
                TeachingCompilerError::OptimizationForbidden { .. },
            ))
            &&& (a.len() == 2 && !evidence_missing(*old(candidate), a[1]) && !old(candidate).spec_ir().nodes.contains(a[1]))
                ==> (r matches Err(TeachingCompilerError::InvalidNodeId { .. }))
            &&& (a.len() == 2 && !evidence_missing(*old(candidate), a[1]) && old(candidate).spec_ir().nodes.contains(a[1])
                && !single_child_sequence(old(candidate).spec_ir().nodes, a[0], a[1]))
                ==> (r matches Err(TeachingCompilerError::OptimizationForbidden { .. }))
            &&& collapse_allowed(*old(candidate), a) ==> {
                &&& r is Ok
                &&& collapsed(old(candidate).spec_ir(), final(candidate).spec_ir(), a[0], a[1])
                &&& final(candidate).content_changed_from(old(candidate))
                &&& final(candidate).spec_policy() == old(candidate).spec_policy()
            }
        },
{
    if proposal.epoch() != candidate.epoch() {
        return Err(TeachingCompilerError::StaleOptimizationProposal {
            proposal_epoch: proposal.epoch(),
            candidate_epoch: candidate.epoch(),
        });
    }
    if !candidate.policy_allows_optimization() {
        return Err(forbidden(String::from_str("the teaching session policy does not allow optimization")));
    }
    match proposal.kind() {
        OptimizationKind::RemoveUnreachableNodes => {
            remove_unreachable(candidate);
        },
        OptimizationKind::CollapseSingleChildSequence => {
            let affected = proposal.affected_nodes();
            if affected.len() != 2 {
                return Err(forbidden(String::from_str("collapse proposal must name exactly one sequence and its child")));
            }
            let sequence_id = affected[0].clone();
            let child_id = affected[1].clone();
            assert(sequence_id@ == proposal.spec_view().affected[0]);
            assert(child_id@ == proposal.spec_view().affected[1]);
            let observed = match candidate.node_origin(&child_id) {
                Some(StepOrigin::Observed) => true,
                _ => false,
            };
            if observed {
                let has_evidence = match candidate.node_evidence(&child_id) {
                    Some(evidence) => evidence.len() > 0,
                    None => false,
                };
                if !has_evidence {
                    let mut reason = String::from_str("observed step `");
                    reason.append(child_id.as_str());
                    reason.append("` carries no evidence; optimization requires evidence for observed steps");
                    return Err(forbidden(reason));
                }
            }
            if !candidate.ir().nodes.contains_key(&child_id) {
                return Err(TeachingCompilerError::InvalidNodeId {
                    node_id: child_id,
                    reason: String::from_str("collapse target child does not exist in the graph"),
                });
            }
            let found = candidate.ir().nodes.get(&sequence_id);
            let valid = match found {
                Some(WorkflowIrNode::Sequence(s)) => {
                    proof {
                        assert(ids(s.steps@).len() == s.steps@.len());
                    }
                    if s.steps.len() == 1 {
                        let same = str_eq(&s.steps[0], &child_id);
                        proof {
                            if same {
                                assert(ids(s.steps@) =~= seq![child_id@]);
                            } else {
                                assert(ids(s.steps@)[0] != child_id@);
                            }
                        }
                        same
                    } else {
                        false
                    }
                },
                _ => false,
            };
            proof {
                if !valid {
                    let nodes = old(candidate).spec_ir().nodes;
                    if nodes.lookup(sequence_id@) is Some {
                        let v = nodes.lookup(sequence_id@).unwrap().node_view();
                        match v {
                            NodeView::Sequence { steps } => {
                                assert(steps != seq![child_id@]);
                            },
                            _ => {},
                        }
                    }
                }
            }
            if !valid {
                let mut reason = String::from_str("`");
                reason.append(sequence_id.as_str());
                reason.append("` is not a single-child sequence naming `");
                reason.append(child_id.as_str());
                reason.append("`");
                return Err(forbidden(reason));
            }
            collapse(candidate, &sequence_id, &child_id);
        },
    }
    candidate.after_content_change();
    Ok(())
}

/// Removing the unreachable nodes changes no simulation of the graph.
pub proof fn lemma_pruning_preserves_simulation(
    before: KeyedMap<WorkflowIrNode>,
    after: KeyedMap<WorkflowIrNode>,
    entry: Seq<char>,
    max_steps: u64,
    epoch: u64,
    r: Result<SimulationReport, TeachingCompilerError>,
)
    requires
        before.wf(),
        pruned(before, after, entry),
    ensures
        simulation_result(after, entry, max_steps, epoch, r) == simulation_result(before, entry, max_steps, epoch, r),
{
    assert forall|k: Seq<char>| reachable(before, entry, k) implies #[trigger] after.lookup(k) == before.lookup(k) by {}
    lemma_simulation_ignores_unreachable(before, after, entry, max_steps, epoch, r);
}

proof fn lemma_walk_survives_pruning(
    before: KeyedMap<WorkflowIrNode>,
    after: KeyedMap<WorkflowIrNode>,
    entry: Seq<char>,
    p: Seq<Seq<char>>,
)
    requires
        pruned(before, after, entry),
        is_walk(before, p),
        p.len() > 0,
        p[0] == entry,
    ensures
        is_walk(after, p),
    decreases p.len(),
{
    if p.len() > 1 {
        let q = p.drop_last();
        lemma_walk_survives_pruning(before, after, entry, q);
        let x = p[p.len() - 2];
        assert(q.last() == x);
        assert(is_walk(before, q));
        assert(q[0] == entry);
        assert(reachable(before, entry, x));
        assert(after.lookup(x) == before.lookup(x));
        assert(edge(before, x, p.last()));
        assert(after.contains(x) == after.lookup(x) is Some);
        assert(before.contains(x) == before.lookup(x) is Some);
    }
}

proof fn lemma_no_unreachable_ids(nodes: KeyedMap<WorkflowIrNode>, entry: Seq<char>, k: int)
    requires
        0 <= k <= nodes.len(),
        forall|i: int| 0 <= i < nodes.len() ==> reachable(nodes, entry, #[trigger] nodes.key(i)),
    ensures
        unreachable_ids(nodes, entry, k).len() == 0,
    decreases k,
{
    if k > 0 {
        lemma_no_unreachable_ids(nodes, entry, k - 1);
        assert(reachable(nodes, entry, nodes.key(k - 1)));
    }
}

/// Removing the unreachable nodes leaves none behind: in the pruned graph
/// every node is reachable from the entry, so no removal is proposed again.
pub proof fn lemma_pruning_leaves_nothing_unreachable(
    before: KeyedMap<WorkflowIrNode>,
    after: KeyedMap<WorkflowIrNode>,
    entry: Seq<char>,
)
    requires
        pruned(before, after, entry),
    ensures
        forall|k: Seq<char>| #[trigger] after.contains(k) ==> reachable(after, entry, k),
        unreachable_ids(after, entry, after.len() as int).len() == 0,
{
    assert forall|k: Seq<char>| #[trigger] after.contains(k) implies reachable(after, entry, k) by {
        assert(after.lookup(k) is Some);
        assert(reachable(before, entry, k));
        let p = choose|p: Seq<Seq<char>>| #[trigger] is_walk(before, p) && p.len() > 0 && p[0] == entry && p.last() == k;
        lemma_walk_survives_pruning(before, after, entry, p);
    }
    assert forall|i: int| 0 <= i < after.len() implies reachable(after, entry, #[trigger] after.key(i)) by {
        assert(after.contains(after.key(i)));
    }
    lemma_no_unreachable_ids(after, entry, after.len() as int);
}

} // verus!
