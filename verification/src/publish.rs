//! Publisher-side binding resolution: a host-reviewed map from step nodes
//! to capability requirements turns the compiler's per-step proposals into
//! requirements declared on the step nodes. The result is a new
//! definition; the approved one is never changed.

use vstd::prelude::*;
use crate::ir::{NodeView, StepNode, WorkflowIr, WorkflowIrNode, clone_opt, clone_strings, ids, opt_chars};
use crate::keyed_map::KeyedMap;

verus! {

/// Why a binding for `node` cannot be applied to `nodes`, if it cannot:
/// only existing step nodes carry bindings.
pub open spec fn binding_target_error(nodes: KeyedMap<WorkflowIrNode>, node: Seq<char>) -> Option<Seq<char>> {
    match nodes.lookup(node) {
        None => Some("binding resolution targets node `"@ + node + "`, which does not exist"@),
        Some(WorkflowIrNode::Step(_)) => None,
        Some(_) => Some("binding resolution targets node `"@ + node + "`, which is not a step node"@),
    }
}

/// The first refusal among the first `k` bindings, in node order.
pub open spec fn bindings_error(nodes: KeyedMap<WorkflowIrNode>, bindings: KeyedMap<Vec<String>>, k: int) -> Option<Seq<char>>
    decreases k,
{
    if k <= 0 {
        None
    } else {
        match bindings_error(nodes, bindings, k - 1) {
            Some(e) => Some(e),
            None => binding_target_error(nodes, bindings.key(k - 1)),
        }
    }
}

/// A node with its declared requirements replaced by `requirements`, when
/// it is a step bound to them; otherwise the node as it is.
pub open spec fn bound_view(node: WorkflowIrNode, requirements: Option<Vec<String>>) -> NodeView {
    match (node, requirements) {
        (WorkflowIrNode::Step(n), Some(caps)) => NodeView::Step {
            capabilities: ids(caps@),
            roles: ids(n.roles@),
            description: opt_chars(n.description),
            next: opt_chars(n.next),
        },
        _ => node.node_view(),
    }
}

/// Applies a binding resolution to a definition's graph: every bound
/// step declares exactly the bound requirements (replacing earlier ones),
/// every other node is unchanged. A binding that targets a node that does
/// not exist, or that is not a step, is refused (the first one, in node
/// order).
pub fn apply_bindings(ir: &WorkflowIr, bindings: &KeyedMap<Vec<String>>) -> (r: Result<WorkflowIr, String>)
    requires
        ir.nodes.wf(),
        bindings.wf(),
    ensures
        bindings_error(ir.nodes, *bindings, bindings.len() as int) is Some ==> (r matches Err(reason)
            && bindings_error(ir.nodes, *bindings, bindings.len() as int) == Some(reason@)),
        bindings_error(ir.nodes, *bindings, bindings.len() as int) is None ==> {
            &&& r matches Ok(out)
            &&& out.entry@ == ir.entry@
            &&& out.nodes.wf()
            &&& out.nodes.len() == ir.nodes.len()
            &&& forall|i: int| 0 <= i < out.nodes.len() ==> #[trigger] out.nodes.key(i) == ir.nodes.key(i)
            &&& forall|i: int| 0 <= i < out.nodes.len() ==> (#[trigger] out.nodes.value(i)).node_view() == bound_view(
                ir.nodes.value(i),
                bindings.lookup(ir.nodes.key(i)),
            )
        },
{
    proof {
        reveal_strlit("binding resolution targets node `");
        reveal_strlit("`, which does not exist");
        reveal_strlit("`, which is not a step node");
    }
    let mut k: usize = 0;
    while k < bindings.size()
        invariant
            ir.nodes.wf(),
            k <= bindings.len(),
            bindings_error(ir.nodes, *bindings, k as int) is None,
        decreases bindings.len() - k,
    {
        let node = bindings.key_at(k);
        match ir.nodes.get(node) {
            Some(WorkflowIrNode::Step(_)) => {},
            Some(_) => {
                let mut reason = String::from_str("binding resolution targets node `");
                reason.append(node.as_str());
                reason.append("`, which is not a step node");
                proof {
                    lemma_first_error_stays(ir.nodes, *bindings, k as int + 1, bindings.len() as int);
                }
                return Err(reason);
            },
            None => {
                let mut reason = String::from_str("binding resolution targets node `");
                reason.append(node.as_str());
                reason.append("`, which does not exist");
                proof {
                    lemma_first_error_stays(ir.nodes, *bindings, k as int + 1, bindings.len() as int);
                }
                return Err(reason);
            },
        }
        k += 1;
    }
    let mut nodes = ir.nodes.duplicate();
    let mut i: usize = 0;
    while i < nodes.size()
        invariant
            ir.nodes.wf(),
            bindings.wf(),
            nodes.wf(),
            nodes.len() == ir.nodes.len(),
            i <= nodes.len(),
            forall|j: int| 0 <= j < nodes.len() ==> #[trigger] nodes.key(j) == ir.nodes.key(j),
            forall|j: int| 0 <= j < i ==> (#[trigger] nodes.value(j)).node_view() == bound_view(
                ir.nodes.value(j),
                bindings.lookup(ir.nodes.key(j)),
            ),
            forall|j: int| i <= j < nodes.len() ==> (#[trigger] nodes.value(j)).node_view() == ir.nodes.value(j).node_view(),
        decreases nodes.len() - i,
    {
        let key = nodes.key_at(i).clone();
        match bindings.get(&key) {
            Some(requirements) => {
                let replacement = match ir.nodes.value_at(i) {
                    WorkflowIrNode::Step(step) => Some(WorkflowIrNode::Step(StepNode {
                        capabilities: clone_strings(requirements),
                        roles: clone_strings(&step.roles),
                        description: clone_opt(&step.description),
                        next: clone_opt(&step.next),
                    })),
                    _ => None,
                };
                match replacement {
                    Some(node) => {
                        nodes.set_value_at(i, node);
                    },
                    None => {},
                }
            },
            None => {},
        }
        i += 1;
    }
    Ok(WorkflowIr { entry: ir.entry.clone(), nodes })
}

/// Once the first `k` bindings hold a refusal, every longer prefix holds
/// the same one.
proof fn lemma_first_error_stays(nodes: KeyedMap<WorkflowIrNode>, bindings: KeyedMap<Vec<String>>, k: int, n: int)
    requires
        0 <= k <= n,
        bindings_error(nodes, bindings, k) is Some,
    ensures
        bindings_error(nodes, bindings, n) == bindings_error(nodes, bindings, k),
    decreases n - k,
{
    if k < n {
        lemma_first_error_stays(nodes, bindings, k, n - 1);
    }
}

} // verus!
