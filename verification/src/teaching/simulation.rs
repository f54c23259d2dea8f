//! Deterministic structural replay of a workflow graph.
//!
//! Simulation follows the replay policy of [`crate::replay`]: conditions
//! are opaque (default arm, else first arm), forks replay sequentially,
//! loops enter their body once, wait and human-gate nodes pause the
//! replay, and compensation handlers are never entered. It performs no
//! I/O and resolves no capability. Exceeding the step budget aborts the
//! run: a non-terminating graph can never support publication.

use vstd::prelude::*;
use crate::ir::{WorkflowIr, WorkflowIrNode, ids};
use crate::keyed_map::KeyedMap;
use crate::replay::{ReplayCursor, ReplayEvent, ReplayState, initial_state, replay_inv, replay_last_taken, replay_run, replay_step, lemma_initial_inv, lemma_replay_run_inv, lemma_replay_run_agrees};
use crate::graph::reachable;
use crate::teaching::error::TeachingCompilerError;

verus! {

/// Default step budget for one simulation.
pub const DEFAULT_STEP_BUDGET: u64 = 10_000;

/// Configuration for one simulation run.
#[derive(Clone, Copy, Debug)]
pub struct SimulationConfig {
    /// Maximum nodes the simulation may visit before aborting.
    pub max_steps: u64,
}

impl SimulationConfig {
    /// The default configuration: the default step budget.
    pub fn default_config() -> (c: Self)
        ensures
            c.max_steps == DEFAULT_STEP_BUDGET,
    {
        SimulationConfig { max_steps: DEFAULT_STEP_BUDGET }
    }
}

impl Default for SimulationConfig {
    /// The default configuration: the default step budget.
    fn default() -> (c: Self)
        ensures
            c.max_steps == DEFAULT_STEP_BUDGET,
    {
        SimulationConfig::default_config()
    }
}

/// How the simulation chose among conditional arms.
#[derive(Clone, Copy, Debug, PartialEq, Eq, Structural)]
pub enum BranchPolicy {
    /// Simulated the declared default arm.
    DefaultArm,
    /// No default arm; simulated the first declared arm.
    FirstArm,
}

/// Terminal outcome of a simulation.
#[derive(Clone, Debug, PartialEq, Eq)]
pub enum SimulationOutcome {
    /// The forward path reached a terminal state with no pending work.
    Completed,
    /// The path paused at a node waiting on an external event or human
    /// decision: a valid terminal state for publication.
    Paused {
        /// The node the simulation paused at.
        at: String,
    },
    /// The path reached a point with no deterministic continuation.
    Indeterminate {
        /// The node where determinism ended.
        at: String,
        /// Why the path is indeterminate.
        reason: String,
    },
    /// The simulation aborted before reaching a terminal state.
    Aborted {
        /// Why the simulation aborted.
        reason: String,
    },
}

/// Result of one deterministic simulation run.
#[derive(Clone, Debug)]
pub struct SimulationReport {
    outcome: SimulationOutcome,
    path: Vec<String>,
    steps_taken: u64,
    branch_policy: Option<BranchPolicy>,
    epoch: u64,
}

/// The branch policy a node resolves with, if it is a conditional branch
/// with a default arm or at least one arm.
pub open spec fn node_policy(node: WorkflowIrNode) -> Option<BranchPolicy> {
    match node {
        WorkflowIrNode::ConditionalBranch(n) => if n.default is Some {
            Some(BranchPolicy::DefaultArm)
        } else if n.arms@.len() > 0 {
            Some(BranchPolicy::FirstArm)
        } else {
            None
        },
        _ => None,
    }
}

/// The policy of the first resolved conditional branch on `path`.
pub open spec fn path_policy(nodes: KeyedMap<WorkflowIrNode>, path: Seq<Seq<char>>) -> Option<BranchPolicy>
    decreases path.len(),
{
    if path.len() == 0 {
        None
    } else {
        match path_policy(nodes, path.drop_last()) {
            Some(p) => Some(p),
            None => if nodes.contains(path.last()) {
                node_policy(nodes.lookup(path.last()).unwrap())
            } else {
                None
            },
        }
    }
}

/// The outcome matches the terminal event of a replay whose path is `path`.
pub open spec fn outcome_matches(outcome: SimulationOutcome, ev: ReplayEvent, path: Seq<Seq<char>>) -> bool {
    match ev {
        ReplayEvent::Completed => outcome is Completed,
        ReplayEvent::Paused => outcome matches SimulationOutcome::Paused { at } && path.len() > 0 && at@ == path.last(),
        ReplayEvent::Indeterminate => outcome matches SimulationOutcome::Indeterminate { at, reason } && path.len() > 0
            && at@ == path.last() && reason@ == "conditional branch has no arms and no default"@,
        _ => false,
    }
}

fn exec_node_policy(node: &WorkflowIrNode) -> (r: Option<BranchPolicy>)
    ensures
        r == node_policy(*node),
{
    match node {
        WorkflowIrNode::ConditionalBranch(n) => {
            if n.default.is_some() {
                Some(BranchPolicy::DefaultArm)
            } else if n.arms.len() > 0 {
                Some(BranchPolicy::FirstArm)
            } else {
                None
            }
        },
        _ => None,
    }
}

impl SimulationReport {
    /// The terminal outcome.
    pub closed spec fn spec_outcome(&self) -> SimulationOutcome {
        self.outcome
    }

    /// The visited node ids, in order.
    pub closed spec fn spec_path(&self) -> Seq<Seq<char>> {
        ids(self.path@)
    }

    /// How many nodes were visited.
    pub closed spec fn spec_steps_taken(&self) -> u64 {
        self.steps_taken
    }

    /// The conditional-arm policy used, if a branch was simulated.
    pub closed spec fn spec_branch_policy(&self) -> Option<BranchPolicy> {
        self.branch_policy
    }

    /// The candidate content epoch the simulation ran against.
    pub closed spec fn spec_epoch(&self) -> u64 {
        self.epoch
    }

    /// Whether the outcome allows publication (completed or paused).
    pub open spec fn spec_allows_publication(&self) -> bool {
        self.spec_outcome() is Completed || self.spec_outcome() is Paused
    }

    /// The terminal outcome.
    pub fn outcome(&self) -> (r: &SimulationOutcome)
        ensures
            *r == self.spec_outcome(),
    {
        &self.outcome
    }

    /// The visited node path, in order.
    pub fn path(&self) -> (r: &Vec<String>)
        ensures
            ids(r@) == self.spec_path(),
    {
        &self.path
    }

    /// How many nodes were visited.
    pub fn steps_taken(&self) -> (r: u64)
        ensures
            r == self.spec_steps_taken(),
    {
        self.steps_taken
    }

    /// The conditional-arm policy used, if a branch was simulated.
    pub fn branch_policy(&self) -> (r: Option<BranchPolicy>)
        ensures
            r == self.spec_branch_policy(),
    {
        self.branch_policy
    }

    /// The candidate content epoch the simulation ran against.
    pub fn epoch(&self) -> (r: u64)
        ensures
            r == self.spec_epoch(),
    {
        self.epoch
    }

    /// A copy of this report.
    pub fn duplicate(&self) -> (r: Self)
        ensures
            r.spec_outcome() == self.spec_outcome(),
            r.spec_path() == self.spec_path(),
            r.spec_steps_taken() == self.spec_steps_taken(),
            r.spec_branch_policy() == self.spec_branch_policy(),
            r.spec_epoch() == self.spec_epoch(),
    {
        let outcome = match &self.outcome {
            SimulationOutcome::Completed => SimulationOutcome::Completed,
            SimulationOutcome::Paused { at } => SimulationOutcome::Paused { at: at.clone() },
            SimulationOutcome::Indeterminate { at, reason } => SimulationOutcome::Indeterminate { at: at.clone(), reason: reason.clone() },
            SimulationOutcome::Aborted { reason } => SimulationOutcome::Aborted { reason: reason.clone() },
        };
        SimulationReport {
            outcome,
            path: crate::ir::clone_strings(&self.path),
            steps_taken: self.steps_taken,
            branch_policy: self.branch_policy,
            epoch: self.epoch,
        }
    }

    /// Whether the outcome allows publication (completed or paused).
    pub fn allows_publication(&self) -> (r: bool)
        ensures
            r == self.spec_allows_publication(),
    {
        match self.outcome {
            SimulationOutcome::Completed => true,
            SimulationOutcome::Paused { .. } => true,
            _ => false,
        }
    }
}

/// What a simulation of `ir` at `epoch` under `max_steps` returns, stated
/// over the final replay state and event.
pub open spec fn simulation_result(
    nodes: KeyedMap<WorkflowIrNode>,
    entry: Seq<char>,
    max_steps: u64,
    epoch: u64,
    r: Result<SimulationReport, TeachingCompilerError>,
) -> bool {
    let fin = replay_run(nodes, initial_state(entry), max_steps as int);
    match fin.1 {
        ReplayEvent::BudgetExceeded => r matches Err(TeachingCompilerError::SimulationStepBudgetExceeded { budget })
            && budget == max_steps,
        ReplayEvent::Missing => r matches Err(TeachingCompilerError::InvalidNodeId { node_id, reason })
            && Some(node_id@) == replay_last_taken(nodes, initial_state(entry), max_steps as int)
            && reason@ == "simulation encountered a node id that is not in the graph"@,
        _ => r matches Ok(rep) && rep.spec_path() == fin.0.path && rep.spec_steps_taken() == fin.0.steps
            && rep.spec_epoch() == epoch && rep.spec_branch_policy() == path_policy(nodes, fin.0.path)
            && outcome_matches(rep.spec_outcome(), fin.1, fin.0.path),
    }
}

proof fn lemma_path_policy_push(nodes: KeyedMap<WorkflowIrNode>, path: Seq<Seq<char>>, x: Seq<char>)
    ensures
        path_policy(nodes, path.push(x)) == match path_policy(nodes, path) {
            Some(p) => Some(p),
            None => if nodes.contains(x) { node_policy(nodes.lookup(x).unwrap()) } else { None },
        },
{
    assert(path.push(x).drop_last() =~= path);
}

/// Runs a deterministic structural simulation of a standalone graph at
/// epoch zero.
pub fn simulate_ir(ir: &WorkflowIr, config: SimulationConfig) -> (r: Result<SimulationReport, TeachingCompilerError>)
    requires
        ir.nodes.wf(),
    ensures
        simulation_result(ir.nodes, ir.entry@, config.max_steps, 0, r),
{
    simulate_with_epoch(ir, config, 0)
}

/// Runs the simulation bound to a candidate content epoch.
pub fn simulate_with_epoch(ir: &WorkflowIr, config: SimulationConfig, epoch: u64) -> (r: Result<SimulationReport, TeachingCompilerError>)
    requires
        ir.nodes.wf(),
    ensures
        simulation_result(ir.nodes, ir.entry@, config.max_steps, epoch, r),
{
    let ghost nodes = ir.nodes;
    let ghost max = config.max_steps as int;
    let ghost target = replay_run(nodes, initial_state(ir.entry@), max);
    let mut cursor = ReplayCursor::start(&ir.entry);
    let mut policy: Option<BranchPolicy> = None;
    loop
        invariant
            ir.nodes.wf(),
            nodes == ir.nodes,
            max == config.max_steps as int,
            cursor.steps_taken <= config.max_steps,
            replay_run(nodes, cursor@, max) == target,
            target == replay_run(nodes, initial_state(ir.entry@), max),
            replay_last_taken(nodes, cursor@, max) == replay_last_taken(nodes, initial_state(ir.entry@), max),
            policy == path_policy(nodes, cursor@.path),
        decreases config.max_steps - cursor.steps_taken,
    {
        let ghost before = cursor@;
        let (ev, taken) = cursor.step(&ir.nodes, config.max_steps);
        let grew = match ev {
            ReplayEvent::Visited => true,
            ReplayEvent::Paused => true,
            ReplayEvent::Indeterminate => true,
            _ => false,
        };
        if grew {
            let last = cursor.path.len() - 1;
            proof {
                lemma_path_policy_push(nodes, before.path, cursor@.path.last());
                assert(before.path.push(cursor@.path.last()) == cursor@.path);
            }
            if policy.is_none() {
                match ir.nodes.get(&cursor.path[last]) {
                    Some(node) => {
                        policy = exec_node_policy(node);
                    },
                    None => {},
                }
            }
        }
        match ev {
            ReplayEvent::Visited => {},
            ReplayEvent::Completed => {
                let report = SimulationReport {
                    outcome: SimulationOutcome::Completed,
                    path: cursor.path,
                    steps_taken: cursor.steps_taken,
                    branch_policy: policy,
                    epoch,
                };
                return Ok(report);
            },
            ReplayEvent::Paused => {
                let at = cursor.path[cursor.path.len() - 1].clone();
                let report = SimulationReport {
                    outcome: SimulationOutcome::Paused { at },
                    path: cursor.path,
                    steps_taken: cursor.steps_taken,
                    branch_policy: policy,
                    epoch,
                };
                return Ok(report);
            },
            ReplayEvent::Indeterminate => {
                let at = cursor.path[cursor.path.len() - 1].clone();
                let report = SimulationReport {
                    outcome: SimulationOutcome::Indeterminate {
                        at,
                        reason: String::from_str("conditional branch has no arms and no default"),
                    },
                    path: cursor.path,
                    steps_taken: cursor.steps_taken,
                    branch_policy: policy,
                    epoch,
                };
                return Ok(report);
            },
            ReplayEvent::BudgetExceeded => {
                return Err(TeachingCompilerError::SimulationStepBudgetExceeded { budget: config.max_steps });
            },
            ReplayEvent::Missing => {
                let node_id = match taken {
                    Some(id) => id,
                    None => String::new(),
                };
                return Err(TeachingCompilerError::InvalidNodeId {
                    node_id,
                    reason: String::from_str("simulation encountered a node id that is not in the graph"),
                });
            },
        }
    }
}

proof fn lemma_replay_run_ends(nodes: KeyedMap<WorkflowIrNode>, st: ReplayState, max_steps: int)
    ensures
        replay_run(nodes, st, max_steps).1 is Completed ==> replay_run(nodes, st, max_steps).0.current is None,
        replay_run(nodes, st, max_steps).1 is Paused || replay_run(nodes, st, max_steps).1 is Indeterminate
            ==> replay_run(nodes, st, max_steps).0.path.len() > 0,
    decreases max_steps - st.steps,
{
    let r = replay_step(nodes, st, max_steps);
    if r.1 is Visited && st.steps < max_steps {
        lemma_replay_run_ends(nodes, r.0, max_steps);
    }
}

/// What every simulation result satisfies: a report is bound to the
/// requested epoch, visits at least one node, starts at the entry, takes
/// exactly one budget unit per visited node and never more than the
/// budget, and visits only nodes of the graph that are reachable from the
/// entry; an exhausted budget names the configured budget.
pub proof fn lemma_simulation_visits_reachable_nodes(
    nodes: KeyedMap<WorkflowIrNode>,
    entry: Seq<char>,
    max_steps: u64,
    epoch: u64,
    r: Result<SimulationReport, TeachingCompilerError>,
)
    requires
        nodes.wf(),
        simulation_result(nodes, entry, max_steps, epoch, r),
    ensures
        r matches Ok(rep) ==> {
            &&& rep.spec_epoch() == epoch
            &&& rep.spec_steps_taken() == rep.spec_path().len()
            &&& 1 <= rep.spec_steps_taken()
            &&& rep.spec_steps_taken() <= max_steps
            &&& rep.spec_path()[0] == entry
            &&& forall|i: int| 0 <= i < rep.spec_path().len()
                ==> nodes.contains(#[trigger] rep.spec_path()[i]) && reachable(nodes, entry, rep.spec_path()[i])
        },
        r matches Err(TeachingCompilerError::SimulationStepBudgetExceeded { budget }) ==> budget == max_steps,
{
    lemma_initial_inv(nodes, entry, max_steps as int);
    lemma_replay_run_inv(nodes, entry, initial_state(entry), max_steps as int);
    let fin = replay_run(nodes, initial_state(entry), max_steps as int);
    if r is Ok {
        assert(replay_inv(nodes, entry, fin.0, max_steps as int));
        lemma_replay_run_ends(nodes, initial_state(entry), max_steps as int);
        assert(fin.0.path.len() > 0);
    }
}

proof fn lemma_path_policy_agrees(
    a: KeyedMap<WorkflowIrNode>,
    b: KeyedMap<WorkflowIrNode>,
    entry: Seq<char>,
    path: Seq<Seq<char>>,
)
    requires
        forall|i: int| 0 <= i < path.len() ==> reachable(a, entry, #[trigger] path[i]),
        forall|k: Seq<char>| reachable(a, entry, k) ==> #[trigger] b.lookup(k) == a.lookup(k),
    ensures
        path_policy(b, path) == path_policy(a, path),
    decreases path.len(),
{
    if path.len() > 0 {
        let q = path.drop_last();
        assert forall|i: int| 0 <= i < q.len() implies reachable(a, entry, #[trigger] q[i]) by {
            assert(q[i] == path[i]);
        }
        lemma_path_policy_agrees(a, b, entry, q);
        assert(reachable(a, entry, path[path.len() - 1]));
        assert(b.lookup(path.last()) == a.lookup(path.last()));
    }
}

/// Nodes that cannot be reached from the entry play no part in a
/// simulation: a graph that agrees with `a` on every node reachable from
/// the entry simulates exactly as `a` does.
pub proof fn lemma_simulation_ignores_unreachable(
    a: KeyedMap<WorkflowIrNode>,
    b: KeyedMap<WorkflowIrNode>,
    entry: Seq<char>,
    max_steps: u64,
    epoch: u64,
    r: Result<SimulationReport, TeachingCompilerError>,
)
    requires
        a.wf(),
        forall|k: Seq<char>| reachable(a, entry, k) ==> #[trigger] b.lookup(k) == a.lookup(k),
    ensures
        simulation_result(b, entry, max_steps, epoch, r) == simulation_result(a, entry, max_steps, epoch, r),
{
    let st = initial_state(entry);
    lemma_initial_inv(a, entry, max_steps as int);
    lemma_replay_run_agrees(a, b, entry, st, max_steps as int);
    lemma_replay_run_inv(a, entry, st, max_steps as int);
    let fin = replay_run(a, st, max_steps as int);
    if !(fin.1 is Missing) && !(fin.1 is BudgetExceeded) {
        lemma_path_policy_agrees(a, b, entry, fin.0.path);
    }
}

} // verus!
