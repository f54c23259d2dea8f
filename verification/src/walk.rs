//! The bounded deterministic graph walk of the application run path.
//!
//! The walk applies the compiler's replay policy ([`crate::replay`]) one
//! node at a time, so a run can pause at a wait or human-gate node,
//! persist its position, and resume later from exactly that position with
//! the budget it has already consumed.

use vstd::prelude::*;
use crate::ir::{WorkflowIr, WorkflowIrNode, ids};
use crate::keyed_map::KeyedMap;
use crate::replay::{ReplayCursor, ReplayEvent, ReplayState, frames_view, initial_state, next_pending, opt_view, replay_step, replay_run};
use crate::text::{decimal, push_decimal};
use crate::teaching::error::TeachingCompilerError;
use crate::teaching::simulation::{SimulationOutcome, SimulationReport, simulation_result};

verus! {

/// Default node budget for one run, matching the simulation budget.
pub const DEFAULT_WALK_BUDGET: u64 = 10_000;

/// The persisted position of one bounded walk: the pending re-entry
/// point, the continuation frames, the budget already consumed, and the
/// visited path.
#[derive(Clone, Debug, PartialEq, Eq)]
pub struct WalkPosition {
    /// The node the walk visits next, when one is pending.
    pub current: Option<String>,
    /// The remaining continuation frames, innermost frame last.
    pub continuations: Vec<Vec<String>>,
    /// The node budget already consumed.
    pub steps_taken: u64,
    /// The nodes visited so far, in order.
    pub path: Vec<String>,
}

impl View for WalkPosition {
    type V = ReplayState;

    open spec fn view(&self) -> ReplayState {
        ReplayState {
            current: opt_view(self.current),
            frames: frames_view(self.continuations@),
            steps: self.steps_taken as int,
            path: ids(self.path@),
        }
    }
}

/// Configuration for one walk.
#[derive(Clone, Copy, Debug)]
pub struct WalkConfig {
    /// Maximum nodes the walk may visit before aborting.
    pub max_steps: u64,
}

impl WalkConfig {
    /// The default configuration: the default walk budget.
    pub fn default_config() -> (c: Self)
        ensures
            c.max_steps == DEFAULT_WALK_BUDGET,
    {
        WalkConfig { max_steps: DEFAULT_WALK_BUDGET }
    }
}

impl Default for WalkConfig {
    /// The default configuration: the default walk budget.
    fn default() -> (c: Self)
        ensures
            c.max_steps == DEFAULT_WALK_BUDGET,
    {
        WalkConfig::default_config()
    }
}

/// Why the walk stopped.
#[derive(Clone, Debug, PartialEq, Eq)]
pub enum WalkTerminal {
    /// The forward path reached a terminal state with no pending work.
    Completed,
    /// The path paused at a node waiting on an external event or human
    /// decision.
    Paused {
        /// The node the walk paused at.
        node: String,
        /// Why the walk paused (`wait` or `human gate`).
        reason: &'static str,
    },
    /// The path reached a node with no deterministic continuation.
    Indeterminate {
        /// The node where determinism ended.
        node: String,
        /// Why the path is indeterminate.
        reason: String,
    },
}

/// One step of walk progress: either visit a node or stop.
#[derive(Clone, Debug, PartialEq, Eq)]
pub enum WalkStep {
    /// Visit this node (execute it if it is a step node).
    Visit(String),
    /// The walk is finished with this terminal outcome.
    Terminal(WalkTerminal),
}

/// A walk that cannot continue.
#[derive(Clone, Debug, PartialEq, Eq)]
pub enum WalkError {
    /// The walk exceeded its budget or met a node missing from the graph.
    InvalidRecord {
        /// Why the walk stopped.
        reason: String,
    },
}

/// The resumable walk state over one workflow graph.
#[derive(Clone, Debug)]
pub struct Walk {
    cursor: ReplayCursor,
}

/// The pause reason a wait or human-gate node reports.
pub open spec fn pause_reason(node: WorkflowIrNode) -> Seq<char> {
    match node {
        WorkflowIrNode::HumanGate(_) => "human gate"@,
        _ => "wait"@,
    }
}

/// What one call of [`Walk::next`] returns, given the replay step it took.
pub open spec fn walk_step_matches(
    nodes: KeyedMap<WorkflowIrNode>,
    before: ReplayState,
    after: ReplayState,
    ev: ReplayEvent,
    max_steps: u64,
    r: Result<WalkStep, WalkError>,
) -> bool {
    match ev {
        ReplayEvent::Visited => r matches Ok(WalkStep::Visit(id)) && after.path.len() > 0 && id@ == after.path.last(),
        ReplayEvent::Completed => r matches Ok(WalkStep::Terminal(WalkTerminal::Completed)),
        ReplayEvent::Paused => r matches Ok(WalkStep::Terminal(WalkTerminal::Paused { node, reason }))
            && after.path.len() > 0 && node@ == after.path.last()
            && reason@ == pause_reason(nodes.lookup(after.path.last()).unwrap()),
        ReplayEvent::Indeterminate => r matches Ok(WalkStep::Terminal(WalkTerminal::Indeterminate { node, reason }))
            && after.path.len() > 0 && node@ == after.path.last() && reason@ == indeterminate_reason(),
        ReplayEvent::BudgetExceeded => r matches Err(WalkError::InvalidRecord { reason }) && reason@ == budget_reason(max_steps),
        ReplayEvent::Missing => r matches Err(WalkError::InvalidRecord { reason })
            && reason@ == missing_reason(next_pending(before.current, before.frames).unwrap().0),
    }
}

/// Why a walk stops at a conditional branch with no arms and no default.
pub open spec fn indeterminate_reason() -> Seq<char> {
    "conditional branch has no arms and no default"@
}

/// Why a walk stops when its budget is spent.
pub open spec fn budget_reason(max_steps: u64) -> Seq<char> {
    "workflow run exceeded its node budget of "@ + decimal(max_steps as nat)
}

/// Why a walk stops at a node id the graph does not hold.
pub open spec fn missing_reason(id: Seq<char>) -> Seq<char> {
    "walk encountered node `"@ + id + "` missing from the graph"@
}

impl View for Walk {
    type V = ReplayState;

    closed spec fn view(&self) -> ReplayState {
        self.cursor@
    }
}

impl Walk {
    /// Starts a walk at the graph entry.
    pub fn new(ir: &WorkflowIr) -> (w: Self)
        ensures
            w@ == initial_state(ir.entry@),
    {
        Walk { cursor: ReplayCursor::start(&ir.entry) }
    }

    /// The nodes visited so far, in order.
    pub fn path(&self) -> (r: &Vec<String>)
        ensures
            ids(r@) == self@.path,
    {
        &self.cursor.path
    }

    /// The walk's current position, for persistence.
    pub fn position(&self) -> (p: WalkPosition)
        ensures
            p@ == self@,
    {
        let mut continuations: Vec<Vec<String>> = Vec::new();
        let mut i: usize = 0;
        while i < self.cursor.continuations.len()
            invariant
                i <= self.cursor.continuations@.len(),
                frames_view(continuations@) =~= frames_view(self.cursor.continuations@).take(i as int),
            decreases self.cursor.continuations@.len() - i,
        {
            let frame = crate::ir::clone_ids(&self.cursor.continuations[i]);
            continuations.push(frame);
            assert(frames_view(self.cursor.continuations@).take(i + 1) =~= frames_view(self.cursor.continuations@).take(i as int).push(ids(self.cursor.continuations@[i as int]@)));
            i += 1;
        }
        assert(frames_view(self.cursor.continuations@).take(i as int) =~= frames_view(self.cursor.continuations@));
        let current = match &self.cursor.current {
            Some(c) => Some(c.clone()),
            None => None,
        };
        WalkPosition {
            current,
            continuations,
            steps_taken: self.cursor.steps_taken,
            path: crate::ir::clone_ids(&self.cursor.path),
        }
    }

    /// Restores a walk from a persisted position; the restored walk keeps
    /// the budget the position already consumed.
    pub fn resume(ir: &WorkflowIr, position: WalkPosition) -> (w: Self)
        ensures
            w@ == position@,
    {
        Walk {
            cursor: ReplayCursor {
                current: position.current,
                continuations: position.continuations,
                steps_taken: position.steps_taken,
                path: position.path,
            },
        }
    }

    /// Produces the next walk step under `config`.
    pub fn next(&mut self, ir: &WorkflowIr, config: WalkConfig) -> (r: Result<WalkStep, WalkError>)
        requires
            ir.nodes.wf(),
        ensures
            final(self)@ == replay_step(ir.nodes, old(self)@, config.max_steps as int).0,
            walk_step_matches(ir.nodes, old(self)@, final(self)@, replay_step(ir.nodes, old(self)@, config.max_steps as int).1, config.max_steps, r),
    {
        let ghost before = self.cursor@;
        let (ev, taken) = self.cursor.step(&ir.nodes, config.max_steps);
        proof {
            if ev is Visited || ev is Paused || ev is Indeterminate {
                let np = crate::replay::next_pending(before.current, before.frames);
                assert(np is Some);
                assert(self.cursor@.path == before.path.push(np.unwrap().0));
                assert(self.cursor.path@.len() == self.cursor@.path.len());
            }
        }
        match ev {
            ReplayEvent::Visited => {
                let last = self.cursor.path.len() - 1;
                Ok(WalkStep::Visit(self.cursor.path[last].clone()))
            },
            ReplayEvent::Completed => Ok(WalkStep::Terminal(WalkTerminal::Completed)),
            ReplayEvent::Paused => {
                let last = self.cursor.path.len() - 1;
                let node = self.cursor.path[last].clone();
                let reason: &'static str = match ir.nodes.get(&node) {
                    Some(WorkflowIrNode::HumanGate(_)) => "human gate",
                    _ => "wait",
                };
                proof {
                    reveal_strlit("human gate");
                    reveal_strlit("wait");
                }
                Ok(WalkStep::Terminal(WalkTerminal::Paused { node, reason }))
            },
            ReplayEvent::Indeterminate => {
                let last = self.cursor.path.len() - 1;
                Ok(WalkStep::Terminal(WalkTerminal::Indeterminate {
                    node: self.cursor.path[last].clone(),
                    reason: String::from_str("conditional branch has no arms and no default"),
                }))
            },
            ReplayEvent::BudgetExceeded => {
                let mut reason = String::from_str("workflow run exceeded its node budget of ");
                push_decimal(&mut reason, config.max_steps);
                Err(WalkError::InvalidRecord { reason })
            },
            ReplayEvent::Missing => {
                let mut reason = String::from_str("walk encountered node `");
                match &taken {
                    Some(id) => reason.append(id.as_str()),
                    None => {},
                }
                reason.append("` missing from the graph");
                Err(WalkError::InvalidRecord { reason })
            },
        }
    }
}

/// The state reached from `st` after `k` walk steps.
pub open spec fn walk_after(nodes: KeyedMap<WorkflowIrNode>, st: ReplayState, max_steps: int, k: nat) -> ReplayState
    decreases k,
{
    if k == 0 {
        st
    } else {
        walk_after(nodes, replay_step(nodes, st, max_steps).0, max_steps, (k - 1) as nat)
    }
}

/// Each of the first `k` walk steps from `st` visits a node.
pub open spec fn visits_for(nodes: KeyedMap<WorkflowIrNode>, st: ReplayState, max_steps: int, k: nat) -> bool
    decreases k,
{
    k == 0 || (replay_step(nodes, st, max_steps).1 is Visited
        && visits_for(nodes, replay_step(nodes, st, max_steps).0, max_steps, (k - 1) as nat))
}

/// A walk agrees with the compiler's simulation: if the first `k` calls of
/// [`Walk::next`] on a fresh walk visit nodes and call `k + 1` stops, the
/// stop (its state, path and event) is exactly where the simulation of the
/// same graph under the same budget ends.
pub proof fn lemma_walk_matches_simulation(nodes: KeyedMap<WorkflowIrNode>, entry: Seq<char>, max_steps: int, k: nat)
    requires
        visits_for(nodes, initial_state(entry), max_steps, k),
        !(replay_step(nodes, walk_after(nodes, initial_state(entry), max_steps, k), max_steps).1 is Visited),
    ensures
        replay_run(nodes, initial_state(entry), max_steps)
            == replay_step(nodes, walk_after(nodes, initial_state(entry), max_steps, k), max_steps),
{
    lemma_walk_run(nodes, initial_state(entry), max_steps, k);
}

/// The states and events of successive walk steps from `st`, one per
/// budget in `budgets`: what successive calls of [`Walk::next`] with those
/// budgets move through and report.
pub open spec fn walk_trace(nodes: KeyedMap<WorkflowIrNode>, st: ReplayState, budgets: Seq<u64>) -> Seq<(ReplayState, ReplayEvent)>
    decreases budgets.len(),
{
    if budgets.len() == 0 {
        Seq::empty()
    } else {
        let s = replay_step(nodes, st, budgets[0] as int);
        seq![s] + walk_trace(nodes, s.0, budgets.drop_first())
    }
}

/// A walk restored from a position of another walk continues as if it
/// had never been paused: it stands where the other stood, its consumed
/// budget included, and successive steps under any budgets move both
/// through the same states with the same events.
pub proof fn lemma_resumed_walk_continues(
    nodes: KeyedMap<WorkflowIrNode>,
    walked: Walk,
    position: WalkPosition,
    resumed: Walk,
    budgets: Seq<u64>,
)
    requires
        position@ == walked@,
        resumed@ == position@,
    ensures
        resumed@ == walked@,
        resumed@.steps == walked@.steps,
        walk_trace(nodes, resumed@, budgets) == walk_trace(nodes, walked@, budgets),
{
}

/// Walking a graph step by step ends as one simulation of it under the
/// same budget: if the first `k` calls of [`Walk::next`] on a fresh walk
/// visit nodes and call `k + 1` answers `rw`, and the simulation answers
/// `rs`, then the walk fails exactly when the simulation does; otherwise
/// the walk's path is the report's path, and the walk stops completed,
/// paused at a node or indeterminate at a node exactly when the report's
/// outcome is completed, paused at that node or indeterminate there.
pub proof fn lemma_walk_agrees_with_simulation(
    nodes: KeyedMap<WorkflowIrNode>,
    entry: Seq<char>,
    max_steps: u64,
    epoch: u64,
    k: nat,
    rw: Result<WalkStep, WalkError>,
    rs: Result<SimulationReport, TeachingCompilerError>,
)
    requires
        visits_for(nodes, initial_state(entry), max_steps as int, k),
        !(replay_step(nodes, walk_after(nodes, initial_state(entry), max_steps as int, k), max_steps as int).1 is Visited),
        walk_step_matches(
            nodes,
            walk_after(nodes, initial_state(entry), max_steps as int, k),
            replay_step(nodes, walk_after(nodes, initial_state(entry), max_steps as int, k), max_steps as int).0,
            replay_step(nodes, walk_after(nodes, initial_state(entry), max_steps as int, k), max_steps as int).1,
            max_steps,
            rw,
        ),
        simulation_result(nodes, entry, max_steps, epoch, rs),
    ensures
        rw is Err <==> rs is Err,
        rs matches Ok(rep) ==> {
            let walked = replay_step(nodes, walk_after(nodes, initial_state(entry), max_steps as int, k), max_steps as int).0;
            &&& rep.spec_path() == walked.path
            &&& (rw matches Ok(WalkStep::Terminal(WalkTerminal::Completed))) <==> rep.spec_outcome() is Completed
            &&& rep.spec_outcome() matches SimulationOutcome::Paused { at }
                ==> (rw matches Ok(WalkStep::Terminal(WalkTerminal::Paused { node, .. })) && node@ == at@)
            &&& rep.spec_outcome() matches SimulationOutcome::Indeterminate { at, .. }
                ==> (rw matches Ok(WalkStep::Terminal(WalkTerminal::Indeterminate { node, .. })) && node@ == at@)
        },
{
    lemma_walk_run(nodes, initial_state(entry), max_steps as int, k);
}

proof fn lemma_walk_run(nodes: KeyedMap<WorkflowIrNode>, st: ReplayState, max_steps: int, k: nat)
    requires
        visits_for(nodes, st, max_steps, k),
        !(replay_step(nodes, walk_after(nodes, st, max_steps, k), max_steps).1 is Visited),
    ensures
        replay_run(nodes, st, max_steps) == replay_step(nodes, walk_after(nodes, st, max_steps, k), max_steps),
    decreases k,
{
    if k > 0 {
        let r = replay_step(nodes, st, max_steps);
        assert(st.steps < max_steps);
        lemma_walk_run(nodes, r.0, max_steps, (k - 1) as nat);
    }
}

} // verus!
