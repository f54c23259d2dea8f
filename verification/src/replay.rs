//! The deterministic replay policy shared by the compiler's simulation and
//! the run walk, stated as a step function over an abstract state.
//!
//! - conditions are opaque, so a conditional branch follows its default
//!   arm, or its first arm when no default exists;
//! - sequence children and fork branches are replayed in order; the
//!   remaining ones wait in a continuation frame;
//! - a loop enters its body once, then follows its exit;
//! - wait and human-gate nodes pause the replay; the pending re-entry
//!   point is their successor;
//! - compensation handlers are never entered on the forward path;
//! - every visit consumes one unit of the node budget.

use vstd::prelude::*;
use crate::ir::{WorkflowIrNode, ids, opt_ids, clone_ids};
use crate::keyed_map::KeyedMap;
use crate::graph::{edge, reachable, lemma_reachable_entry, lemma_reachable_step};

verus! {

/// The replay position: the pending node, the continuation frames
/// (innermost last), the budget consumed, and the path visited so far.
pub struct ReplayState {
    /// The node visited next, when one is pending.
    pub current: Option<Seq<char>>,
    /// Remaining sequence/fork children and loop exits, innermost last.
    pub frames: Seq<Seq<Seq<char>>>,
    /// Nodes visited so far (the budget consumed).
    pub steps: int,
    /// The visited node ids, in order.
    pub path: Seq<Seq<char>>,
}

/// What one replay step did.
#[derive(PartialEq, Eq, Structural, Clone, Copy, Debug)]
pub enum ReplayEvent {
    /// A node was visited and the replay continues.
    Visited,
    /// No node is pending: the replay is complete.
    Completed,
    /// A wait or human gate was visited.
    Paused,
    /// A conditional branch with no arms and no default was visited.
    Indeterminate,
    /// Visiting the next node would exceed the budget.
    BudgetExceeded,
    /// The next node id names no node of the graph.
    Missing,
}

/// The replay state at the start of a graph.
pub open spec fn initial_state(entry: Seq<char>) -> ReplayState {
    ReplayState { current: Some(entry), frames: Seq::empty(), steps: 0, path: Seq::empty() }
}

/// The next node to visit and the frames left after taking it: the
/// pending node if any, else the first id of the innermost non-empty
/// frame (empty frames are dropped).
pub open spec fn next_pending(current: Option<Seq<char>>, frames: Seq<Seq<Seq<char>>>) -> Option<(Seq<char>, Seq<Seq<Seq<char>>>)>
    decreases frames.len(),
{
    match current {
        Some(id) => Some((id, frames)),
        None => if frames.len() == 0 {
            None
        } else if frames.last().len() > 0 {
            Some((frames.last()[0], frames.update(frames.len() - 1, frames.last().drop_first())))
        } else {
            next_pending(None, frames.drop_last())
        },
    }
}

/// A pending id followed by the rest of a child list.
pub open spec fn enter_children(
    children: Seq<Seq<char>>,
    frames: Seq<Seq<Seq<char>>>,
) -> (Option<Seq<char>>, Seq<Seq<Seq<char>>>) {
    if children.len() == 0 {
        (None, frames)
    } else if children.len() == 1 {
        (Some(children[0]), frames)
    } else {
        (Some(children[0]), frames.push(children.drop_first()))
    }
}

/// The optional id as an `Option` of its characters.
pub open spec fn opt_view(o: Option<String>) -> Option<Seq<char>> {
    match o {
        Some(s) => Some(s@),
        None => None,
    }
}

/// The effect of visiting `node` (already appended to the path): the new
/// pending node, the new frames, and the event.
pub open spec fn visit(
    node: WorkflowIrNode,
    frames: Seq<Seq<Seq<char>>>,
) -> (Option<Seq<char>>, Seq<Seq<Seq<char>>>, ReplayEvent) {
    match node {
        WorkflowIrNode::Step(n) => (opt_view(n.next), frames, ReplayEvent::Visited),
        WorkflowIrNode::Sequence(n) => {
            let e = enter_children(ids(n.steps@), frames);
            (e.0, e.1, ReplayEvent::Visited)
        },
        WorkflowIrNode::ParallelFork(n) => {
            let e = enter_children(ids(n.branches@), frames);
            (e.0, e.1, ReplayEvent::Visited)
        },
        WorkflowIrNode::ParallelJoin(n) => (opt_view(n.next), frames, ReplayEvent::Visited),
        WorkflowIrNode::ConditionalBranch(n) => match n.default {
            Some(d) => (Some(d@), frames, ReplayEvent::Visited),
            None => if n.arms@.len() > 0 {
                (Some(n.arms@[0].target@), frames, ReplayEvent::Visited)
            } else {
                (None, frames, ReplayEvent::Indeterminate)
            },
        },
        WorkflowIrNode::Loop(n) => (Some(n.body@), frames + opt_ids(n.next).map_values(|x: Seq<char>| seq![x]), ReplayEvent::Visited),
        WorkflowIrNode::Wait(n) => (opt_view(n.next), frames, ReplayEvent::Paused),
        WorkflowIrNode::HumanGate(n) => (opt_view(n.next), frames, ReplayEvent::Paused),
        WorkflowIrNode::Subworkflow(n) => (opt_view(n.next), frames, ReplayEvent::Visited),
        WorkflowIrNode::Compensation(n) => (None, frames, ReplayEvent::Visited),
    }
}

/// One replay step under the node budget `max_steps`.
pub open spec fn replay_step(nodes: KeyedMap<WorkflowIrNode>, st: ReplayState, max_steps: int) -> (ReplayState, ReplayEvent) {
    match next_pending(st.current, st.frames) {
        None => (ReplayState { current: None, frames: Seq::empty(), ..st }, ReplayEvent::Completed),
        Some((id, frames)) => if st.steps >= max_steps {
            (ReplayState { current: None, frames: frames, ..st }, ReplayEvent::BudgetExceeded)
        } else if !nodes.contains(id) {
            (ReplayState { current: None, frames: frames, steps: st.steps + 1, ..st }, ReplayEvent::Missing)
        } else {
            let v = visit(nodes.lookup(id).unwrap(), frames);
            (ReplayState { current: v.0, frames: v.1, steps: st.steps + 1, path: st.path.push(id) }, v.2)
        },
    }
}

/// Replays from `st` until a step ends the replay (any event but
/// `Visited`).
pub open spec fn replay_run(nodes: KeyedMap<WorkflowIrNode>, st: ReplayState, max_steps: int) -> (ReplayState, ReplayEvent)
    decreases max_steps - st.steps,
{
    let r = replay_step(nodes, st, max_steps);
    if r.1 is Visited && st.steps < max_steps {
        replay_run(nodes, r.0, max_steps)
    } else {
        r
    }
}

/// The id the final step of [`replay_run`] took, if it took one: for a
/// replay that stops at a missing node, that node's id.
pub open spec fn replay_last_taken(nodes: KeyedMap<WorkflowIrNode>, st: ReplayState, max_steps: int) -> Option<Seq<char>>
    decreases max_steps - st.steps,
{
    let r = replay_step(nodes, st, max_steps);
    if r.1 is Visited && st.steps < max_steps {
        replay_last_taken(nodes, r.0, max_steps)
    } else {
        match next_pending(st.current, st.frames) {
            Some(p) => Some(p.0),
            None => None,
        }
    }
}

/// The replay visited only graph nodes reachable from `entry`, starting
/// with `entry`, one budget unit each, and everything still pending is
/// reachable from `entry`.
pub open spec fn replay_inv(nodes: KeyedMap<WorkflowIrNode>, entry: Seq<char>, st: ReplayState, max_steps: int) -> bool {
    &&& st.steps == st.path.len()
    &&& st.steps <= max_steps
    &&& st.path.len() > 0 ==> st.path[0] == entry
    &&& forall|i: int| 0 <= i < st.path.len() ==> nodes.contains(#[trigger] st.path[i]) && reachable(nodes, entry, st.path[i])
    &&& st.current matches Some(c) ==> (reachable(nodes, entry, c) && (st.path.len() == 0 ==> c == entry))
    &&& st.path.len() == 0 ==> st.current is Some
    &&& forall|i: int, j: int| 0 <= i < st.frames.len() && 0 <= j < st.frames[i].len() ==> reachable(nodes, entry, #[trigger] st.frames[i][j])
}

proof fn lemma_next_pending_reachable(
    nodes: KeyedMap<WorkflowIrNode>,
    entry: Seq<char>,
    current: Option<Seq<char>>,
    frames: Seq<Seq<Seq<char>>>,
)
    requires
        current matches Some(c) ==> reachable(nodes, entry, c),
        forall|i: int, j: int| 0 <= i < frames.len() && 0 <= j < frames[i].len() ==> reachable(nodes, entry, #[trigger] frames[i][j]),
    ensures
        next_pending(current, frames) matches Some(p) ==> {
            &&& reachable(nodes, entry, p.0)
            &&& forall|i: int, j: int| 0 <= i < p.1.len() && 0 <= j < p.1[i].len() ==> reachable(nodes, entry, #[trigger] p.1[i][j])
        },
    decreases frames.len(),
{
    if current is None && frames.len() > 0 {
        if frames.last().len() > 0 {
            let k = frames.len() - 1;
            let fr = frames.update(k, frames.last().drop_first());
            assert(reachable(nodes, entry, frames[k][0]));
            assert forall|i: int, j: int| 0 <= i < fr.len() && 0 <= j < fr[i].len() implies reachable(nodes, entry, #[trigger] fr[i][j]) by {
                if i == k {
                    assert(fr[i][j] == frames[k][j + 1]);
                } else {
                    assert(fr[i][j] == frames[i][j]);
                }
            }
        } else {
            let fr = frames.drop_last();
            assert forall|i: int, j: int| 0 <= i < fr.len() && 0 <= j < fr[i].len() implies reachable(nodes, entry, #[trigger] fr[i][j]) by {
                assert(fr[i][j] == frames[i][j]);
            }
            lemma_next_pending_reachable(nodes, entry, None, fr);
        }
    }
}

proof fn lemma_successor_reachable(nodes: KeyedMap<WorkflowIrNode>, entry: Seq<char>, id: Seq<char>, x: Seq<char>)
    requires
        nodes.contains(id),
        reachable(nodes, entry, id),
        nodes.lookup(id).unwrap().successor_ids().contains(x),
    ensures
        reachable(nodes, entry, x),
{
    assert(edge(nodes, id, x));
    lemma_reachable_step(nodes, entry, id, x);
}

proof fn lemma_visit_reachable(
    nodes: KeyedMap<WorkflowIrNode>,
    entry: Seq<char>,
    id: Seq<char>,
    frames: Seq<Seq<Seq<char>>>,
)
    requires
        nodes.contains(id),
        reachable(nodes, entry, id),
        forall|i: int, j: int| 0 <= i < frames.len() && 0 <= j < frames[i].len() ==> reachable(nodes, entry, #[trigger] frames[i][j]),
    ensures
        ({
            let v = visit(nodes.lookup(id).unwrap(), frames);
            &&& v.0 matches Some(c) ==> reachable(nodes, entry, c)
            &&& forall|i: int, j: int| 0 <= i < v.1.len() && 0 <= j < v.1[i].len() ==> reachable(nodes, entry, #[trigger] v.1[i][j])
        }),
{
    let node = nodes.lookup(id).unwrap();
    let succ = node.successor_ids();
    let v = visit(node, frames);
    assert forall|k: int| 0 <= k < succ.len() implies reachable(nodes, entry, #[trigger] succ[k]) by {
        assert(succ.contains(succ[k]));
        lemma_successor_reachable(nodes, entry, id, succ[k]);
    }
    match node {
        WorkflowIrNode::Step(n) => {
            if n.next is Some { assert(succ[0] == n.next.unwrap()@); }
        },
        WorkflowIrNode::ParallelJoin(n) => {
            if n.next is Some { assert(succ[0] == n.next.unwrap()@); }
        },
        WorkflowIrNode::Wait(n) => {
            if n.next is Some { assert(succ[0] == n.next.unwrap()@); }
        },
        WorkflowIrNode::HumanGate(n) => {
            if n.next is Some { assert(succ[0] == n.next.unwrap()@); }
        },
        WorkflowIrNode::Subworkflow(n) => {
            if n.next is Some { assert(succ[0] == n.next.unwrap()@); }
        },
        WorkflowIrNode::Sequence(n) => {
            let c = ids(n.steps@);
            if c.len() > 0 {
                assert(succ[0] == c[0]);
            }
            if c.len() > 1 {
                assert forall|i: int, j: int| 0 <= i < v.1.len() && 0 <= j < v.1[i].len() implies reachable(nodes, entry, #[trigger] v.1[i][j]) by {
                    if i == frames.len() {
                        assert(v.1[i][j] == succ[j + 1]);
                    } else {
                        assert(v.1[i][j] == frames[i][j]);
                    }
                }
            }
        },
        WorkflowIrNode::ParallelFork(n) => {
            let c = ids(n.branches@);
            if c.len() > 0 {
                assert(succ[0] == c[0]);
            }
            if c.len() > 1 {
                assert forall|i: int, j: int| 0 <= i < v.1.len() && 0 <= j < v.1[i].len() implies reachable(nodes, entry, #[trigger] v.1[i][j]) by {
                    if i == frames.len() {
                        assert(v.1[i][j] == succ[j + 1]);
                    } else {
                        assert(v.1[i][j] == frames[i][j]);
                    }
                }
            }
        },
        WorkflowIrNode::ConditionalBranch(n) => {
            let t = crate::ir::arm_targets(n.arms@);
            match n.default {
                Some(d) => {
                    assert(succ[t.len() as int] == d@);
                },
                None => {
                    if n.arms@.len() > 0 {
                        assert(succ[0] == n.arms@[0].target@);
                    }
                },
            }
        },
        WorkflowIrNode::Loop(n) => {
            assert(succ[0] == n.body@);
            if n.next is Some {
                assert(succ[1] == n.next.unwrap()@);
                assert forall|i: int, j: int| 0 <= i < v.1.len() && 0 <= j < v.1[i].len() implies reachable(nodes, entry, #[trigger] v.1[i][j]) by {
                    if i == frames.len() {
                        assert(v.1[i][j] == n.next.unwrap()@);
                    } else {
                        assert(v.1[i][j] == frames[i][j]);
                    }
                }
            } else {
                assert(v.1 =~= frames);
            }
        },
        WorkflowIrNode::Compensation(n) => {},
    }
}

/// One replay step keeps [`replay_inv`] unless it meets a missing node or
/// the end of the budget.
pub proof fn lemma_replay_step_inv(nodes: KeyedMap<WorkflowIrNode>, entry: Seq<char>, st: ReplayState, max_steps: int)
    requires
        nodes.wf(),
        replay_inv(nodes, entry, st, max_steps),
    ensures
        !(replay_step(nodes, st, max_steps).1 is Missing) && !(replay_step(nodes, st, max_steps).1 is BudgetExceeded)
            ==> replay_inv(nodes, entry, replay_step(nodes, st, max_steps).0, max_steps),
{
    lemma_next_pending_reachable(nodes, entry, st.current, st.frames);
    let r = replay_step(nodes, st, max_steps);
    match next_pending(st.current, st.frames) {
        None => {},
        Some(p) => {
            if st.steps < max_steps && nodes.contains(p.0) {
                lemma_visit_reachable(nodes, entry, p.0, p.1);
                let np = st.path.push(p.0);
                assert(r.0.path == np);
                if st.path.len() == 0 {
                    assert(st.current is Some);
                    assert(p.0 == entry);
                }
                assert forall|i: int| 0 <= i < np.len() implies nodes.contains(#[trigger] np[i]) && reachable(nodes, entry, np[i]) by {
                    if i < st.path.len() {
                        assert(np[i] == st.path[i]);
                    }
                }
            }
        },
    }
}

/// A replay run keeps [`replay_inv`] unless it ends at a missing node or
/// the end of the budget.
pub proof fn lemma_replay_run_inv(nodes: KeyedMap<WorkflowIrNode>, entry: Seq<char>, st: ReplayState, max_steps: int)
    requires
        nodes.wf(),
        replay_inv(nodes, entry, st, max_steps),
    ensures
        !(replay_run(nodes, st, max_steps).1 is Missing) && !(replay_run(nodes, st, max_steps).1 is BudgetExceeded)
            ==> replay_inv(nodes, entry, replay_run(nodes, st, max_steps).0, max_steps),
    decreases max_steps - st.steps,
{
    lemma_replay_step_inv(nodes, entry, st, max_steps);
    let r = replay_step(nodes, st, max_steps);
    if r.1 is Visited && st.steps < max_steps {
        lemma_replay_run_inv(nodes, entry, r.0, max_steps);
    }
}

/// The start of a replay satisfies [`replay_inv`].
pub proof fn lemma_initial_inv(nodes: KeyedMap<WorkflowIrNode>, entry: Seq<char>, max_steps: int)
    requires
        max_steps >= 0,
    ensures
        replay_inv(nodes, entry, initial_state(entry), max_steps),
{
    lemma_reachable_entry(nodes, entry);
}

/// Two graphs that agree on every node reachable from `entry` in the
/// first give the same replay step from any position of a replay of the
/// first.
pub proof fn lemma_replay_step_agrees(
    a: KeyedMap<WorkflowIrNode>,
    b: KeyedMap<WorkflowIrNode>,
    entry: Seq<char>,
    st: ReplayState,
    max_steps: int,
)
    requires
        replay_inv(a, entry, st, max_steps),
        forall|k: Seq<char>| reachable(a, entry, k) ==> #[trigger] b.lookup(k) == a.lookup(k),
    ensures
        replay_step(b, st, max_steps) == replay_step(a, st, max_steps),
{
    lemma_next_pending_reachable(a, entry, st.current, st.frames);
    match next_pending(st.current, st.frames) {
        None => {},
        Some(p) => {
            assert(b.lookup(p.0) == a.lookup(p.0));
            assert(b.contains(p.0) == a.contains(p.0));
        },
    }
}

/// Two graphs that agree on every node reachable from `entry` in the
/// first replay identically from any position of a replay of the first.
pub proof fn lemma_replay_run_agrees(
    a: KeyedMap<WorkflowIrNode>,
    b: KeyedMap<WorkflowIrNode>,
    entry: Seq<char>,
    st: ReplayState,
    max_steps: int,
)
    requires
        a.wf(),
        replay_inv(a, entry, st, max_steps),
        forall|k: Seq<char>| reachable(a, entry, k) ==> #[trigger] b.lookup(k) == a.lookup(k),
    ensures
        replay_run(b, st, max_steps) == replay_run(a, st, max_steps),
        replay_last_taken(b, st, max_steps) == replay_last_taken(a, st, max_steps),
    decreases max_steps - st.steps,
{
    lemma_replay_step_agrees(a, b, entry, st, max_steps);
    lemma_replay_step_inv(a, entry, st, max_steps);
    let r = replay_step(a, st, max_steps);
    if r.1 is Visited && st.steps < max_steps {
        lemma_replay_run_agrees(a, b, entry, r.0, max_steps);
    }
}

/// An executable replay position over a graph.
#[derive(Clone, Debug)]
pub struct ReplayCursor {
    /// The node visited next, when one is pending.
    pub current: Option<String>,
    /// Remaining sequence/fork children and loop exits, innermost last.
    pub continuations: Vec<Vec<String>>,
    /// Nodes visited so far.
    pub steps_taken: u64,
    /// The visited node ids, in order.
    pub path: Vec<String>,
}

/// The frames held by a vector of id vectors.
pub open spec fn frames_view(v: Seq<Vec<String>>) -> Seq<Seq<Seq<char>>> {
    v.map_values(|f: Vec<String>| ids(f@))
}

impl View for ReplayCursor {
    type V = ReplayState;

    open spec fn view(&self) -> ReplayState {
        ReplayState {
            current: opt_view(self.current),
            frames: frames_view(self.continuations@),
            steps: self.steps_taken as int,
            path: ids(self.path@),
        }
    }
}

impl ReplayCursor {
    /// A cursor at the start of a graph with entry `entry`.
    pub fn start(entry: &String) -> (c: Self)
        ensures
            c@ == initial_state(entry@),
    {
        let c = ReplayCursor { current: Some(entry.clone()), continuations: Vec::new(), steps_taken: 0, path: Vec::new() };
        assert(c@.frames =~= Seq::<Seq<Seq<char>>>::empty());
        assert(c@.path =~= Seq::<Seq<char>>::empty());
        c
    }

    /// Takes the next pending node id, dropping exhausted frames.
    fn take_next(&mut self) -> (r: Option<String>)
        ensures
            final(self).steps_taken == old(self).steps_taken,
            final(self).path@ == old(self).path@,
            final(self).current is None,
            match next_pending(old(self)@.current, old(self)@.frames) {
                None => r is None && final(self)@.frames.len() == 0,
                Some(p) => r matches Some(id) && id@ == p.0 && final(self)@.frames == p.1,
            },
    {
        if let Some(id) = self.current.take() {
            return Some(id);
        }
        let ghost target = next_pending(None, old(self)@.frames);
        loop
            invariant
                self.current is None,
                self.steps_taken == old(self).steps_taken,
                self.path@ == old(self).path@,
                next_pending(old(self)@.current, old(self)@.frames) == target,
                next_pending(None, self@.frames) == target,
            decreases self.continuations@.len(),
        {
            let k = self.continuations.len();
            if k == 0 {
                return None;
            }
            if self.continuations[k - 1].len() > 0 {
                let ghost fr = self@.frames;
                let mut f = self.continuations.pop().unwrap();
                let ghost f0 = f@;
                assert(ids(f0) == fr.last());
                let id = f.remove(0);
                assert(ids(f@) =~= ids(f0).drop_first());
                assert(id@ == fr.last()[0]);
                self.continuations.push(f);
                assert(self@.frames =~= fr.update(fr.len() - 1, fr.last().drop_first()));
                return Some(id);
            }
            let ghost fr = self@.frames;
            self.continuations.pop();
            assert(self@.frames =~= fr.drop_last());
        }
    }

    /// Performs one replay step under the node budget `max_steps`, handing
    /// back the event and the id the step took, if any.
    pub fn step(&mut self, nodes: &KeyedMap<WorkflowIrNode>, max_steps: u64) -> (r: (ReplayEvent, Option<String>))
        requires
            nodes.wf(),
        ensures
            (final(self)@, r.0) == replay_step(*nodes, old(self)@, max_steps as int),
            match next_pending(old(self)@.current, old(self)@.frames) {
                None => r.1 is None,
                Some(p) => r.1 matches Some(id) && id@ == p.0,
            },
    {
        let ghost st = self@;
        let id = match self.take_next() {
            None => {
                assert(self@.frames =~= Seq::<Seq<Seq<char>>>::empty());
                return (ReplayEvent::Completed, None);
            },
            Some(id) => id,
        };
        if self.steps_taken >= max_steps {
            return (ReplayEvent::BudgetExceeded, Some(id));
        }
        self.steps_taken = self.steps_taken + 1;
        let node = match nodes.get(&id) {
            None => {
                return (ReplayEvent::Missing, Some(id));
            },
            Some(node) => node,
        };
        let ghost fr = self@.frames;
        self.path.push(id.clone());
        assert(ids(self.path@) =~= st.path.push(id@));
        let ev = match node {
            WorkflowIrNode::Step(n) => {
                self.current = n.next.clone();
                ReplayEvent::Visited
            },
            WorkflowIrNode::Sequence(n) => {
                self.enter_children(&n.steps);
                ReplayEvent::Visited
            },
            WorkflowIrNode::ParallelFork(n) => {
                self.enter_children(&n.branches);
                ReplayEvent::Visited
            },
            WorkflowIrNode::ParallelJoin(n) => {
                self.current = n.next.clone();
                ReplayEvent::Visited
            },
            WorkflowIrNode::ConditionalBranch(n) => {
                match &n.default {
                    Some(d) => {
                        self.current = Some(d.clone());
                        ReplayEvent::Visited
                    },
                    None => {
                        if n.arms.len() > 0 {
                            self.current = Some(n.arms[0].target.clone());
                            ReplayEvent::Visited
                        } else {
                            self.current = None;
                            ReplayEvent::Indeterminate
                        }
                    },
                }
            },
            WorkflowIrNode::Loop(n) => {
                self.current = Some(n.body.clone());
                if let Some(x) = &n.next {
                    let mut frame: Vec<String> = Vec::new();
                    frame.push(x.clone());
                    self.continuations.push(frame);
                    assert(ids(frame@) =~= seq![x@]);
                }
                assert(self@.frames =~= fr + opt_ids(n.next).map_values(|x: Seq<char>| seq![x]));
                ReplayEvent::Visited
            },
            WorkflowIrNode::Wait(n) => {
                self.current = n.next.clone();
                ReplayEvent::Paused
            },
            WorkflowIrNode::HumanGate(n) => {
                self.current = n.next.clone();
                ReplayEvent::Paused
            },
            WorkflowIrNode::Subworkflow(n) => {
                self.current = n.next.clone();
                ReplayEvent::Visited
            },
            WorkflowIrNode::Compensation(_) => {
                self.current = None;
                ReplayEvent::Visited
            },
        };
        (ev, Some(id))
    }

    /// Makes the first child pending and keeps the rest in a new frame.
    fn enter_children(&mut self, children: &Vec<String>)
        requires
            old(self).current is None,
        ensures
            final(self).steps_taken == old(self).steps_taken,
            final(self).path@ == old(self).path@,
            (final(self)@.current, final(self)@.frames) == enter_children(ids(children@), old(self)@.frames),
    {
        let ghost fr = self@.frames;
        let mut rest = clone_ids(children);
        if rest.len() == 0 {
            self.current = None;
        } else {
            let first = rest.remove(0);
            self.current = Some(first);
            if rest.len() > 0 {
                self.continuations.push(rest);
                assert(ids(rest@) =~= ids(children@).drop_first());
                assert(self@.frames =~= fr.push(ids(children@).drop_first()));
            }
        }
    }
}

} // verus!
