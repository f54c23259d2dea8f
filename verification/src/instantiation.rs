//! Instantiating a workflow version, as decisions.
//!
//! An instance is started in a fixed order of phases: the version's
//! integrity is verified, the registry's readiness refreshed, each
//! requested resource bound, the binding plan made, each distinct selected
//! binding authorized, then each attached, and finally the run started.
//! The first phase that fails fails the instance, and nothing after it
//! runs.
//!
//! [`instantiation_step`] takes where instantiation stands and the outcome
//! of the outside step it asked for, and answers the next state and what
//! to do; the host performs each step against its registry and stores.

use vstd::prelude::*;

verus! {

/// One phase of instantiation.
#[derive(Clone, Copy, Debug, PartialEq, Eq, Structural)]
pub enum InstantiationPhase {
    /// The version's integrity is being verified.
    Integrity,
    /// The registry's readiness is being refreshed.
    Readiness,
    /// The requested resource at this position is being bound.
    Resource(usize),
    /// The binding plan is being made.
    Planning,
    /// The selected binding at this position is being authorized.
    Approving(usize),
    /// The selected binding at this position is having its resources
    /// attached.
    Attaching(usize),
    /// The run is being started.
    Starting,
    /// The run has started.
    Running,
    /// Instantiation failed.
    Failed,
}

/// Where instantiation stands: the phase, how many resources the request
/// names, and how many distinct bindings the plan selected (zero until
/// planned).
#[derive(Clone, Copy, Debug, PartialEq, Eq, Structural)]
pub struct InstantiationState {
    /// The current phase.
    pub phase: InstantiationPhase,
    /// The number of requested resources.
    pub resources: usize,
    /// The number of distinct selected bindings.
    pub bindings: usize,
}

/// The outcome of the outside step a phase asked for.
#[derive(Clone, Copy, Debug, PartialEq, Eq, Structural)]
pub enum InstantiationEvent {
    /// The step succeeded.
    Succeeded,
    /// The binding plan was made and selected this many distinct bindings.
    Planned(usize),
    /// The step failed.
    Failed,
}

/// What the host does next.
#[derive(Clone, Copy, Debug, PartialEq, Eq, Structural)]
pub enum InstantiationAction {
    /// Verify the version's integrity.
    VerifyIntegrity,
    /// Refresh the registry's readiness.
    RefreshReadiness,
    /// Bind the requested resource at this position.
    BindResource(usize),
    /// Make the binding plan.
    PlanBindings,
    /// Authorize the selected binding at this position.
    AuthorizeBinding(usize),
    /// Attach the resources of the selected binding at this position.
    AttachResources(usize),
    /// Move the instance to running and start the run.
    StartRun,
    /// Nothing: the run has started.
    Done,
    /// Mark the instance failed.
    FailInstance,
}

/// What a phase asks the host to do.
pub open spec fn phase_action(p: InstantiationPhase) -> InstantiationAction {
    match p {
        InstantiationPhase::Integrity => InstantiationAction::VerifyIntegrity,
        InstantiationPhase::Readiness => InstantiationAction::RefreshReadiness,
        InstantiationPhase::Resource(i) => InstantiationAction::BindResource(i),
        InstantiationPhase::Planning => InstantiationAction::PlanBindings,
        InstantiationPhase::Approving(i) => InstantiationAction::AuthorizeBinding(i),
        InstantiationPhase::Attaching(i) => InstantiationAction::AttachResources(i),
        InstantiationPhase::Starting => InstantiationAction::StartRun,
        InstantiationPhase::Running => InstantiationAction::Done,
        InstantiationPhase::Failed => InstantiationAction::FailInstance,
    }
}

/// The state is consistent: positions lie within their counts.
pub open spec fn state_valid(s: InstantiationState) -> bool {
    match s.phase {
        InstantiationPhase::Resource(i) => i < s.resources,
        InstantiationPhase::Approving(i) => i < s.bindings,
        InstantiationPhase::Attaching(i) => i < s.bindings,
        _ => true,
    }
}

/// The event answers what the phase asked: the plan is answered by
/// `Planned` or a failure, every other step by success or failure, and a
/// finished instantiation asks nothing.
pub open spec fn event_fits(s: InstantiationState, e: InstantiationEvent) -> bool {
    match s.phase {
        InstantiationPhase::Running | InstantiationPhase::Failed => false,
        InstantiationPhase::Planning => !(e is Succeeded),
        _ => !(e is Planned),
    }
}

/// The phase after `s` when its step succeeded.
pub open spec fn phase_after(s: InstantiationState, planned: usize) -> InstantiationPhase {
    match s.phase {
        InstantiationPhase::Integrity => InstantiationPhase::Readiness,
        InstantiationPhase::Readiness => if s.resources > 0 {
            InstantiationPhase::Resource(0)
        } else {
            InstantiationPhase::Planning
        },
        InstantiationPhase::Resource(i) => if i + 1 < s.resources {
            InstantiationPhase::Resource((i + 1) as usize)
        } else {
            InstantiationPhase::Planning
        },
        InstantiationPhase::Planning => if planned > 0 {
            InstantiationPhase::Approving(0)
        } else {
            InstantiationPhase::Starting
        },
        InstantiationPhase::Approving(i) => if i + 1 < s.bindings {
            InstantiationPhase::Approving((i + 1) as usize)
        } else {
            InstantiationPhase::Attaching(0)
        },
        InstantiationPhase::Attaching(i) => if i + 1 < s.bindings {
            InstantiationPhase::Attaching((i + 1) as usize)
        } else {
            InstantiationPhase::Starting
        },
        _ => InstantiationPhase::Running,
    }
}

/// The state after `s` receives `e`: a failure fails the instance, a
/// success moves to the next phase, and the plan fixes the number of
/// bindings.
pub open spec fn next_state(s: InstantiationState, e: InstantiationEvent) -> InstantiationState {
    match e {
        InstantiationEvent::Failed => InstantiationState { phase: InstantiationPhase::Failed, ..s },
        InstantiationEvent::Planned(n) => InstantiationState { phase: phase_after(s, n), bindings: n, ..s },
        InstantiationEvent::Succeeded => InstantiationState { phase: phase_after(s, 0), ..s },
    }
}

/// The first state of an instantiation requesting `resources` resources,
/// and its action.
pub fn instantiation_start(resources: usize) -> (r: (InstantiationState, InstantiationAction))
    ensures
        r.0 == (InstantiationState { phase: InstantiationPhase::Integrity, resources, bindings: 0 }),
        r.1 == InstantiationAction::VerifyIntegrity,
{
    (InstantiationState { phase: InstantiationPhase::Integrity, resources, bindings: 0 }, InstantiationAction::VerifyIntegrity)
}

fn action_of(p: InstantiationPhase) -> (a: InstantiationAction)
    ensures
        a == phase_action(p),
{
    match p {
        InstantiationPhase::Integrity => InstantiationAction::VerifyIntegrity,
        InstantiationPhase::Readiness => InstantiationAction::RefreshReadiness,
        InstantiationPhase::Resource(i) => InstantiationAction::BindResource(i),
        InstantiationPhase::Planning => InstantiationAction::PlanBindings,
        InstantiationPhase::Approving(i) => InstantiationAction::AuthorizeBinding(i),
        InstantiationPhase::Attaching(i) => InstantiationAction::AttachResources(i),
        InstantiationPhase::Starting => InstantiationAction::StartRun,
        InstantiationPhase::Running => InstantiationAction::Done,
        InstantiationPhase::Failed => InstantiationAction::FailInstance,
    }
}

/// One instantiation decision: the next state after `s` receives the
/// outcome `e` of the step it asked for, and what the host does next.
pub fn instantiation_step(s: InstantiationState, e: InstantiationEvent) -> (r: (InstantiationState, InstantiationAction))
    requires
        state_valid(s),
        event_fits(s, e),
    ensures
        r.0 == next_state(s, e),
        r.1 == phase_action(r.0.phase),
        state_valid(r.0),
{
    let next = match e {
        InstantiationEvent::Failed => InstantiationState { phase: InstantiationPhase::Failed, ..s },
        InstantiationEvent::Planned(n) => {
            let phase = if n > 0 { InstantiationPhase::Approving(0) } else { InstantiationPhase::Starting };
            InstantiationState { phase, bindings: n, ..s }
        },
        InstantiationEvent::Succeeded => {
            let phase = match s.phase {
                InstantiationPhase::Integrity => InstantiationPhase::Readiness,
                InstantiationPhase::Readiness => if s.resources > 0 {
                    InstantiationPhase::Resource(0)
                } else {
                    InstantiationPhase::Planning
                },
                InstantiationPhase::Resource(i) => if i + 1 < s.resources {
                    InstantiationPhase::Resource(i + 1)
                } else {
                    InstantiationPhase::Planning
                },
                InstantiationPhase::Approving(i) => if i + 1 < s.bindings {
                    InstantiationPhase::Approving(i + 1)
                } else {
                    InstantiationPhase::Attaching(0)
                },
                InstantiationPhase::Attaching(i) => if i + 1 < s.bindings {
                    InstantiationPhase::Attaching(i + 1)
                } else {
                    InstantiationPhase::Starting
                },
                _ => InstantiationPhase::Running,
            };
            InstantiationState { phase, ..s }
        },
    };
    (next, action_of(next.phase))
}

/// How far instantiation has come: every phase in order, each resource and
/// binding position counting once.
pub open spec fn progress(s: InstantiationState) -> int {
    let r = s.resources as int;
    let b = s.bindings as int;
    match s.phase {
        InstantiationPhase::Integrity => 0,
        InstantiationPhase::Readiness => 1,
        InstantiationPhase::Resource(i) => 2 + i,
        InstantiationPhase::Planning => 2 + r,
        InstantiationPhase::Approving(i) => 3 + r + i,
        InstantiationPhase::Attaching(i) => 3 + r + b + i,
        InstantiationPhase::Starting => 3 + r + 2 * b,
        InstantiationPhase::Running => 4 + r + 2 * b,
        InstantiationPhase::Failed => 4 + r + 2 * b,
    }
}

/// Instantiation always moves forward and ends: every decision on a
/// consistent state advances its progress, a failure ends it failed at
/// once, and running or failed are final (no event fits them). The phases
/// therefore come in the fixed order, and nothing runs after a failure.
pub proof fn lemma_instantiation_advances(s: InstantiationState, e: InstantiationEvent)
    requires
        state_valid(s),
        event_fits(s, e),
    ensures
        progress(next_state(s, e)) > progress(s),
        e is Failed ==> next_state(s, e).phase is Failed,
        (next_state(s, e).phase is Running || next_state(s, e).phase is Failed)
            <==> forall|f: InstantiationEvent| !#[trigger] event_fits(next_state(s, e), f),
{
    assert(event_fits(next_state(s, e), InstantiationEvent::Failed) || next_state(s, e).phase is Running
        || next_state(s, e).phase is Failed);
}

} // verus!
