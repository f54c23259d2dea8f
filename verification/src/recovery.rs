//! Failure recovery for one failed step action, as decisions.
//!
//! The failure's kind selects the strategy: a transient failure or a
//! timeout is retried once on the same binding (after restoring its
//! readiness); an unavailable binding is replaced by a policy-checked
//! rebind to a compatible alternate; a permanent or policy failure is
//! escalated at once. Every attempt ends recovered or escalated, with the
//! escalation reason naming what failed.
//!
//! [`recovery_step`] takes the state and the outcome of the last outside
//! step (a dispatch, a resolution) and answers the next state and what to
//! do; the host performs the dispatches, resolutions, authorizations and
//! evidence writes.

use vstd::prelude::*;
use crate::providers::error::FailureKind;
use crate::text::strs_equal;

verus! {

/// What recovery knows of the failure it recovers from.
#[derive(Clone, Debug, PartialEq, Eq)]
pub struct RecoveryContext {
    /// The failure family.
    pub kind: FailureKind,
    /// The binding the action failed on.
    pub binding: String,
    /// The capability the step requires.
    pub capability: String,
    /// The failure's message.
    pub message: String,
}

/// Where one recovery stands.
#[derive(Clone, Debug, PartialEq, Eq)]
pub enum RecoveryState {
    /// The action failed; no recovery step has run.
    Failed,
    /// The action is being retried on the failed binding.
    Retrying,
    /// A compatible alternate binding is being resolved.
    Resolving,
    /// The action is being dispatched on the alternate `binding`.
    Rebinding {
        /// The alternate binding.
        binding: String,
    },
    /// Recovery has ended.
    Settled,
}

/// The outcome of the last outside step.
#[derive(Clone, Debug, PartialEq, Eq)]
pub enum RecoveryEvent {
    /// Recovery begins.
    Begin,
    /// The dispatched action succeeded.
    DispatchSucceeded,
    /// The dispatched action failed, with the failure's message when it
    /// carried one.
    DispatchFailed {
        /// The failure's message.
        detail: Option<String>,
    },
    /// The rebind resolved to `binding`.
    Resolved {
        /// The binding selected.
        binding: String,
    },
    /// The rebind could not be resolved.
    ResolveFailed {
        /// The diagnostic's code, rendered.
        code: String,
        /// The diagnostic's message.
        message: String,
    },
}

/// The recovery strategy that recovered an action.
#[derive(Clone, Copy, Debug, PartialEq, Eq, Structural)]
pub enum RecoveryStrategyKind {
    /// The same binding, once more.
    Retry,
    /// A compatible alternate binding.
    Rebind,
}

/// Evidence written before an escalation.
#[derive(Clone, Copy, Debug, PartialEq, Eq, Structural)]
pub enum EscalationRecord {
    /// The retry did not recover the action.
    RetryNotRecovered,
    /// The rebound action failed.
    RebindFailed,
}

/// What the host does next.
#[derive(Clone, Debug, PartialEq, Eq)]
pub enum RecoveryAction {
    /// Restore the failed binding's readiness and dispatch the action on
    /// it again.
    RetrySameBinding,
    /// Resolve a compatible alternate binding under the run's policy.
    ResolveAlternate,
    /// Record the fallback decision, authorize and bind `binding`, then
    /// dispatch the action on it.
    DispatchOnAlternate {
        /// The alternate binding.
        binding: String,
    },
    /// Record the recovery and continue with the action's result; the
    /// recovery event names `binding`.
    Recovered {
        /// How the action was recovered.
        strategy: RecoveryStrategyKind,
        /// The binding the recovered action ran on.
        binding: String,
    },
    /// Write `record` (when any), then escalate the failure with `reason`.
    Escalate {
        /// Why recovery gave up.
        reason: String,
        /// The evidence written first, when any.
        record: Option<EscalationRecord>,
    },
}

/// The outside step recovery waits on in `state` produces `event`.
pub open spec fn expects(state: RecoveryState, event: RecoveryEvent) -> bool {
    match state {
        RecoveryState::Failed => event is Begin,
        RecoveryState::Retrying => event is DispatchSucceeded || event is DispatchFailed,
        RecoveryState::Resolving => event is Resolved || event is ResolveFailed,
        RecoveryState::Rebinding { .. } => event is DispatchSucceeded || event is DispatchFailed,
        RecoveryState::Settled => false,
    }
}

/// How many recovery steps remain at most from `state`.
pub open spec fn steps_left(state: RecoveryState) -> nat {
    match state {
        RecoveryState::Failed => 3,
        RecoveryState::Retrying => 1,
        RecoveryState::Resolving => 2,
        RecoveryState::Rebinding { .. } => 1,
        RecoveryState::Settled => 0,
    }
}

/// A failure's message, or a placeholder when it carried none.
pub open spec fn detail_text(detail: Option<String>) -> Seq<char> {
    match detail {
        Some(d) => d@,
        None => "no failure record"@,
    }
}

/// The escalation for a failure that recovery does not attempt.
pub open spec fn permanent_reason(ctx: RecoveryContext) -> Seq<char> {
    "binding `"@ + ctx.binding@ + "` failed permanently: "@ + ctx.message@
}

fn concat3(a: &str, b: &str, c: &str) -> (r: String)
    ensures
        r@ == a@ + b@ + c@,
{
    let mut r = String::from_str(a);
    r.append(b);
    r.append(c);
    r
}

/// One recovery step: from `state`, after the outside step produced
/// `event`, the next state and what the host does next.
///
/// From `Failed`, a transient failure or a timeout retries on the same
/// binding, an unavailable binding resolves an alternate, and any other
/// failure escalates permanently. A retry that succeeds recovers by
/// retry; one that fails escalates after recording it. A resolution that
/// fails, or that selects the failed binding again, escalates; another
/// binding is dispatched on. A rebound dispatch that succeeds recovers by
/// rebind; one that fails escalates after recording it. Each step leaves
/// strictly fewer steps to go, so recovery settles within three.
pub fn recovery_step(ctx: &RecoveryContext, state: &RecoveryState, event: &RecoveryEvent) -> (r: (RecoveryState, RecoveryAction))
    requires
        expects(*state, *event),
    ensures
        steps_left(r.0) < steps_left(*state),
        r.0 is Settled <==> (r.1 is Recovered || r.1 is Escalate),
        *state is Failed ==> {
            &&& (ctx.kind is Transient || ctx.kind is Timeout) ==> r == (RecoveryState::Retrying, RecoveryAction::RetrySameBinding)
            &&& ctx.kind is Unavailable ==> r == (RecoveryState::Resolving, RecoveryAction::ResolveAlternate)
            &&& (ctx.kind is Permanent || ctx.kind is PolicyDenied) ==> {
                &&& r.0 is Settled
                &&& r.1 matches RecoveryAction::Escalate { reason, record }
                &&& reason@ == permanent_reason(*ctx)
                &&& record is None
            }
        },
        *state is Retrying ==> {
            &&& *event is DispatchSucceeded ==> r == (RecoveryState::Settled, RecoveryAction::Recovered {
                strategy: RecoveryStrategyKind::Retry,
                binding: ctx.binding,
            })
            &&& *event matches RecoveryEvent::DispatchFailed { detail } ==> {
                &&& r.0 is Settled
                &&& r.1 matches RecoveryAction::Escalate { reason, record }
                &&& reason@ == "retry of binding `"@ + ctx.binding@ + "` failed: "@ + detail_text(detail)
                &&& record == Some(EscalationRecord::RetryNotRecovered)
            }
        },
        *state is Resolving ==> {
            &&& *event matches RecoveryEvent::ResolveFailed { code, message } ==> {
                &&& r.0 is Settled
                &&& r.1 matches RecoveryAction::Escalate { reason, record }
                &&& reason@ == "rebind for capability `"@ + ctx.capability@ + "` failed: "@ + code@ + ": "@ + message@
                &&& record is None
            }
            &&& *event matches RecoveryEvent::Resolved { binding } ==> if binding@ == ctx.binding@ {
                &&& r.0 is Settled
                &&& r.1 matches RecoveryAction::Escalate { reason, record }
                &&& reason@ == "rebind for binding `"@ + ctx.binding@ + "` selected the same binding"@
                &&& record is None
            } else {
                &&& r.0 == RecoveryState::Rebinding { binding }
                &&& r.1 == RecoveryAction::DispatchOnAlternate { binding }
            }
        },
        *state matches RecoveryState::Rebinding { binding } ==> {
            &&& *event is DispatchSucceeded ==> r == (RecoveryState::Settled, RecoveryAction::Recovered {
                strategy: RecoveryStrategyKind::Rebind,
                binding,
            })
            &&& *event matches RecoveryEvent::DispatchFailed { detail } ==> {
                &&& r.0 is Settled
                &&& r.1 matches RecoveryAction::Escalate { reason, record }
                &&& reason@ == "rebound action on binding `"@ + binding@ + "` failed: "@ + detail_text(detail)
                &&& record == Some(EscalationRecord::RebindFailed)
            }
        },
        r.0 matches RecoveryState::Rebinding { binding } ==> binding@ != ctx.binding@,
{
    proof {
        reveal_strlit("binding `");
        reveal_strlit("` failed permanently: ");
        reveal_strlit("retry of binding `");
        reveal_strlit("` failed: ");
        reveal_strlit("no failure record");
        reveal_strlit("rebind for capability `");
        reveal_strlit(": ");
        reveal_strlit("rebind for binding `");
        reveal_strlit("` selected the same binding");
        reveal_strlit("rebound action on binding `");
    }
    match state {
        RecoveryState::Failed => match ctx.kind {
            FailureKind::Transient | FailureKind::Timeout => (RecoveryState::Retrying, RecoveryAction::RetrySameBinding),
            FailureKind::Unavailable => (RecoveryState::Resolving, RecoveryAction::ResolveAlternate),
            FailureKind::Permanent | FailureKind::PolicyDenied => {
                let mut reason = concat3("binding `", ctx.binding.as_str(), "` failed permanently: ");
                reason.append(ctx.message.as_str());
                (RecoveryState::Settled, RecoveryAction::Escalate { reason, record: None })
            },
        },
        RecoveryState::Retrying => match event {
            RecoveryEvent::DispatchSucceeded => (
                RecoveryState::Settled,
                RecoveryAction::Recovered { strategy: RecoveryStrategyKind::Retry, binding: ctx.binding.clone() },
            ),
            RecoveryEvent::DispatchFailed { detail } => {
                let mut reason = concat3("retry of binding `", ctx.binding.as_str(), "` failed: ");
                match detail {
                    Some(d) => reason.append(d.as_str()),
                    None => reason.append("no failure record"),
                }
                (RecoveryState::Settled, RecoveryAction::Escalate { reason, record: Some(EscalationRecord::RetryNotRecovered) })
            },
            _ => (RecoveryState::Settled, RecoveryAction::Escalate { reason: String::new(), record: None }),
        },
        RecoveryState::Resolving => match event {
            RecoveryEvent::ResolveFailed { code, message } => {
                let mut reason = concat3("rebind for capability `", ctx.capability.as_str(), "` failed: ");
                reason.append(code.as_str());
                reason.append(": ");
                reason.append(message.as_str());
                (RecoveryState::Settled, RecoveryAction::Escalate { reason, record: None })
            },
            RecoveryEvent::Resolved { binding } => {
                if strs_equal(binding.as_str(), ctx.binding.as_str()) {
                    let reason = concat3("rebind for binding `", ctx.binding.as_str(), "` selected the same binding");
                    (RecoveryState::Settled, RecoveryAction::Escalate { reason, record: None })
                } else {
                    (RecoveryState::Rebinding { binding: binding.clone() }, RecoveryAction::DispatchOnAlternate { binding: binding.clone() })
                }
            },
            _ => (RecoveryState::Settled, RecoveryAction::Escalate { reason: String::new(), record: None }),
        },
        RecoveryState::Rebinding { binding } => match event {
            RecoveryEvent::DispatchSucceeded => (
                RecoveryState::Settled,
                RecoveryAction::Recovered { strategy: RecoveryStrategyKind::Rebind, binding: binding.clone() },
            ),
            RecoveryEvent::DispatchFailed { detail } => {
                let mut reason = concat3("rebound action on binding `", binding.as_str(), "` failed: ");
                match detail {
                    Some(d) => reason.append(d.as_str()),
                    None => reason.append("no failure record"),
                }
                (RecoveryState::Settled, RecoveryAction::Escalate { reason, record: Some(EscalationRecord::RebindFailed) })
            },
            _ => (RecoveryState::Settled, RecoveryAction::Escalate { reason: String::new(), record: None }),
        },
        RecoveryState::Settled => (RecoveryState::Settled, RecoveryAction::Escalate { reason: String::new(), record: None }),
    }
}

} // verus!
