//! Errors surfaced by the teaching compiler.
//!
//! Every failure names the invariant that was violated; recovery
//! decisions belong to the session host and the control plane.

use vstd::prelude::*;

verus! {

/// Errors produced while recording, compiling, validating, simulating,
/// optimizing, approving, or finalizing taught workflows.
#[derive(Clone, Debug, PartialEq, Eq)]
pub enum TeachingCompilerError {
    /// A lifecycle transition was attempted from an illegal state.
    InvalidState {
        /// The state the candidate or session is actually in.
        current: String,
        /// The state the operation requires.
        required: String,
    },
    /// An approval input was structurally invalid.
    InvalidApproval {
        /// Why the approval was rejected.
        reason: String,
    },
    /// The approval record was bound to a different content epoch.
    ApprovalEpochMismatch {
        /// Content epoch the approval was recorded against.
        approval_epoch: u64,
        /// Current content epoch of the candidate.
        candidate_epoch: u64,
    },
    /// Finalization requires a simulation of the current content epoch.
    MissingSimulation,
    /// The simulation was run against a different content epoch.
    SimulationEpochMismatch {
        /// Content epoch the simulation was run against.
        simulation_epoch: u64,
        /// Current content epoch of the candidate.
        candidate_epoch: u64,
    },
    /// A trajectory event failed session-level consistency or bound checks.
    InvalidEvent {
        /// Why the event was rejected.
        reason: String,
    },
    /// An evidence reference failed its structural validation.
    InvalidEvidence {
        /// Why the evidence reference was rejected.
        reason: String,
    },
    /// The session contained no records to compile.
    EmptySession,
    /// Compilation requires the session to be closed first.
    SessionNotClosed,
    /// The session's trajectory bound was exceeded.
    TrajectoryBoundExceeded {
        /// The configured maximum number of records.
        limit: usize,
    },
    /// The requested optimization is forbidden.
    OptimizationForbidden {
        /// Why the optimization was rejected.
        reason: String,
    },
    /// The optimization proposal does not match the candidate content.
    StaleOptimizationProposal {
        /// Content epoch the proposal was computed against.
        proposal_epoch: u64,
        /// Current content epoch of the candidate.
        candidate_epoch: u64,
    },
    /// The simulation exceeded its step budget.
    SimulationStepBudgetExceeded {
        /// The configured step budget.
        budget: u64,
    },
    /// A node id required by the compiler is invalid or missing.
    InvalidNodeId {
        /// The rejected node id.
        node_id: String,
        /// Why it was rejected.
        reason: String,
    },
    /// The session mode does not accept the recorded origin.
    ModeOriginMismatch {
        /// The session's teaching mode.
        mode: String,
        /// The rejected record origin.
        origin: String,
    },
    /// The teaching input produced no compilable steps.
    NoCompilableSteps {
        /// Why no steps could be derived.
        reason: String,
    },
}

} // verus!
