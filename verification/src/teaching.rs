//! Teaching: recording a taught workflow, compiling it into a graph,
//! validating, simulating, optimizing, approving and finalizing it.

pub mod error;
pub mod simulation;
pub mod mode;
pub mod evidence;
pub mod approval;
pub mod trajectory;
pub mod session;
pub mod blueprint;
pub mod proposal;
pub mod validation;
pub mod candidate;
pub mod compiler;
pub mod optimization;
