//! Verified core of a workflow platform: the teaching compiler that turns
//! demonstrations into workflow graphs, the walk that runs a graph, the
//! execution resource provider plane (resource model, provider port,
//! fixtures, conformance harness, registry), and the run-time decisions of
//! the workflow application (binding plans, binding resolution, failure
//! recovery, instantiation, and the desktop and browser action
//! vocabularies).

pub mod text;
pub mod keyed_map;
pub mod ir;
pub mod graph;
pub mod replay;
pub mod teaching;
pub mod walk;
pub mod providers;
pub mod approval;
pub mod environment;
pub mod recovery;
pub mod plan;
pub mod publish;
pub mod instantiation;
