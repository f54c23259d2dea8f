//! The execution resource provider plane: the provider-neutral resource
//! model, capability declarations, the lifecycle vocabulary, the failure
//! vocabulary, credential references and the binding surface.

pub mod error;
pub mod model;
pub mod provider;
pub mod descriptor;
pub mod registry;
pub mod bind;
pub mod evidence;
pub mod fixture;
pub mod sandbox_cloud;
pub mod local_containers;
pub mod verdicts;
pub mod conformance;
