//! The resource binding surface: the only place provider-minted resources
//! become workflow-visible. A binding names a logical resource type, the
//! opaque resource id the provider minted, and the peer execution
//! environment the class binds under. Provider names never enter a
//! binding.

use vstd::prelude::*;
use crate::providers::error::ResourceProviderError;
use crate::providers::model::{ProviderId, ResourceClass, ResourceHandle, ResourceStatus, logical_type_name, status_bindable};

verus! {

/// The canonical logical resource type for sandbox-class compute.
pub const SANDBOX_COMPUTE_RESOURCE_TYPE: &'static str = "sandbox_compute";
/// The canonical logical resource type for remote-desktop-class resources.
pub const REMOTE_DESKTOP_RESOURCE_TYPE: &'static str = "remote_desktop_resource";
/// The canonical logical resource type for persistent workspaces.
pub const PERSISTENT_WORKSPACE_RESOURCE_TYPE: &'static str = "persistent_workspace";
/// The canonical logical resource type for GPU compute.
pub const GPU_COMPUTE_RESOURCE_TYPE: &'static str = "gpu_compute";

/// The execution environments actions run in; provider resources bind
/// under the terminal or the computer.
#[derive(Clone, Copy, Debug, PartialEq, Eq, Structural, Hash)]
pub enum ExecutionEnvironment {
    /// The terminal environment: sandbox and compute-class resources.
    Terminal,
    /// The computer environment: remote-desktop-class resources.
    Computer,
    /// The browser environment.
    Browser,
    /// A remote API.
    Api,
}

/// A resource binding: logical type, opaque resource id, holder.
#[derive(Clone, Debug, PartialEq, Eq)]
pub struct ResourceBinding {
    /// The logical resource type the binding satisfies.
    pub resource_type: String,
    /// The opaque resource instance id.
    pub resource: String,
    /// The peer environment holding the resource.
    pub holder: ExecutionEnvironment,
}

/// The holder environment of a class: remote desktops bind under the
/// computer environment, everything else under the terminal.
pub open spec fn holder_of(class: ResourceClass) -> ExecutionEnvironment {
    match class {
        ResourceClass::RemoteDesktop => ExecutionEnvironment::Computer,
        _ => ExecutionEnvironment::Terminal,
    }
}

/// The canonical logical resource type for one resource class.
pub fn canonical_resource_type(class: ResourceClass) -> (r: String)
    ensures
        r@ == logical_type_name(class),
{
    String::from_str(class.logical_resource_type())
}

/// The peer execution environment a resource class binds under.
pub fn holder_environment(class: ResourceClass) -> (r: ExecutionEnvironment)
    ensures
        r == holder_of(class),
{
    match class {
        ResourceClass::RemoteDesktop => ExecutionEnvironment::Computer,
        _ => ExecutionEnvironment::Terminal,
    }
}

/// Mints the canonical binding for a live provider handle.
pub fn bind(handle: &ResourceHandle) -> (r: Result<ResourceBinding, ResourceProviderError>)
    ensures
        status_bindable(handle.status) ==> (r matches Ok(b) && b.resource_type@ == logical_type_name(handle.class)
            && b.resource@ == handle.resource@ && b.holder == holder_of(handle.class)),
        !status_bindable(handle.status) ==> {
            &&& r matches Err(ResourceProviderError::ResourceNotBindable { provider, resource, status })
            &&& provider.spec_str() == handle.provider.spec_str()
            &&& resource@ == handle.resource@
            &&& status == handle.status
        },
{
    bind_as(handle, canonical_resource_type(handle.class))
}

/// Mints a binding for a live provider handle under an explicit logical
/// resource type; the holder is still derived from the class alone.
pub fn bind_as(handle: &ResourceHandle, resource_type: String) -> (r: Result<ResourceBinding, ResourceProviderError>)
    ensures
        status_bindable(handle.status) ==> (r matches Ok(b) && b.resource_type@ == resource_type@
            && b.resource@ == handle.resource@ && b.holder == holder_of(handle.class)),
        !status_bindable(handle.status) ==> {
            &&& r matches Err(ResourceProviderError::ResourceNotBindable { provider, resource, status })
            &&& provider.spec_str() == handle.provider.spec_str()
            &&& resource@ == handle.resource@
            &&& status == handle.status
        },
{
    if !handle.status.is_bindable() {
        return Err(ResourceProviderError::ResourceNotBindable {
            provider: handle.provider.duplicate(),
            resource: handle.resource.clone(),
            status: handle.status,
        });
    }
    Ok(ResourceBinding { resource_type, resource: handle.resource.clone(), holder: holder_environment(handle.class) })
}

} // verus!
