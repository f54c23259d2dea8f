//! The lifecycle vocabulary of the provider port: lifecycle operations,
//! resize requests and lifecycle outcomes.
//!
//! The enum is the entire lifecycle vocabulary: a provider that does not
//! declare an operation answers `Unsupported` for its variant instead of
//! growing a bespoke API.

use vstd::prelude::*;
use crate::providers::error::ResourceProviderError;
use crate::providers::descriptor::{ProviderDescriptor, ProviderHealth, ResourceCapability, ResourceLifecycleSupport, supports_op};
use crate::providers::evidence::{EvidenceKind, ResourceEvidenceRecord, evidence_identified, record_view};
use crate::providers::model::{
    CPU_MILLIS_MAX, DISK_MIB_MAX, MEMORY_MIB_MAX, ResourceClass, ResourceHandle, ResourceSnapshot, ResourceSpec,
    ResourceStatus, out_of_range, spec_error, status_bindable, widen,
};

verus! {

/// A request to resize one live resource. Absent fields keep the
/// current allocation; at least one field must be present.
#[derive(Clone, Copy, Debug, Default, PartialEq, Eq, Structural, Hash)]
pub struct ResizeRequest {
    /// The new CPU allocation in milli-CPU, when changing.
    pub cpu_millis: Option<u32>,
    /// The new memory allocation in MiB, when changing.
    pub memory_mib: Option<u32>,
    /// The new disk allocation in MiB, when changing.
    pub disk_mib: Option<u64>,
}

/// One lifecycle operation.
#[derive(Clone, Copy, Debug, PartialEq, Eq, Structural, Hash)]
pub enum LifecycleOp {
    /// Provision a fresh resource with the same shape, under a new id.
    Create,
    /// Pause the resource.
    Pause,
    /// Resume a paused resource.
    Resume,
    /// Capture a snapshot artifact of the resource's state.
    Snapshot,
    /// Fork the resource's state into a new resource.
    Fork,
    /// Resize the resource to the requested capacities.
    Resize(ResizeRequest),
}

/// The stable name of an operation.
pub open spec fn op_name(op: LifecycleOp) -> Seq<char> {
    match op {
        LifecycleOp::Create => "create"@,
        LifecycleOp::Pause => "pause"@,
        LifecycleOp::Resume => "resume"@,
        LifecycleOp::Snapshot => "snapshot"@,
        LifecycleOp::Fork => "fork"@,
        LifecycleOp::Resize(_) => "resize"@,
    }
}

impl LifecycleOp {
    /// The operation's stable name, used for error reporting.
    pub fn name(&self) -> (r: &'static str)
        ensures
            r@ == op_name(*self),
    {
        match self {
            LifecycleOp::Create => "create",
            LifecycleOp::Pause => "pause",
            LifecycleOp::Resume => "resume",
            LifecycleOp::Snapshot => "snapshot",
            LifecycleOp::Fork => "fork",
            LifecycleOp::Resize(_) => "resize",
        }
    }
}

/// The reason the first failing check of [`ResizeRequest::validate`]
/// reports, or `None` when the request is valid.
pub open spec fn resize_error(r: ResizeRequest) -> Option<Seq<char>> {
    if r.cpu_millis is None && r.memory_mib is None && r.disk_mib is None {
        Some("resize requests carry at least one new capacity"@)
    } else if out_of_range(widen(r.cpu_millis), CPU_MILLIS_MAX as u64) {
        Some("resize cpuMillis must be 1..=1000000"@)
    } else if out_of_range(widen(r.memory_mib), MEMORY_MIB_MAX as u64) {
        Some("resize memoryMiB must be 1..=1048576"@)
    } else if out_of_range(r.disk_mib, DISK_MIB_MAX) {
        Some("resize diskMiB must be 1..=1048576"@)
    } else {
        None
    }
}

fn invalid(reason: &str) -> (e: ResourceProviderError)
    ensures
        e matches ResourceProviderError::InvalidSpec { reason: r } && r@ == reason@,
{
    ResourceProviderError::InvalidSpec { reason: String::from_str(reason) }
}

fn out_of(o: Option<u64>, max: u64) -> (r: bool)
    ensures
        r == out_of_range(o, max),
{
    match o {
        Some(v) => v == 0 || v > max,
        None => false,
    }
}

fn widened(o: Option<u32>) -> (r: Option<u64>)
    ensures
        r == widen(o),
{
    match o {
        Some(v) => Some(v as u64),
        None => None,
    }
}

impl ResizeRequest {
    /// Validates the request's bounds.
    pub fn validate(self) -> (r: Result<(), ResourceProviderError>)
        ensures
            r is Ok <==> resize_error(self) is None,
            r matches Err(e) ==> {
                &&& e matches ResourceProviderError::InvalidSpec { reason }
                &&& resize_error(self) == Some(reason@)
            },
    {
        if self.cpu_millis.is_none() && self.memory_mib.is_none() && self.disk_mib.is_none() {
            return Err(invalid("resize requests carry at least one new capacity"));
        }
        if out_of(widened(self.cpu_millis), CPU_MILLIS_MAX as u64) {
            return Err(invalid("resize cpuMillis must be 1..=1000000"));
        }
        if out_of(widened(self.memory_mib), MEMORY_MIB_MAX as u64) {
            return Err(invalid("resize memoryMiB must be 1..=1048576"));
        }
        if out_of(self.disk_mib, DISK_MIB_MAX) {
            return Err(invalid("resize diskMiB must be 1..=1048576"));
        }
        Ok(())
    }
}

/// The outcome of one dispatched lifecycle operation.
#[derive(Clone, Debug, PartialEq, Eq)]
pub enum LifecycleOutcome {
    /// The operation produced an updated or newly minted handle.
    Transitioned(ResourceHandle),
    /// The operation captured a snapshot artifact.
    Snapshotted(ResourceSnapshot),
}

impl LifecycleOutcome {
    /// The handle this outcome carries, when it is a transition.
    pub fn handle(&self) -> (r: Option<&ResourceHandle>)
        ensures
            match self {
                LifecycleOutcome::Transitioned(h) => r == Some(h),
                LifecycleOutcome::Snapshotted(_) => r is None,
            },
    {
        match self {
            LifecycleOutcome::Transitioned(handle) => Some(handle),
            LifecycleOutcome::Snapshotted(_) => None,
        }
    }
}

/// The lifecycle a list of capabilities declares for `class`: that of the
/// first capability for the class, if any.
pub open spec fn declared_lifecycle(caps: Seq<ResourceCapability>, class: ResourceClass) -> Option<ResourceLifecycleSupport>
    decreases caps.len(),
{
    if caps.len() == 0 {
        None
    } else if caps[0].class == class {
        Some(caps[0].lifecycle)
    } else {
        declared_lifecycle(caps.drop_first(), class)
    }
}

/// The capabilities serve the spec's class and declare every feature the
/// spec asks for (network policy input, GPUs).
pub open spec fn declares_features(caps: Seq<ResourceCapability>, spec: ResourceSpec) -> bool {
    match declared_lifecycle(caps, spec.class) {
        None => false,
        Some(l) => (l.network_policy || spec.network is None) && (l.gpu || spec.gpu is None),
    }
}

/// The operation is a resize whose request is itself invalid.
pub open spec fn invalid_resize(op: LifecycleOp) -> bool {
    op matches LifecycleOp::Resize(req) && resize_error(req) is Some
}

/// One answer a provider gave to a state-changing call.
pub enum ProviderAnswer {
    /// The answer to `create`.
    Created(Result<ResourceHandle, ResourceProviderError>),
    /// The answer to `release`.
    Released(Result<ResourceHandle, ResourceProviderError>),
    /// The answer to `lifecycle`.
    Dispatched(Result<LifecycleOutcome, ResourceProviderError>),
}

/// The resource-provider port: what every execution resource provider
/// (a sandbox cloud, local containers, a host-supplied implementation)
/// offers the host, whatever infrastructure stands behind it.
///
/// The contracts state the provider-neutral obligations: the descriptor
/// is fixed; undeclared features and undeclared operations are refused
/// explicitly; every provisioning mints an id the provider never knew;
/// foreign and unknown handles are lost; releases settle `Released` and
/// stay queryable; known resources are never forgotten; and every
/// evidence record is located by the provider and its position and
/// digested from its payload. Each state-changing call also adds its
/// answer to a ghost record of answers, so that what a client decided
/// from them can be stated as a function of the answers given.
pub trait ExecutionResourceProvider: Sized {
    /// The provider's internal invariant.
    spec fn inv(&self) -> bool;

    /// How many more state-changing operations the provider can take
    /// before a counter of its own would overflow.
    spec fn headroom(&self) -> nat;

    /// The registration declaration.
    spec fn declaration(&self) -> ProviderDescriptor;

    /// The status of a resource the provider knows, by id.
    spec fn resource_status(&self, id: Seq<char>) -> Option<ResourceStatus>;

    /// The class of a resource the provider knows, by id.
    spec fn resource_class(&self, id: Seq<char>) -> ResourceClass;

    /// The evidence the provider has recorded so far, oldest first, as
    /// (locator, digest, kind, payload).
    spec fn evidence(&self) -> Seq<(Seq<char>, Seq<char>, EvidenceKind, Seq<u8>)>;

    /// Every answer the provider has given to a state-changing call
    /// (`create`, `release`, `lifecycle`), oldest first.
    spec fn answers(&self) -> Seq<ProviderAnswer>;

    /// Whether a probe now finds the provider reachable and healthy or
    /// degraded.
    spec fn healthy(&self) -> bool;

    /// Whether the provider can take one more state-changing operation
    /// (`create`, `release`, `lifecycle`) without a counter overflowing.
    fn has_headroom(&self) -> (r: bool)
        requires
            self.inv(),
        ensures
            r == (self.headroom() > 0),
    ;

    /// The provider's registration declaration.
    fn descriptor(&self) -> (r: &ProviderDescriptor)
        requires
            self.inv(),
        ensures
            *r == self.declaration(),
    ;

    /// Probes the provider's live health; an unreachable provider answers
    /// `Unreachable`.
    fn probe(&self) -> (r: Result<ProviderHealth, ResourceProviderError>)
        requires
            self.inv(),
        ensures
            r matches Err(e) ==> e is Unreachable,
            (r matches Ok(h) && (h.status is Healthy || h.status is Degraded)) <==> self.healthy(),
    ;

    /// Provisions one resource from a spec. A spec that is invalid, of an
    /// unserved class, or asks for an undeclared feature is refused; a
    /// success names an active resource of the spec's class under an id
    /// the provider never knew. Known resources keep their status, and a
    /// refusal changes no status at all.
    fn create(&mut self, spec: ResourceSpec) -> (r: Result<ResourceHandle, ResourceProviderError>)
        requires
            old(self).inv(),
            old(self).headroom() > 0,
            spec.labels.wf(),
        ensures
            final(self).inv(),
            final(self).declaration() == old(self).declaration(),
            final(self).headroom() + 1 >= old(self).headroom(),
            final(self).answers() == old(self).answers().push(ProviderAnswer::Created(r)),
            forall|k: Seq<char>| #[trigger] old(self).resource_status(k) is Some ==> {
                &&& final(self).resource_status(k) == old(self).resource_status(k)
                &&& final(self).resource_class(k) == old(self).resource_class(k)
            },
            r is Err ==> forall|k: Seq<char>| #[trigger] final(self).resource_status(k) == old(self).resource_status(k),
            r is Ok ==> spec_error(spec) is None && declares_features(old(self).declaration().capabilities@, spec),
            r matches Ok(h) ==> {
                &&& h.status is Active
                &&& h.class == spec.class
                &&& h.provider.spec_str() == old(self).declaration().provider.spec_str()
                &&& old(self).resource_status(h.resource@) is None
                &&& final(self).resource_status(h.resource@) == Some(ResourceStatus::Active)
                &&& final(self).resource_class(h.resource@) == spec.class
            },
    ;

    /// The status of the resource a handle names; foreign or unknown
    /// handles are lost.
    fn status(&self, handle: &ResourceHandle) -> (r: Result<ResourceStatus, ResourceProviderError>)
        requires
            self.inv(),
        ensures
            (handle.provider.spec_str() == self.declaration().provider.spec_str() && self.resource_status(handle.resource@) is Some)
                ==> r == Ok::<ResourceStatus, ResourceProviderError>(self.resource_status(handle.resource@).unwrap()),
            !(handle.provider.spec_str() == self.declaration().provider.spec_str() && self.resource_status(handle.resource@) is Some)
                ==> (r matches Err(ResourceProviderError::ResourceLost { provider, resource })
                && provider.spec_str() == self.declaration().provider.spec_str() && resource@ == handle.resource@),
    ;

    /// Releases the resource a handle names: it settles `Released` and
    /// stays known; foreign or unknown handles are lost, and a refusal
    /// changes no status.
    fn release(&mut self, handle: &ResourceHandle) -> (r: Result<ResourceHandle, ResourceProviderError>)
        requires
            old(self).inv(),
            old(self).headroom() > 0,
        ensures
            final(self).inv(),
            final(self).declaration() == old(self).declaration(),
            final(self).headroom() + 1 >= old(self).headroom(),
            final(self).answers() == old(self).answers().push(ProviderAnswer::Released(r)),
            forall|k: Seq<char>| #[trigger] old(self).resource_status(k) is Some ==> {
                &&& final(self).resource_status(k) is Some
                &&& final(self).resource_class(k) == old(self).resource_class(k)
                &&& k != handle.resource@ ==> final(self).resource_status(k) == old(self).resource_status(k)
            },
            r is Err ==> forall|k: Seq<char>| #[trigger] final(self).resource_status(k) == old(self).resource_status(k),
            !(handle.provider.spec_str() == old(self).declaration().provider.spec_str()
                && old(self).resource_status(handle.resource@) is Some) ==> (r matches Err(
                ResourceProviderError::ResourceLost { provider, resource },
            ) && provider.spec_str() == old(self).declaration().provider.spec_str() && resource@ == handle.resource@),
            (handle.provider.spec_str() == old(self).declaration().provider.spec_str()
                && old(self).resource_status(handle.resource@) is Some) ==> {
                &&& r matches Ok(h)
                &&& h.status is Released
                &&& h.resource@ == handle.resource@
                &&& h.class == old(self).resource_class(handle.resource@)
                &&& h.provider.spec_str() == old(self).declaration().provider.spec_str()
                &&& final(self).resource_status(handle.resource@) == Some(ResourceStatus::Released)
            },
    ;

    /// Dispatches one lifecycle operation on the resource a handle names.
    /// An invalid resize request is refused; a foreign or unknown handle
    /// is lost; an operation the provider does not declare for the
    /// resource's class is `Unsupported`, naming the provider and the
    /// operation; every operation but `Create` needs a live resource.
    /// `Create` and `Fork` mint an active resource under an id the
    /// provider never knew; `Pause`, `Resume` and `Resize` transition the
    /// resource itself; `Snapshot` captures it.
    fn lifecycle(&mut self, handle: &ResourceHandle, op: LifecycleOp) -> (r: Result<LifecycleOutcome, ResourceProviderError>)
        requires
            old(self).inv(),
            old(self).headroom() > 0,
        ensures
            final(self).inv(),
            final(self).declaration() == old(self).declaration(),
            final(self).headroom() + 1 >= old(self).headroom(),
            final(self).answers() == old(self).answers().push(ProviderAnswer::Dispatched(r)),
            forall|k: Seq<char>| #[trigger] old(self).resource_status(k) is Some ==> {
                &&& final(self).resource_status(k) is Some
                &&& final(self).resource_class(k) == old(self).resource_class(k)
                &&& k != handle.resource@ ==> final(self).resource_status(k) == old(self).resource_status(k)
            },
            r is Err ==> forall|k: Seq<char>| #[trigger] final(self).resource_status(k) == old(self).resource_status(k),
            invalid_resize(op) ==> r matches Err(ResourceProviderError::InvalidSpec { .. }),
            !invalid_resize(op) && !(handle.provider.spec_str() == old(self).declaration().provider.spec_str()
                && old(self).resource_status(handle.resource@) is Some) ==> (r matches Err(
                ResourceProviderError::ResourceLost { provider, resource },
            ) && provider.spec_str() == old(self).declaration().provider.spec_str() && resource@ == handle.resource@),
            !invalid_resize(op) && handle.provider.spec_str() == old(self).declaration().provider.spec_str()
                && old(self).resource_status(handle.resource@) is Some
                && handle.class == old(self).resource_class(handle.resource@)
                && declared_lifecycle(old(self).declaration().capabilities@, handle.class) is Some
                && !supports_op(declared_lifecycle(old(self).declaration().capabilities@, handle.class).unwrap(), op) ==> (r matches Err(ResourceProviderError::Unsupported { provider, operation })
                && provider.spec_str() == old(self).declaration().provider.spec_str() && operation == op),
            r is Ok ==> handle.provider.spec_str() == old(self).declaration().provider.spec_str()
                && (op is Create || status_bindable(old(self).resource_status(handle.resource@).unwrap())),
            r matches Ok(LifecycleOutcome::Transitioned(h)) ==> {
                &&& h.provider.spec_str() == old(self).declaration().provider.spec_str()
                &&& (op is Create || op is Fork) ==> {
                    &&& h.status is Active
                    &&& h.class == old(self).resource_class(handle.resource@)
                    &&& old(self).resource_status(h.resource@) is None
                    &&& final(self).resource_status(h.resource@) == Some(ResourceStatus::Active)
                    &&& final(self).resource_status(handle.resource@) == old(self).resource_status(handle.resource@)
                }
                &&& op is Pause ==> h.resource@ == handle.resource@ && h.status is Paused
                    && final(self).resource_status(handle.resource@) == Some(ResourceStatus::Paused)
                &&& (op is Resume || op is Resize) ==> h.resource@ == handle.resource@ && h.status is Active
                    && final(self).resource_status(handle.resource@) == Some(ResourceStatus::Active)
                &&& !(op is Snapshot)
            },
            r matches Ok(LifecycleOutcome::Snapshotted(snap)) ==> {
                &&& op is Snapshot
                &&& snap.resource@ == handle.resource@
                &&& final(self).resource_status(handle.resource@) == old(self).resource_status(handle.resource@)
            },
    ;

    /// The evidence records so far, oldest first: each located by the
    /// provider and its position, and digested from its payload.
    fn evidence_records(&self) -> (r: Vec<ResourceEvidenceRecord>)
        requires
            self.inv(),
        ensures
            r@.map_values(|x: ResourceEvidenceRecord| record_view(x)) == self.evidence(),
            evidence_identified(self.declaration().provider.spec_str(), self.evidence()),
    ;
}

} // verus!
