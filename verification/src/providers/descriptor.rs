//! Provider capability declarations: which resource classes a provider
//! serves, which lifecycle operations, capacity ceilings, declared health,
//! regions and cost. Declaration is discovery data only: capability does
//! not imply authorization.

use vstd::prelude::*;
use crate::text::{has_control, is_ascii_digit, is_ascii_lowercase, byte_len, str_byte_len, str_has_control, strs_equal, chars_of};
use crate::providers::error::ResourceProviderError;
use crate::providers::model::{CPU_MILLIS_MAX, DISK_MIB_MAX, MEMORY_MIB_MAX, ProviderId, ResourceClass, class_name};
use crate::providers::provider::LifecycleOp;

verus! {

/// Maximum regions declared by one provider.
pub const PROVIDER_REGIONS_MAX: usize = 8;
/// Maximum length of a region token, in bytes.
pub const PROVIDER_REGION_MAX_BYTES: usize = 32;
/// Maximum length of a health detail message, in bytes.
pub const PROVIDER_HEALTH_DETAIL_MAX_BYTES: usize = 256;
/// Maximum length of a cost currency token, in bytes.
pub const COST_CURRENCY_MAX_BYTES: usize = 16;

/// Which lifecycle operations and request features a provider supports
/// for one resource class. Undeclared operations stay unsupported.
#[derive(Clone, Copy, Debug, PartialEq, Eq, Structural, Hash)]
pub struct ResourceLifecycleSupport {
    /// The provider can provision fresh resources of the class.
    pub create: bool,
    /// The provider can pause and resume resources of the class.
    pub pause_resume: bool,
    /// The provider can capture snapshot artifacts.
    pub snapshot: bool,
    /// The provider can fork a resource's state into a new resource.
    pub fork: bool,
    /// The provider can resize a live resource.
    pub resize: bool,
    /// The provider honors network policy inputs in specs.
    pub network_policy: bool,
    /// The provider can serve GPU-bearing specs.
    pub gpu: bool,
}

/// Whether a declaration supports an operation.
pub open spec fn supports_op(s: ResourceLifecycleSupport, op: LifecycleOp) -> bool {
    match op {
        LifecycleOp::Create => s.create,
        LifecycleOp::Pause => s.pause_resume,
        LifecycleOp::Resume => s.pause_resume,
        LifecycleOp::Snapshot => s.snapshot,
        LifecycleOp::Fork => s.fork,
        LifecycleOp::Resize(_) => s.resize,
    }
}

impl ResourceLifecycleSupport {
    /// A declaration with every flag off.
    pub fn none() -> (r: Self)
        ensures
            !r.create && !r.pause_resume && !r.snapshot && !r.fork && !r.resize && !r.network_policy && !r.gpu,
    {
        ResourceLifecycleSupport {
            create: false,
            pause_resume: false,
            snapshot: false,
            fork: false,
            resize: false,
            network_policy: false,
            gpu: false,
        }
    }

    /// Declares create support.
    pub fn with_create(self) -> (r: Self)
        ensures
            r == (ResourceLifecycleSupport { create: true, ..self }),
    {
        ResourceLifecycleSupport { create: true, ..self }
    }

    /// Declares pause/resume support.
    pub fn with_pause_resume(self) -> (r: Self)
        ensures
            r == (ResourceLifecycleSupport { pause_resume: true, ..self }),
    {
        ResourceLifecycleSupport { pause_resume: true, ..self }
    }

    /// Declares snapshot support.
    pub fn with_snapshot(self) -> (r: Self)
        ensures
            r == (ResourceLifecycleSupport { snapshot: true, ..self }),
    {
        ResourceLifecycleSupport { snapshot: true, ..self }
    }

    /// Declares fork support.
    pub fn with_fork(self) -> (r: Self)
        ensures
            r == (ResourceLifecycleSupport { fork: true, ..self }),
    {
        ResourceLifecycleSupport { fork: true, ..self }
    }

    /// Declares resize support.
    pub fn with_resize(self) -> (r: Self)
        ensures
            r == (ResourceLifecycleSupport { resize: true, ..self }),
    {
        ResourceLifecycleSupport { resize: true, ..self }
    }

    /// Declares network-policy support.
    pub fn with_network_policy(self) -> (r: Self)
        ensures
            r == (ResourceLifecycleSupport { network_policy: true, ..self }),
    {
        ResourceLifecycleSupport { network_policy: true, ..self }
    }

    /// Declares GPU support.
    pub fn with_gpu(self) -> (r: Self)
        ensures
            r == (ResourceLifecycleSupport { gpu: true, ..self }),
    {
        ResourceLifecycleSupport { gpu: true, ..self }
    }

    /// Whether this declaration supports the lifecycle `op`.
    pub fn supports(self, op: &LifecycleOp) -> (r: bool)
        ensures
            r == supports_op(self, *op),
    {
        match op {
            LifecycleOp::Create => self.create,
            LifecycleOp::Pause => self.pause_resume,
            LifecycleOp::Resume => self.pause_resume,
            LifecycleOp::Snapshot => self.snapshot,
            LifecycleOp::Fork => self.fork,
            LifecycleOp::Resize(_) => self.resize,
        }
    }
}

/// The capacity ceiling one provider declares for one resource class.
#[derive(Clone, Copy, Debug, PartialEq, Eq, Structural, Hash)]
pub struct ResourceQuota {
    /// Maximum CPU allocation in milli-CPU.
    pub max_cpu_millis: u32,
    /// Maximum memory allocation in MiB.
    pub max_memory_mib: u32,
    /// Maximum disk allocation in MiB.
    pub max_disk_mib: u64,
}

/// Why a quota is rejected, if it is: every ceiling must be non-zero and
/// within the provider-plane request bounds.
pub open spec fn quota_error(q: ResourceQuota) -> Option<Seq<char>> {
    if q.max_cpu_millis == 0 || q.max_cpu_millis > CPU_MILLIS_MAX {
        Some("quota maxCpuMillis must be 1..=1000000"@)
    } else if q.max_memory_mib == 0 || q.max_memory_mib > MEMORY_MIB_MAX {
        Some("quota maxMemoryMiB must be 1..=1048576"@)
    } else if q.max_disk_mib == 0 || q.max_disk_mib > DISK_MIB_MAX {
        Some("quota maxDiskMiB must be 1..=1048576"@)
    } else {
        None
    }
}

fn invalid(reason: &str) -> (e: ResourceProviderError)
    ensures
        e matches ResourceProviderError::InvalidSpec { reason: r } && r@ == reason@,
{
    ResourceProviderError::InvalidSpec { reason: String::from_str(reason) }
}

impl ResourceQuota {
    /// Validates the quota's bounds, so a declared ceiling can always be
    /// requested.
    pub fn validate(self) -> (r: Result<(), ResourceProviderError>)
        ensures
            r is Ok <==> quota_error(self) is None,
            r matches Err(e) ==> {
                &&& e matches ResourceProviderError::InvalidSpec { reason }
                &&& quota_error(self) == Some(reason@)
            },
    {
        if self.max_cpu_millis == 0 || self.max_cpu_millis > CPU_MILLIS_MAX {
            return Err(invalid("quota maxCpuMillis must be 1..=1000000"));
        }
        if self.max_memory_mib == 0 || self.max_memory_mib > MEMORY_MIB_MAX {
            return Err(invalid("quota maxMemoryMiB must be 1..=1048576"));
        }
        if self.max_disk_mib == 0 || self.max_disk_mib > DISK_MIB_MAX {
            return Err(invalid("quota maxDiskMiB must be 1..=1048576"));
        }
        Ok(())
    }
}

/// One resource class a provider serves, with its declared lifecycle
/// support and capacity ceiling.
#[derive(Clone, Copy, Debug, PartialEq, Eq, Structural, Hash)]
pub struct ResourceCapability {
    /// The resource class being served.
    pub class: ResourceClass,
    /// The lifecycle operations and features declared for the class.
    pub lifecycle: ResourceLifecycleSupport,
    /// The capacity ceiling declared for the class.
    pub capacity: ResourceQuota,
}

impl ResourceCapability {
    /// Validates the capability record: its quota.
    pub fn validate(&self) -> (r: Result<(), ResourceProviderError>)
        ensures
            r is Ok <==> quota_error(self.capacity) is None,
            r matches Err(e) ==> {
                &&& e matches ResourceProviderError::InvalidSpec { reason }
                &&& quota_error(self.capacity) == Some(reason@)
            },
    {
        self.capacity.validate()
    }
}

/// The health status a provider reports.
#[derive(Clone, Copy, Debug, PartialEq, Eq, Structural, Hash)]
pub enum ProviderHealthStatus {
    /// Serving requests.
    Healthy,
    /// Serving with degraded capacity or latency.
    Degraded,
    /// Cannot serve requests right now.
    Unreachable,
}

/// The canonical wire name of a health status.
pub open spec fn health_status_name(s: ProviderHealthStatus) -> Seq<char> {
    match s {
        ProviderHealthStatus::Healthy => "healthy"@,
        ProviderHealthStatus::Degraded => "degraded"@,
        ProviderHealthStatus::Unreachable => "unreachable"@,
    }
}

/// The health status whose wire name is `s`, if any.
pub open spec fn health_status_of_name(s: Seq<char>) -> Option<ProviderHealthStatus> {
    if s == "healthy"@ {
        Some(ProviderHealthStatus::Healthy)
    } else if s == "degraded"@ {
        Some(ProviderHealthStatus::Degraded)
    } else if s == "unreachable"@ {
        Some(ProviderHealthStatus::Unreachable)
    } else {
        None
    }
}

impl ProviderHealthStatus {
    /// Every health status defined by the provider plane.
    pub const ALL: [ProviderHealthStatus; 3] = [
        ProviderHealthStatus::Healthy,
        ProviderHealthStatus::Degraded,
        ProviderHealthStatus::Unreachable,
    ];

    /// The canonical wire name.
    pub fn as_str(self) -> (r: &'static str)
        ensures
            r@ == health_status_name(self),
    {
        match self {
            ProviderHealthStatus::Healthy => "healthy",
            ProviderHealthStatus::Degraded => "degraded",
            ProviderHealthStatus::Unreachable => "unreachable",
        }
    }

    /// Parses a wire name into a health status.
    pub fn parse(value: &str) -> (r: Result<Self, ResourceProviderError>)
        ensures
            health_status_of_name(value@) matches Some(s) ==> r == Ok::<Self, ResourceProviderError>(s),
            health_status_of_name(value@) is None ==> {
                &&& r matches Err(ResourceProviderError::InvalidSpec { reason })
                &&& reason@ == "unknown provider health status `"@ + value@ + "`"@
            },
    {
        if strs_equal(value, "healthy") {
            Ok(ProviderHealthStatus::Healthy)
        } else if strs_equal(value, "degraded") {
            Ok(ProviderHealthStatus::Degraded)
        } else if strs_equal(value, "unreachable") {
            Ok(ProviderHealthStatus::Unreachable)
        } else {
            let mut reason = String::from_str("unknown provider health status `");
            reason.append(value);
            reason.append("`");
            Err(ResourceProviderError::InvalidSpec { reason })
        }
    }
}

/// Every health status's wire name parses back to that status.
pub proof fn lemma_health_status_name_roundtrip(s: ProviderHealthStatus)
    ensures
        health_status_of_name(health_status_name(s)) == Some(s),
{
    reveal_strlit("healthy");
    reveal_strlit("degraded");
    reveal_strlit("unreachable");
    assert("healthy"@[0] == 'h');
    assert("degraded"@[0] == 'd');
    assert("unreachable"@[0] == 'u');
}

/// A provider health answer: a probe result, never an authorization.
#[derive(Clone, Debug, PartialEq, Eq)]
pub struct ProviderHealth {
    /// The reported health status.
    pub status: ProviderHealthStatus,
    /// Bounded human-facing detail, when the provider has any.
    pub detail: Option<String>,
    /// Round-trip probe latency hint in milliseconds, when measured.
    pub latency_ms: Option<u64>,
}

/// Why a health record is rejected, if it is.
pub open spec fn health_error(h: ProviderHealth) -> Option<Seq<char>> {
    match h.detail {
        Some(d) => if d@.len() == 0 || byte_len(d@) > PROVIDER_HEALTH_DETAIL_MAX_BYTES {
            Some("health details must be 1..=256 bytes"@)
        } else {
            None
        },
        None => None,
    }
}

impl ProviderHealth {
    /// A healthy answer with no detail.
    pub fn healthy() -> (r: Self)
        ensures
            r.status is Healthy,
            r.detail is None,
            r.latency_ms is None,
    {
        ProviderHealth { status: ProviderHealthStatus::Healthy, detail: None, latency_ms: None }
    }

    /// Validates the health record's bounds.
    pub fn validate(&self) -> (r: Result<(), ResourceProviderError>)
        ensures
            r is Ok <==> health_error(*self) is None,
            r matches Err(e) ==> {
                &&& e matches ResourceProviderError::InvalidSpec { reason }
                &&& health_error(*self) == Some(reason@)
            },
    {
        match &self.detail {
            Some(d) => {
                if d.as_str().is_empty() || str_byte_len(d.as_str()) > PROVIDER_HEALTH_DETAIL_MAX_BYTES {
                    return Err(invalid("health details must be 1..=256 bytes"));
                }
            },
            None => {},
        }
        Ok(())
    }
}

/// Cost metadata a provider declares for its resources.
#[derive(Clone, Debug, PartialEq, Eq)]
pub struct CostMetadata {
    /// The cost currency (for example `usd`).
    pub currency: String,
    /// The cost per resource-hour in millionths of the currency unit.
    pub per_hour_micros: u64,
}

/// Why a cost record is rejected, if it is: the currency must be 1 to 16
/// bytes of lowercase ASCII letters and digits.
pub open spec fn cost_error(c: CostMetadata) -> Option<Seq<char>> {
    let cur = c.currency@;
    if cur.len() == 0 || byte_len(cur) > COST_CURRENCY_MAX_BYTES
        || (exists|i: int| 0 <= i < cur.len() && !is_ascii_lowercase(#[trigger] cur[i]) && !is_ascii_digit(cur[i])) {
        Some("cost currency must be lowercase ASCII, at most 16 bytes"@)
    } else {
        None
    }
}

impl CostMetadata {
    /// Validates the cost record's bounds.
    pub fn validate(&self) -> (r: Result<(), ResourceProviderError>)
        ensures
            r is Ok <==> cost_error(*self) is None,
            r matches Err(e) ==> {
                &&& e matches ResourceProviderError::InvalidSpec { reason }
                &&& cost_error(*self) == Some(reason@)
            },
    {
        let cur = self.currency.as_str();
        let cs = chars_of(cur);
        let mut bad = false;
        let mut i: usize = 0;
        while i < cs.len()
            invariant
                cs@ == cur@,
                i <= cs@.len(),
                bad == (exists|t: int| 0 <= t < i && !is_ascii_lowercase(#[trigger] cs@[t]) && !is_ascii_digit(cs@[t])),
            decreases cs@.len() - i,
        {
            let c = cs[i];
            if !('a' <= c && c <= 'z') && !('0' <= c && c <= '9') {
                bad = true;
            }
            i += 1;
        }
        if cur.is_empty() || str_byte_len(cur) > COST_CURRENCY_MAX_BYTES || bad {
            return Err(invalid("cost currency must be lowercase ASCII, at most 16 bytes"));
        }
        Ok(())
    }
}

/// The registration descriptor of one resource provider.
#[derive(Clone, Debug, PartialEq, Eq)]
pub struct ProviderDescriptor {
    /// The provider's identity.
    pub provider: ProviderId,
    /// The resource classes the provider serves, one capability each.
    pub capabilities: Vec<ResourceCapability>,
    /// The provider's declared baseline health.
    pub health: ProviderHealth,
    /// The regions the provider serves.
    pub regions: Vec<String>,
    /// Cost metadata, when the provider charges for resources.
    pub cost: Option<CostMetadata>,
}

/// Why the capability at position `i` is rejected, if it is.
pub open spec fn capability_error(provider: Seq<char>, caps: Seq<ResourceCapability>, i: int) -> Option<Seq<char>> {
    if quota_error(caps[i].capacity) is Some {
        quota_error(caps[i].capacity)
    } else if exists|j: int| 0 <= j < i && caps[j].class == caps[i].class {
        Some("provider `"@ + provider + "` declares class `"@ + class_name(caps[i].class) + "` twice"@)
    } else {
        None
    }
}

/// The first capability error among the first `k` capabilities.
pub open spec fn capabilities_error(provider: Seq<char>, caps: Seq<ResourceCapability>, k: int) -> Option<Seq<char>>
    decreases k,
{
    if k <= 0 {
        None
    } else {
        match capabilities_error(provider, caps, k - 1) {
            Some(e) => Some(e),
            None => capability_error(provider, caps, k - 1),
        }
    }
}

/// Why the region at position `i` is rejected, if it is.
pub open spec fn region_error(regions: Seq<String>, i: int) -> Option<Seq<char>> {
    let r = regions[i]@;
    if r.len() == 0 || byte_len(r) > PROVIDER_REGION_MAX_BYTES || has_control(r) {
        Some("regions must be 1..=32 bytes without control characters"@)
    } else if exists|j: int| 0 <= j < i && regions[j]@ == r {
        Some("region `"@ + r + "` is declared twice"@)
    } else {
        None
    }
}

/// The first region error among the first `k` regions.
pub open spec fn regions_error(regions: Seq<String>, k: int) -> Option<Seq<char>>
    decreases k,
{
    if k <= 0 {
        None
    } else {
        match regions_error(regions, k - 1) {
            Some(e) => Some(e),
            None => region_error(regions, k - 1),
        }
    }
}

/// The reason the first failing check of [`ProviderDescriptor::validate`]
/// reports, or `None` when the descriptor is valid.
pub open spec fn descriptor_error(d: ProviderDescriptor) -> Option<Seq<char>> {
    let caps = d.capabilities@;
    if caps.len() == 0 {
        Some("provider descriptors declare at least one capability"@)
    } else if capabilities_error(d.provider.spec_str(), caps, caps.len() as int) is Some {
        capabilities_error(d.provider.spec_str(), caps, caps.len() as int)
    } else if health_error(d.health) is Some {
        health_error(d.health)
    } else if d.regions@.len() == 0 || d.regions@.len() > PROVIDER_REGIONS_MAX {
        Some("providers declare 1..=8 regions"@)
    } else if regions_error(d.regions@, d.regions@.len() as int) is Some {
        regions_error(d.regions@, d.regions@.len() as int)
    } else {
        match d.cost {
            Some(c) => cost_error(c),
            None => None,
        }
    }
}

proof fn lemma_capabilities_error_none(provider: Seq<char>, caps: Seq<ResourceCapability>, k: int)
    requires
        0 <= k,
    ensures
        capabilities_error(provider, caps, k) is None <==> forall|i: int| 0 <= i < k ==> #[trigger] capability_error(provider, caps, i) is None,
    decreases k,
{
    if k > 0 {
        lemma_capabilities_error_none(provider, caps, k - 1);
    }
}

proof fn lemma_regions_error_none(regions: Seq<String>, k: int)
    requires
        0 <= k,
    ensures
        regions_error(regions, k) is None <==> forall|i: int| 0 <= i < k ==> #[trigger] region_error(regions, i) is None,
    decreases k,
{
    if k > 0 {
        lemma_regions_error_none(regions, k - 1);
    }
}

/// Every rule a provider descriptor must meet, each on its own: at least
/// one capability, each with a valid quota and no class declared twice; a
/// valid health; 1..=8 regions, each of 1..=32 bytes without control
/// characters and none twice; and valid cost metadata when there is any.
pub open spec fn descriptor_rules_hold(d: ProviderDescriptor) -> bool {
    let caps = d.capabilities@;
    let regions = d.regions@;
    &&& caps.len() > 0
    &&& forall|i: int| 0 <= i < caps.len() ==> quota_error((#[trigger] caps[i]).capacity) is None
    &&& forall|i: int, j: int| 0 <= j < i < caps.len() ==> (#[trigger] caps[j]).class != (#[trigger] caps[i]).class
    &&& health_error(d.health) is None
    &&& 1 <= regions.len() <= PROVIDER_REGIONS_MAX
    &&& forall|i: int| 0 <= i < regions.len() ==> {
        &&& (#[trigger] regions[i])@.len() > 0
        &&& byte_len(regions[i]@) <= PROVIDER_REGION_MAX_BYTES
        &&& !has_control(regions[i]@)
    }
    &&& forall|i: int, j: int| 0 <= j < i < regions.len() ==> (#[trigger] regions[j])@ != (#[trigger] regions[i])@
    &&& d.cost matches Some(c) ==> cost_error(c) is None
}

/// A descriptor validates exactly when it meets every rule; the order of
/// the checks only decides which reason a refusal names.
pub proof fn lemma_descriptor_valid_iff_rules(d: ProviderDescriptor)
    ensures
        descriptor_error(d) is None <==> descriptor_rules_hold(d),
{
    let caps = d.capabilities@;
    let regions = d.regions@;
    let p = d.provider.spec_str();
    lemma_capabilities_error_none(p, caps, caps.len() as int);
    lemma_regions_error_none(regions, regions.len() as int);
    let caps_ok = {
        &&& forall|i: int| 0 <= i < caps.len() ==> quota_error((#[trigger] caps[i]).capacity) is None
        &&& forall|i: int, j: int| 0 <= j < i < caps.len() ==> (#[trigger] caps[j]).class != (#[trigger] caps[i]).class
    };
    assert(capabilities_error(p, caps, caps.len() as int) is None <==> caps_ok) by {
        if capabilities_error(p, caps, caps.len() as int) is None {
            assert forall|i: int| 0 <= i < caps.len() implies quota_error((#[trigger] caps[i]).capacity) is None by {
                assert(capability_error(p, caps, i) is None);
            }
            assert forall|i: int, j: int| 0 <= j < i < caps.len() implies (#[trigger] caps[j]).class != (#[trigger] caps[i]).class by {
                assert(capability_error(p, caps, i) is None);
            }
        }
        if caps_ok {
            assert forall|i: int| 0 <= i < caps.len() implies #[trigger] capability_error(p, caps, i) is None by {
                assert(quota_error(caps[i].capacity) is None);
                if exists|j: int| 0 <= j < i && caps[j].class == caps[i].class {
                    let j = choose|j: int| 0 <= j < i && caps[j].class == caps[i].class;
                    assert(caps[j].class != caps[i].class);
                }
            }
        }
    }
    let regions_ok = {
        &&& forall|i: int| 0 <= i < regions.len() ==> {
            &&& (#[trigger] regions[i])@.len() > 0
            &&& byte_len(regions[i]@) <= PROVIDER_REGION_MAX_BYTES
            &&& !has_control(regions[i]@)
        }
        &&& forall|i: int, j: int| 0 <= j < i < regions.len() ==> (#[trigger] regions[j])@ != (#[trigger] regions[i])@
    };
    assert(regions_error(regions, regions.len() as int) is None <==> regions_ok) by {
        if regions_error(regions, regions.len() as int) is None {
            assert forall|i: int| 0 <= i < regions.len() implies {
                &&& (#[trigger] regions[i])@.len() > 0
                &&& byte_len(regions[i]@) <= PROVIDER_REGION_MAX_BYTES
                &&& !has_control(regions[i]@)
            } by {
                assert(region_error(regions, i) is None);
            }
            assert forall|i: int, j: int| 0 <= j < i < regions.len() implies (#[trigger] regions[j])@ != (#[trigger] regions[i])@ by {
                assert(region_error(regions, i) is None);
            }
        }
        if regions_ok {
            assert forall|i: int| 0 <= i < regions.len() implies #[trigger] region_error(regions, i) is None by {
                assert(regions[i]@.len() > 0);
                if exists|j: int| 0 <= j < i && regions[j]@ == regions[i]@ {
                    let j = choose|j: int| 0 <= j < i && regions[j]@ == regions[i]@;
                    assert(regions[j]@ != regions[i]@);
                }
            }
        }
    }
}

proof fn lemma_capabilities_error_stops(provider: Seq<char>, caps: Seq<ResourceCapability>, k: int, n: int)
    requires
        0 <= k <= n,
        capabilities_error(provider, caps, k) is Some,
    ensures
        capabilities_error(provider, caps, n) == capabilities_error(provider, caps, k),
    decreases n - k,
{
    if k < n {
        lemma_capabilities_error_stops(provider, caps, k, n - 1);
    }
}

proof fn lemma_regions_error_stops(regions: Seq<String>, k: int, n: int)
    requires
        0 <= k <= n,
        regions_error(regions, k) is Some,
    ensures
        regions_error(regions, n) == regions_error(regions, k),
    decreases n - k,
{
    if k < n {
        lemma_regions_error_stops(regions, k, n - 1);
    }
}

fn first_capability_error(provider: &ProviderId, caps: &Vec<ResourceCapability>) -> (r: Option<String>)
    ensures
        r matches Some(e) ==> capabilities_error(provider.spec_str(), caps@, caps@.len() as int) == Some(e@),
        r is None ==> capabilities_error(provider.spec_str(), caps@, caps@.len() as int) is None,
{
    let n = caps.len();
    let mut i: usize = 0;
    while i < n
        invariant
            n == caps@.len(),
            i <= n,
            capabilities_error(provider.spec_str(), caps@, i as int) is None,
        decreases n - i,
    {
        match caps[i].validate() {
            Err(ResourceProviderError::InvalidSpec { reason }) => {
                proof {
                    lemma_capabilities_error_stops(provider.spec_str(), caps@, i as int + 1, n as int);
                }
                return Some(reason);
            },
            Err(_) => {},
            Ok(()) => {},
        }
        let mut j: usize = 0;
        while j < i
            invariant
                n == caps@.len(),
                i < n,
                j <= i,
                quota_error(caps@[i as int].capacity) is None,
                capabilities_error(provider.spec_str(), caps@, i as int) is None,
                forall|t: int| 0 <= t < j ==> caps@[t].class != caps@[i as int].class,
            decreases i - j,
        {
            if caps[j].class == caps[i].class {
                let mut reason = String::from_str("provider `");
                reason.append(provider.as_str());
                reason.append("` declares class `");
                reason.append(caps[i].class.as_str());
                reason.append("` twice");
                proof {
                    assert(caps@[j as int].class == caps@[i as int].class);
                    lemma_capabilities_error_stops(provider.spec_str(), caps@, i as int + 1, n as int);
                }
                return Some(reason);
            }
            j += 1;
        }
        i += 1;
    }
    None
}

fn first_region_error(regions: &Vec<String>) -> (r: Option<String>)
    ensures
        r matches Some(e) ==> regions_error(regions@, regions@.len() as int) == Some(e@),
        r is None ==> regions_error(regions@, regions@.len() as int) is None,
{
    let n = regions.len();
    let mut i: usize = 0;
    while i < n
        invariant
            n == regions@.len(),
            i <= n,
            regions_error(regions@, i as int) is None,
        decreases n - i,
    {
        let region = regions[i].as_str();
        if region.is_empty() || str_byte_len(region) > PROVIDER_REGION_MAX_BYTES || str_has_control(region) {
            proof {
                lemma_regions_error_stops(regions@, i as int + 1, n as int);
            }
            return Some(String::from_str("regions must be 1..=32 bytes without control characters"));
        }
        let mut j: usize = 0;
        while j < i
            invariant
                n == regions@.len(),
                i < n,
                j <= i,
                region@ == regions@[i as int]@,
                region@.len() > 0,
                byte_len(region@) <= PROVIDER_REGION_MAX_BYTES,
                !has_control(region@),
                regions_error(regions@, i as int) is None,
                forall|t: int| 0 <= t < j ==> regions@[t]@ != regions@[i as int]@,
            decreases i - j,
        {
            if strs_equal(regions[j].as_str(), region) {
                let mut reason = String::from_str("region `");
                reason.append(region);
                reason.append("` is declared twice");
                proof {
                    assert(regions@[j as int]@ == regions@[i as int]@);
                    assert(region_error(regions@, i as int) == Some("region `"@ + region@ + "` is declared twice"@));
                    lemma_regions_error_stops(regions@, i as int + 1, n as int);
                }
                return Some(reason);
            }
            j += 1;
        }
        i += 1;
    }
    None
}

impl ProviderDescriptor {
    /// Validates the descriptor's structural rules: at least one
    /// capability; unique, well-formed capabilities; bounded health;
    /// 1 to 8 unique, bounded, control-free regions; well-formed cost.
    pub fn validate(&self) -> (r: Result<(), ResourceProviderError>)
        ensures
            r is Ok <==> descriptor_error(*self) is None,
            r matches Err(e) ==> {
                &&& e matches ResourceProviderError::InvalidSpec { reason }
                &&& descriptor_error(*self) == Some(reason@)
            },
    {
        if self.capabilities.len() == 0 {
            return Err(invalid("provider descriptors declare at least one capability"));
        }
        match first_capability_error(&self.provider, &self.capabilities) {
            Some(reason) => {
                return Err(ResourceProviderError::InvalidSpec { reason });
            },
            None => {},
        }
        match self.health.validate() {
            Err(e) => {
                return Err(e);
            },
            Ok(()) => {},
        }
        if self.regions.len() == 0 || self.regions.len() > PROVIDER_REGIONS_MAX {
            return Err(invalid("providers declare 1..=8 regions"));
        }
        match first_region_error(&self.regions) {
            Some(reason) => {
                return Err(ResourceProviderError::InvalidSpec { reason });
            },
            None => {},
        }
        match &self.cost {
            Some(c) => c.validate(),
            None => Ok(()),
        }
    }

    /// The first capability declared for `class`, when the provider
    /// serves it.
    pub fn capability_for(&self, class: ResourceClass) -> (r: Option<&ResourceCapability>)
        ensures
            r is None <==> forall|i: int| 0 <= i < self.capabilities@.len() ==> #[trigger] self.capabilities@[i].class != class,
            r matches Some(c) ==> exists|i: int| {
                &&& 0 <= i < self.capabilities@.len()
                &&& #[trigger] self.capabilities@[i] == *c
                &&& c.class == class
                &&& forall|j: int| 0 <= j < i ==> self.capabilities@[j].class != class
            },
    {
        let mut i: usize = 0;
        while i < self.capabilities.len()
            invariant
                i <= self.capabilities@.len(),
                forall|j: int| 0 <= j < i ==> self.capabilities@[j].class != class,
            decreases self.capabilities@.len() - i,
        {
            if self.capabilities[i].class == class {
                assert(self.capabilities@[i as int] == self.capabilities@[i as int]);
                return Some(&self.capabilities[i]);
            }
            i += 1;
        }
        None
    }

    /// Whether the provider declares serving `class`.
    pub fn serves(&self, class: ResourceClass) -> (r: bool)
        ensures
            r == exists|i: int| 0 <= i < self.capabilities@.len() && #[trigger] self.capabilities@[i].class == class,
    {
        self.capability_for(class).is_some()
    }
}

} // verus!
