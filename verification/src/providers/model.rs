//! The provider-neutral resource model: provider identity, resource
//! classes, lifecycle statuses, network policy inputs, validated resource
//! specs, credential-free handles and snapshot artifacts.
//!
//! Nothing here is workflow semantics: a resource handle names one
//! provider-owned infrastructure instance and its resource-plane status.

use vstd::prelude::*;
use crate::ir::ids;
use crate::keyed_map::KeyedMap;
use crate::text::{
    all_ascii_graphic, byte_len, has_control, is_ascii_alphanumeric, str_all_ascii_graphic, str_byte_len,
    str_has_control, strs_equal, chars_of,
};
use crate::providers::error::ResourceProviderError;

verus! {

/// Maximum size of an `os` or `region` string, in bytes.
pub const SPEC_TEXT_MAX_BYTES: usize = 64;
/// Maximum number of labels on one resource spec.
pub const SPEC_LABELS_MAX: usize = 16;
/// Maximum length of one label key, in bytes.
pub const LABEL_KEY_MAX_BYTES: usize = 64;
/// Maximum length of one label value, in bytes.
pub const LABEL_VALUE_MAX_BYTES: usize = 128;
/// Maximum CPU allocation request, in milli-CPU (one thousand vCPU).
pub const CPU_MILLIS_MAX: u32 = 1_000_000;
/// Maximum memory allocation request, in MiB (one TiB).
pub const MEMORY_MIB_MAX: u32 = 1_048_576;
/// Maximum disk allocation request, in MiB (one TiB).
pub const DISK_MIB_MAX: u64 = 1_048_576;
/// Maximum GPU device count request.
pub const GPU_MAX: u32 = 64;
/// Maximum hosts listed in one restricted network policy.
pub const NETWORK_HOSTS_MAX: usize = 16;
/// Maximum length of one network host token, in bytes.
pub const NETWORK_HOST_MAX_BYTES: usize = 253;
/// Maximum length of a snapshot artifact reference, in bytes.
pub const SNAPSHOT_ARTIFACT_MAX_BYTES: usize = 128;

/// A character allowed in a path-segment-safe name.
pub open spec fn is_name_char(c: char) -> bool {
    is_ascii_alphanumeric(c) || c == '_' || c == '-' || c == '.'
}

/// A non-empty token of ASCII letters, digits, `_`, `-` and `.`, where `.`
/// only separates non-empty segments (no leading, trailing or doubled `.`).
pub open spec fn valid_name_segment(s: Seq<char>) -> bool {
    &&& s.len() > 0
    &&& forall|i: int| 0 <= i < s.len() ==> #[trigger] is_name_char(s[i])
    &&& s[0] != '.'
    &&& s.last() != '.'
    &&& !(exists|i: int| 0 <= i < s.len() - 1 && #[trigger] s[i] == '.' && s[i + 1] == '.')
}

/// Whether a string is a path-segment-safe name token.
pub fn is_valid_name_segment(value: &str) -> (r: bool)
    ensures
        r == valid_name_segment(value@),
{
    let cs = chars_of(value);
    let n = cs.len();
    if n == 0 {
        return false;
    }
    let mut ok = true;
    let mut double_dot = false;
    let mut i: usize = 0;
    while i < n
        invariant
            cs@ == value@,
            n == cs@.len(),
            i <= n,
            ok == (forall|t: int| 0 <= t < i ==> #[trigger] is_name_char(cs@[t])),
            double_dot == (exists|t: int| 0 <= t < i && t < n - 1 && #[trigger] cs@[t] == '.' && cs@[t + 1] == '.'),
        decreases n - i,
    {
        let c = cs[i];
        let allowed = ('a' <= c && c <= 'z') || ('A' <= c && c <= 'Z') || ('0' <= c && c <= '9') || c == '_' || c == '-'
            || c == '.';
        if !allowed {
            ok = false;
        }
        if i + 1 < n && c == '.' && cs[i + 1] == '.' {
            double_dot = true;
        }
        proof {
            if !ok {
                assert(!allowed ==> !is_name_char(cs@[i as int]));
            }
        }
        i += 1;
    }
    ok && cs[0] != '.' && cs[n - 1] != '.' && !double_dot
}

/// Validates a path-segment-safe name token of the given kind.
fn validate_name_segment(value: &str, kind: &'static str) -> (r: Result<(), ResourceProviderError>)
    ensures
        r is Ok <==> valid_name_segment(value@),
        r matches Err(e) ==> {
            &&& e matches ResourceProviderError::InvalidIdentifier { kind: k, value: v, reason }
            &&& k == kind
            &&& v@ == value@
            &&& reason@ == "must be a non-empty path-segment-safe token"@
        },
{
    if is_valid_name_segment(value) {
        Ok(())
    } else {
        Err(ResourceProviderError::InvalidIdentifier {
            kind,
            value: String::from_str(value),
            reason: "must be a non-empty path-segment-safe token",
        })
    }
}

/// Identity of one execution resource provider: a path-segment-safe
/// token.
#[derive(Clone, Debug, PartialEq, Eq, Hash, PartialOrd, Ord)]
pub struct ProviderId {
    value: String,
}

impl ProviderId {
    /// The identifier's characters.
    pub closed spec fn spec_str(&self) -> Seq<char> {
        self.value@
    }

    /// Parses a provider identifier: non-empty ASCII letters, digits, `_`,
    /// `-`, and `.` separating non-empty segments.
    pub fn parse(value: String) -> (r: Result<Self, ResourceProviderError>)
        ensures
            r is Ok <==> valid_name_segment(value@),
            r matches Ok(id) ==> id.spec_str() == value@,
            r matches Err(e) ==> {
                &&& e matches ResourceProviderError::InvalidIdentifier { kind, value: v, reason }
                &&& kind@ == "provider id"@
                &&& v@ == value@
                &&& reason@ == "must be a non-empty path-segment-safe token"@
            },
    {
        match validate_name_segment(value.as_str(), "provider id") {
            Ok(()) => Ok(ProviderId { value }),
            Err(e) => Err(e),
        }
    }

    /// The identifier as a string slice.
    pub fn as_str(&self) -> (r: &str)
        ensures
            r@ == self.spec_str(),
    {
        self.value.as_str()
    }

    /// A copy of the identifier.
    pub fn duplicate(&self) -> (r: Self)
        ensures
            r.spec_str() == self.spec_str(),
    {
        ProviderId { value: self.value.clone() }
    }
}

/// The class of execution resource a provider provisions.
#[derive(Clone, Copy, Debug, PartialEq, Eq, Structural, Hash, PartialOrd, Ord)]
pub enum ResourceClass {
    /// An isolated, typically ephemeral compute sandbox.
    Sandbox,
    /// A remote graphical desktop session.
    RemoteDesktop,
    /// A persistent workspace whose state survives across sessions.
    PersistentWorkspace,
    /// Specialized compute with attached GPU devices.
    GpuCompute,
}

/// The canonical wire name of a class.
pub open spec fn class_name(c: ResourceClass) -> Seq<char> {
    match c {
        ResourceClass::Sandbox => "sandbox"@,
        ResourceClass::RemoteDesktop => "remoteDesktop"@,
        ResourceClass::PersistentWorkspace => "persistentWorkspace"@,
        ResourceClass::GpuCompute => "gpuCompute"@,
    }
}

/// The class whose canonical wire name is `s`, if any.
pub open spec fn class_of_name(s: Seq<char>) -> Option<ResourceClass> {
    if s == "sandbox"@ {
        Some(ResourceClass::Sandbox)
    } else if s == "remoteDesktop"@ {
        Some(ResourceClass::RemoteDesktop)
    } else if s == "persistentWorkspace"@ {
        Some(ResourceClass::PersistentWorkspace)
    } else if s == "gpuCompute"@ {
        Some(ResourceClass::GpuCompute)
    } else {
        None
    }
}

/// The logical resource type a class binds under.
pub open spec fn logical_type_name(c: ResourceClass) -> Seq<char> {
    match c {
        ResourceClass::Sandbox => "sandbox_compute"@,
        ResourceClass::RemoteDesktop => "remote_desktop_resource"@,
        ResourceClass::PersistentWorkspace => "persistent_workspace"@,
        ResourceClass::GpuCompute => "gpu_compute"@,
    }
}

impl ResourceClass {
    /// Every resource class defined by the provider plane.
    pub const ALL: [ResourceClass; 4] = [
        ResourceClass::Sandbox,
        ResourceClass::RemoteDesktop,
        ResourceClass::PersistentWorkspace,
        ResourceClass::GpuCompute,
    ];

    /// The canonical wire name.
    pub fn as_str(self) -> (r: &'static str)
        ensures
            r@ == class_name(self),
    {
        match self {
            ResourceClass::Sandbox => "sandbox",
            ResourceClass::RemoteDesktop => "remoteDesktop",
            ResourceClass::PersistentWorkspace => "persistentWorkspace",
            ResourceClass::GpuCompute => "gpuCompute",
        }
    }

    /// Parses a canonical wire name into a resource class.
    pub fn parse(value: &str) -> (r: Result<Self, ResourceProviderError>)
        ensures
            class_of_name(value@) matches Some(c) ==> r == Ok::<Self, ResourceProviderError>(c),
            class_of_name(value@) is None ==> {
                &&& r matches Err(ResourceProviderError::InvalidSpec { reason })
                &&& reason@ == "unknown resource class `"@ + value@ + "`"@
            },
    {
        if strs_equal(value, "sandbox") {
            Ok(ResourceClass::Sandbox)
        } else if strs_equal(value, "remoteDesktop") {
            Ok(ResourceClass::RemoteDesktop)
        } else if strs_equal(value, "persistentWorkspace") {
            Ok(ResourceClass::PersistentWorkspace)
        } else if strs_equal(value, "gpuCompute") {
            Ok(ResourceClass::GpuCompute)
        } else {
            let mut reason = String::from_str("unknown resource class `");
            reason.append(value);
            reason.append("`");
            Err(ResourceProviderError::InvalidSpec { reason })
        }
    }

    /// The logical resource type name this class binds under.
    pub fn logical_resource_type(self) -> (r: &'static str)
        ensures
            r@ == logical_type_name(self),
    {
        match self {
            ResourceClass::Sandbox => "sandbox_compute",
            ResourceClass::RemoteDesktop => "remote_desktop_resource",
            ResourceClass::PersistentWorkspace => "persistent_workspace",
            ResourceClass::GpuCompute => "gpu_compute",
        }
    }
}

/// Every class's wire name parses back to that class.
pub proof fn lemma_class_name_roundtrip(c: ResourceClass)
    ensures
        class_of_name(class_name(c)) == Some(c),
{
    reveal_strlit("sandbox");
    reveal_strlit("remoteDesktop");
    reveal_strlit("persistentWorkspace");
    reveal_strlit("gpuCompute");
    assert("sandbox"@[0] == 's');
    assert("remoteDesktop"@[0] == 'r');
    assert("persistentWorkspace"@[0] == 'p');
    assert("gpuCompute"@[0] == 'g');
}

/// The resource-plane lifecycle status of one resource instance.
#[derive(Clone, Copy, Debug, PartialEq, Eq, Structural, Hash, PartialOrd, Ord)]
pub enum ResourceStatus {
    /// Being provisioned; not usable yet.
    Provisioning,
    /// Live and usable.
    Active,
    /// Paused; state is preserved where the provider supports it.
    Paused,
    /// Explicitly released; the instance no longer runs.
    Released,
    /// Lost by the provider (eviction, crash, expiry).
    Lost,
}

/// The canonical wire name of a status.
pub open spec fn status_name(s: ResourceStatus) -> Seq<char> {
    match s {
        ResourceStatus::Provisioning => "provisioning"@,
        ResourceStatus::Active => "active"@,
        ResourceStatus::Paused => "paused"@,
        ResourceStatus::Released => "released"@,
        ResourceStatus::Lost => "lost"@,
    }
}

/// Only live resources (active or paused) mint bindings.
pub open spec fn status_bindable(s: ResourceStatus) -> bool {
    s is Active || s is Paused
}

impl ResourceStatus {
    /// Every resource status defined by the provider plane.
    pub const ALL: [ResourceStatus; 5] = [
        ResourceStatus::Provisioning,
        ResourceStatus::Active,
        ResourceStatus::Paused,
        ResourceStatus::Released,
        ResourceStatus::Lost,
    ];

    /// The canonical wire name.
    pub fn as_str(self) -> (r: &'static str)
        ensures
            r@ == status_name(self),
    {
        match self {
            ResourceStatus::Provisioning => "provisioning",
            ResourceStatus::Active => "active",
            ResourceStatus::Paused => "paused",
            ResourceStatus::Released => "released",
            ResourceStatus::Lost => "lost",
        }
    }

    /// Whether a resource in this status may be bound to a workflow
    /// requirement.
    pub fn is_bindable(self) -> (r: bool)
        ensures
            r == status_bindable(self),
    {
        match self {
            ResourceStatus::Active => true,
            ResourceStatus::Paused => true,
            _ => false,
        }
    }
}

/// A provider-neutral network policy input for one resource.
#[derive(Clone, Debug, PartialEq, Eq)]
pub enum NetworkPolicy {
    /// No outbound network access.
    Isolated,
    /// Outbound access restricted to the listed hosts.
    Restricted {
        /// The hosts the resource may reach.
        allowed_hosts: Vec<String>,
    },
    /// Outbound access unrestricted.
    Open,
}

/// A request to provision one resource. Every field beyond `class` is
/// optional; absent fields mean the provider's defaults apply.
#[derive(Clone, Debug)]
pub struct ResourceSpec {
    /// The class of resource being requested.
    pub class: ResourceClass,
    /// Requested CPU allocation in milli-CPU.
    pub cpu_millis: Option<u32>,
    /// Requested memory allocation in MiB.
    pub memory_mib: Option<u32>,
    /// Requested disk allocation in MiB.
    pub disk_mib: Option<u64>,
    /// Requested GPU device count.
    pub gpu: Option<u32>,
    /// Operating system or runtime identifier.
    pub os: Option<String>,
    /// Provider region.
    pub region: Option<String>,
    /// Free-form infrastructure labels, bounded in count and size.
    pub labels: KeyedMap<String>,
    /// Network policy input.
    pub network: Option<NetworkPolicy>,
}

/// A network policy as plain values.
pub enum NetworkView {
    /// No outbound network access.
    Isolated,
    /// Outbound access restricted to the listed hosts.
    Restricted(Seq<Seq<char>>),
    /// Outbound access unrestricted.
    Open,
}

/// A resource spec as plain values.
pub struct SpecView {
    /// The requested class.
    pub class: ResourceClass,
    /// Requested CPU allocation in milli-CPU.
    pub cpu_millis: Option<u32>,
    /// Requested memory allocation in MiB.
    pub memory_mib: Option<u32>,
    /// Requested disk allocation in MiB.
    pub disk_mib: Option<u64>,
    /// Requested GPU device count.
    pub gpu: Option<u32>,
    /// Operating system or runtime identifier.
    pub os: Option<Seq<char>>,
    /// Provider region.
    pub region: Option<Seq<char>>,
    /// Label keys, in key order.
    pub label_keys: Seq<Seq<char>>,
    /// Label values, in key order.
    pub label_values: Seq<Seq<char>>,
    /// Network policy input.
    pub network: Option<NetworkView>,
}

/// The characters of an optional string.
pub open spec fn opt_text(o: Option<String>) -> Option<Seq<char>> {
    match o {
        Some(s) => Some(s@),
        None => None,
    }
}

impl ResourceSpec {
    /// The spec as plain values.
    pub open spec fn spec_view(&self) -> SpecView {
        SpecView {
            class: self.class,
            cpu_millis: self.cpu_millis,
            memory_mib: self.memory_mib,
            disk_mib: self.disk_mib,
            gpu: self.gpu,
            os: opt_text(self.os),
            region: opt_text(self.region),
            label_keys: self.labels.keys(),
            label_values: self.labels.values().map_values(|v: String| v@),
            network: match self.network {
                Some(NetworkPolicy::Isolated) => Some(NetworkView::Isolated),
                Some(NetworkPolicy::Restricted { allowed_hosts }) => Some(
                    NetworkView::Restricted(ids(allowed_hosts@)),
                ),
                Some(NetworkPolicy::Open) => Some(NetworkView::Open),
                None => None,
            },
        }
    }

    /// A copy of the spec.
    pub fn duplicate(&self) -> (r: Self)
        requires
            self.labels.wf(),
        ensures
            r.spec_view() == self.spec_view(),
            r.labels.wf(),
    {
        let network = match &self.network {
            Some(NetworkPolicy::Isolated) => Some(NetworkPolicy::Isolated),
            Some(NetworkPolicy::Restricted { allowed_hosts }) => Some(
                NetworkPolicy::Restricted { allowed_hosts: crate::ir::clone_strings(allowed_hosts) },
            ),
            Some(NetworkPolicy::Open) => Some(NetworkPolicy::Open),
            None => None,
        };
        let labels = self.labels.duplicate_strings();
        let r = ResourceSpec {
            class: self.class,
            cpu_millis: self.cpu_millis,
            memory_mib: self.memory_mib,
            disk_mib: self.disk_mib,
            gpu: self.gpu,
            os: crate::ir::clone_opt(&self.os),
            region: crate::ir::clone_opt(&self.region),
            labels,
            network,
        };
        assert(r.labels.keys() =~= self.labels.keys());
        assert(r.labels.values().map_values(|v: String| v@) =~= self.labels.values().map_values(|v: String| v@));
        r
    }
}

/// An optional capacity outside `1..=max`.
pub open spec fn out_of_range(o: Option<u64>, max: u64) -> bool {
    match o {
        Some(v) => v == 0 || v > max,
        None => false,
    }
}

/// The optional 32-bit value widened.
pub open spec fn widen(o: Option<u32>) -> Option<u64> {
    match o {
        Some(v) => Some(v as u64),
        None => None,
    }
}

/// An optional text field that is empty, longer than the bound, or holds
/// anything but printable non-space ASCII.
pub open spec fn text_bad(o: Option<String>) -> bool {
    match o {
        Some(t) => t@.len() == 0 || byte_len(t@) > SPEC_TEXT_MAX_BYTES || !all_ascii_graphic(t@),
        None => false,
    }
}

/// Why a label is rejected, if it is.
pub open spec fn label_error(key: Seq<char>, value: Seq<char>) -> Option<Seq<char>> {
    if key.len() == 0 || byte_len(key) > LABEL_KEY_MAX_BYTES {
        Some("label keys must be 1..=64 bytes"@)
    } else if byte_len(value) > LABEL_VALUE_MAX_BYTES {
        Some("label values must be at most 128 bytes"@)
    } else {
        None
    }
}

/// The first label error among the first `k` labels, in key order.
pub open spec fn labels_error(labels: KeyedMap<String>, k: int) -> Option<Seq<char>>
    decreases k,
{
    if k <= 0 {
        None
    } else {
        match labels_error(labels, k - 1) {
            Some(e) => Some(e),
            None => label_error(labels.key(k - 1), labels.value(k - 1)@),
        }
    }
}

/// Why the host at position `i` is rejected, if it is.
pub open spec fn host_error(hosts: Seq<Seq<char>>, i: int) -> Option<Seq<char>> {
    let h = hosts[i];
    if h.len() == 0 || byte_len(h) > NETWORK_HOST_MAX_BYTES {
        Some("network hosts must be 1..=253 bytes"@)
    } else if has_control(h) {
        Some("network hosts must not contain control characters"@)
    } else if exists|j: int| 0 <= j < i && hosts[j] == h {
        Some("network host `"@ + h + "` is listed twice"@)
    } else {
        None
    }
}

/// The first host error among the first `k` hosts.
pub open spec fn hosts_error(hosts: Seq<Seq<char>>, k: int) -> Option<Seq<char>>
    decreases k,
{
    if k <= 0 {
        None
    } else {
        match hosts_error(hosts, k - 1) {
            Some(e) => Some(e),
            None => host_error(hosts, k - 1),
        }
    }
}

/// Why a network policy is rejected, if it is.
pub open spec fn network_error(n: Option<NetworkPolicy>) -> Option<Seq<char>> {
    match n {
        Some(NetworkPolicy::Restricted { allowed_hosts }) => if allowed_hosts@.len() > NETWORK_HOSTS_MAX {
            Some("network policies list at most 16 hosts"@)
        } else {
            hosts_error(ids(allowed_hosts@), allowed_hosts@.len() as int)
        },
        _ => None,
    }
}

/// The reason the first failing check of [`ResourceSpec::validate`]
/// reports, or `None` when the spec is valid.
pub open spec fn spec_error(s: ResourceSpec) -> Option<Seq<char>> {
    if out_of_range(widen(s.cpu_millis), CPU_MILLIS_MAX as u64) {
        Some("cpuMillis must be 1..=1000000"@)
    } else if out_of_range(widen(s.memory_mib), MEMORY_MIB_MAX as u64) {
        Some("memoryMiB must be 1..=1048576"@)
    } else if out_of_range(s.disk_mib, DISK_MIB_MAX) {
        Some("diskMiB must be 1..=1048576"@)
    } else if out_of_range(widen(s.gpu), GPU_MAX as u64) {
        Some("gpu must be 1..=64"@)
    } else if text_bad(s.os) {
        Some("os must be non-empty ASCII, at most 64 bytes"@)
    } else if text_bad(s.region) {
        Some("region must be non-empty ASCII, at most 64 bytes"@)
    } else if s.labels.len() > SPEC_LABELS_MAX {
        Some("specs carry at most 16 labels"@)
    } else if labels_error(s.labels, s.labels.len() as int) is Some {
        labels_error(s.labels, s.labels.len() as int)
    } else {
        network_error(s.network)
    }
}

proof fn lemma_labels_error_none(labels: KeyedMap<String>, k: int)
    requires
        0 <= k,
    ensures
        labels_error(labels, k) is None <==> forall|i: int| 0 <= i < k ==> #[trigger] label_error(labels.key(i), labels.value(i)@) is None,
    decreases k,
{
    if k > 0 {
        lemma_labels_error_none(labels, k - 1);
    }
}

proof fn lemma_hosts_error_none(hosts: Seq<Seq<char>>, k: int)
    requires
        0 <= k,
    ensures
        hosts_error(hosts, k) is None <==> forall|i: int| 0 <= i < k ==> #[trigger] host_error(hosts, i) is None,
    decreases k,
{
    if k > 0 {
        lemma_hosts_error_none(hosts, k - 1);
    }
}

/// Every rule a resource spec must meet, each on its own: the capacities
/// within their bounds, `os` and `region` absent or 1..=64 bytes of
/// printable non-space ASCII, at most 16 labels with keys of 1..=64 bytes
/// and values of at most 128 bytes, and a restricted network listing at
/// most 16 hosts, each of 1..=253 bytes without control characters and
/// none twice.
pub open spec fn spec_rules_hold(s: ResourceSpec) -> bool {
    &&& !out_of_range(widen(s.cpu_millis), CPU_MILLIS_MAX as u64)
    &&& !out_of_range(widen(s.memory_mib), MEMORY_MIB_MAX as u64)
    &&& !out_of_range(s.disk_mib, DISK_MIB_MAX)
    &&& !out_of_range(widen(s.gpu), GPU_MAX as u64)
    &&& !text_bad(s.os)
    &&& !text_bad(s.region)
    &&& s.labels.len() <= SPEC_LABELS_MAX
    &&& forall|i: int| 0 <= i < s.labels.len() ==> {
        &&& (#[trigger] s.labels.key(i)).len() > 0
        &&& byte_len(s.labels.key(i)) <= LABEL_KEY_MAX_BYTES
        &&& byte_len(s.labels.value(i)@) <= LABEL_VALUE_MAX_BYTES
    }
    &&& s.network matches Some(NetworkPolicy::Restricted { allowed_hosts }) ==> {
        let hosts = ids(allowed_hosts@);
        &&& hosts.len() <= NETWORK_HOSTS_MAX
        &&& forall|i: int| 0 <= i < hosts.len() ==> {
            &&& (#[trigger] hosts[i]).len() > 0
            &&& byte_len(hosts[i]) <= NETWORK_HOST_MAX_BYTES
            &&& !has_control(hosts[i])
        }
        &&& forall|i: int, j: int| 0 <= j < i < hosts.len() ==> #[trigger] hosts[j] != #[trigger] hosts[i]
    }
}

/// A spec validates exactly when it meets every rule; the order of the
/// checks only decides which reason a refusal names.
pub proof fn lemma_spec_valid_iff_rules(s: ResourceSpec)
    ensures
        spec_error(s) is None <==> spec_rules_hold(s),
{
    lemma_labels_error_none(s.labels, s.labels.len() as int);
    let labels_ok = forall|i: int| 0 <= i < s.labels.len() ==> {
        &&& (#[trigger] s.labels.key(i)).len() > 0
        &&& byte_len(s.labels.key(i)) <= LABEL_KEY_MAX_BYTES
        &&& byte_len(s.labels.value(i)@) <= LABEL_VALUE_MAX_BYTES
    };
    assert(labels_error(s.labels, s.labels.len() as int) is None <==> labels_ok) by {
        if labels_ok {
            assert forall|i: int| 0 <= i < s.labels.len() implies #[trigger] label_error(s.labels.key(i), s.labels.value(i)@) is None by {
                assert(s.labels.key(i).len() > 0);
            }
        }
        if labels_error(s.labels, s.labels.len() as int) is None {
            assert forall|i: int| 0 <= i < s.labels.len() implies {
                &&& (#[trigger] s.labels.key(i)).len() > 0
                &&& byte_len(s.labels.key(i)) <= LABEL_KEY_MAX_BYTES
                &&& byte_len(s.labels.value(i)@) <= LABEL_VALUE_MAX_BYTES
            } by {
                assert(label_error(s.labels.key(i), s.labels.value(i)@) is None);
            }
        }
    }
    match s.network {
        Some(NetworkPolicy::Restricted { allowed_hosts }) => {
            let hosts = ids(allowed_hosts@);
            assert(hosts.len() == allowed_hosts@.len());
            lemma_hosts_error_none(hosts, hosts.len() as int);
            let hosts_ok = {
                &&& forall|i: int| 0 <= i < hosts.len() ==> {
                    &&& (#[trigger] hosts[i]).len() > 0
                    &&& byte_len(hosts[i]) <= NETWORK_HOST_MAX_BYTES
                    &&& !has_control(hosts[i])
                }
                &&& forall|i: int, j: int| 0 <= j < i < hosts.len() ==> #[trigger] hosts[j] != #[trigger] hosts[i]
            };
            assert(hosts_error(hosts, hosts.len() as int) is None <==> hosts_ok) by {
                if hosts_error(hosts, hosts.len() as int) is None {
                    assert forall|i: int, j: int| 0 <= j < i < hosts.len() implies #[trigger] hosts[j] != #[trigger] hosts[i] by {
                        assert(host_error(hosts, i) is None);
                    }
                    assert forall|i: int| 0 <= i < hosts.len() implies {
                        &&& (#[trigger] hosts[i]).len() > 0
                        &&& byte_len(hosts[i]) <= NETWORK_HOST_MAX_BYTES
                        &&& !has_control(hosts[i])
                    } by {
                        assert(host_error(hosts, i) is None);
                    }
                }
                if hosts_ok {
                    assert forall|i: int| 0 <= i < hosts.len() implies #[trigger] host_error(hosts, i) is None by {
                        assert(hosts[i].len() > 0);
                        if exists|j: int| 0 <= j < i && hosts[j] == hosts[i] {
                            let j = choose|j: int| 0 <= j < i && hosts[j] == hosts[i];
                            assert(hosts[j] != hosts[i]);
                        }
                    }
                }
            }
        },
        _ => {},
    }
}

fn invalid(reason: &str) -> (e: ResourceProviderError)
    ensures
        e matches ResourceProviderError::InvalidSpec { reason: r } && r@ == reason@,
{
    ResourceProviderError::InvalidSpec { reason: String::from_str(reason) }
}

fn u32_out_of_range(o: Option<u32>, max: u32) -> (r: bool)
    ensures
        r == out_of_range(widen(o), max as u64),
{
    match o {
        Some(v) => v == 0 || v > max,
        None => false,
    }
}

fn u64_out_of_range(o: Option<u64>, max: u64) -> (r: bool)
    ensures
        r == out_of_range(o, max),
{
    match o {
        Some(v) => v == 0 || v > max,
        None => false,
    }
}

/// Validates a bounded, control-free ASCII text field named `field`.
fn validate_text(value: &Option<String>, field: &'static str) -> (r: Result<(), ResourceProviderError>)
    ensures
        r is Ok <==> !text_bad(*value),
        r matches Err(e) ==> {
            &&& e matches ResourceProviderError::InvalidSpec { reason }
            &&& reason@ == field@ + " must be non-empty ASCII, at most 64 bytes"@
        },
{
    let bad = match value {
        Some(t) => t.as_str().is_empty() || str_byte_len(t.as_str()) > SPEC_TEXT_MAX_BYTES || !str_all_ascii_graphic(t.as_str()),
        None => false,
    };
    if bad {
        let mut reason = String::from_str(field);
        reason.append(" must be non-empty ASCII, at most 64 bytes");
        return Err(ResourceProviderError::InvalidSpec { reason });
    }
    Ok(())
}

fn first_label_error(labels: &KeyedMap<String>) -> (r: Option<String>)
    ensures
        r matches Some(e) ==> labels_error(*labels, labels.len() as int) == Some(e@),
        r is None ==> labels_error(*labels, labels.len() as int) is None,
{
    let n = labels.size();
    let mut i: usize = 0;
    while i < n
        invariant
            n == labels.len(),
            i <= n,
            labels_error(*labels, i as int) is None,
        decreases n - i,
    {
        let key = labels.key_at(i);
        let value = labels.value_at(i);
        if key.as_str().is_empty() || str_byte_len(key.as_str()) > LABEL_KEY_MAX_BYTES {
            proof {
                lemma_labels_error_stops(*labels, i as int + 1, n as int);
            }
            return Some(String::from_str("label keys must be 1..=64 bytes"));
        }
        if str_byte_len(value.as_str()) > LABEL_VALUE_MAX_BYTES {
            proof {
                lemma_labels_error_stops(*labels, i as int + 1, n as int);
            }
            return Some(String::from_str("label values must be at most 128 bytes"));
        }
        i += 1;
    }
    None
}

proof fn lemma_labels_error_stops(labels: KeyedMap<String>, k: int, n: int)
    requires
        0 <= k <= n,
        labels_error(labels, k) is Some,
    ensures
        labels_error(labels, n) == labels_error(labels, k),
    decreases n - k,
{
    if k < n {
        lemma_labels_error_stops(labels, k, n - 1);
    }
}

proof fn lemma_hosts_error_stops(hosts: Seq<Seq<char>>, k: int, n: int)
    requires
        0 <= k <= n,
        hosts_error(hosts, k) is Some,
    ensures
        hosts_error(hosts, n) == hosts_error(hosts, k),
    decreases n - k,
{
    if k < n {
        lemma_hosts_error_stops(hosts, k, n - 1);
    }
}

fn first_host_error(hosts: &Vec<String>) -> (r: Option<String>)
    ensures
        r matches Some(e) ==> hosts_error(ids(hosts@), hosts@.len() as int) == Some(e@),
        r is None ==> hosts_error(ids(hosts@), hosts@.len() as int) is None,
{
    let ghost hs = ids(hosts@);
    let n = hosts.len();
    let mut i: usize = 0;
    while i < n
        invariant
            n == hosts@.len(),
            hs == ids(hosts@),
            i <= n,
            hosts_error(hs, i as int) is None,
        decreases n - i,
    {
        let host = hosts[i].as_str();
        assert(hs[i as int] == host@);
        if host.is_empty() || str_byte_len(host) > NETWORK_HOST_MAX_BYTES {
            proof {
                lemma_hosts_error_stops(hs, i as int + 1, n as int);
            }
            return Some(String::from_str("network hosts must be 1..=253 bytes"));
        }
        if str_has_control(host) {
            proof {
                lemma_hosts_error_stops(hs, i as int + 1, n as int);
            }
            return Some(String::from_str("network hosts must not contain control characters"));
        }
        let mut j: usize = 0;
        while j < i
            invariant
                n == hosts@.len(),
                hs == ids(hosts@),
                i < n,
                j <= i,
                host@ == hs[i as int],
                host@.len() > 0,
                byte_len(host@) <= NETWORK_HOST_MAX_BYTES,
                !has_control(host@),
                hosts_error(hs, i as int) is None,
                forall|t: int| 0 <= t < j ==> hs[t] != hs[i as int],
            decreases i - j,
        {
            if strs_equal(hosts[j].as_str(), host) {
                let mut reason = String::from_str("network host `");
                reason.append(host);
                reason.append("` is listed twice");
                proof {
                    assert(hs[j as int] == hs[i as int]);
                    assert(host_error(hs, i as int) == Some("network host `"@ + host@ + "` is listed twice"@));
                    lemma_hosts_error_stops(hs, i as int + 1, n as int);
                }
                return Some(reason);
            }
            j += 1;
        }
        i += 1;
    }
    None
}

impl ResourceSpec {
    /// Validates the spec's bounds: capacity requests within the
    /// provider-plane bounds; `os`/`region` bounded printable ASCII;
    /// labels bounded in count, key and value size; restricted network
    /// policies listing bounded, control-free, duplicate-free hosts.
    pub fn validate(&self) -> (r: Result<(), ResourceProviderError>)
        requires
            self.labels.wf(),
        ensures
            r is Ok <==> spec_error(*self) is None,
            r matches Err(e) ==> {
                &&& e matches ResourceProviderError::InvalidSpec { reason }
                &&& spec_error(*self) == Some(reason@)
            },
    {
        if u32_out_of_range(self.cpu_millis, CPU_MILLIS_MAX) {
            return Err(invalid("cpuMillis must be 1..=1000000"));
        }
        if u32_out_of_range(self.memory_mib, MEMORY_MIB_MAX) {
            return Err(invalid("memoryMiB must be 1..=1048576"));
        }
        if u64_out_of_range(self.disk_mib, DISK_MIB_MAX) {
            return Err(invalid("diskMiB must be 1..=1048576"));
        }
        if u32_out_of_range(self.gpu, GPU_MAX) {
            return Err(invalid("gpu must be 1..=64"));
        }
        proof {
            reveal_strlit("os");
            reveal_strlit("region");
            reveal_strlit(" must be non-empty ASCII, at most 64 bytes");
            reveal_strlit("os must be non-empty ASCII, at most 64 bytes");
            reveal_strlit("region must be non-empty ASCII, at most 64 bytes");
        }
        match validate_text(&self.os, "os") {
            Err(e) => {
                return Err(e);
            },
            Ok(()) => {},
        }
        match validate_text(&self.region, "region") {
            Err(e) => {
                return Err(e);
            },
            Ok(()) => {},
        }
        if self.labels.size() > SPEC_LABELS_MAX {
            return Err(invalid("specs carry at most 16 labels"));
        }
        match first_label_error(&self.labels) {
            Some(reason) => {
                return Err(ResourceProviderError::InvalidSpec { reason });
            },
            None => {},
        }
        match &self.network {
            Some(NetworkPolicy::Restricted { allowed_hosts }) => {
                if allowed_hosts.len() > NETWORK_HOSTS_MAX {
                    return Err(invalid("network policies list at most 16 hosts"));
                }
                match first_host_error(allowed_hosts) {
                    Some(reason) => {
                        return Err(ResourceProviderError::InvalidSpec { reason });
                    },
                    None => {},
                }
            },
            _ => {},
        }
        Ok(())
    }
}

/// One concrete, credential-free resource instance owned by a provider:
/// the opaque resource id the provider minted, the class it was
/// provisioned as, the owning provider, and its current status.
#[derive(Clone, Debug, PartialEq, Eq)]
pub struct ResourceHandle {
    /// The opaque resource instance identity.
    pub resource: String,
    /// The class the resource was provisioned as.
    pub class: ResourceClass,
    /// The provider that owns and interprets the instance.
    pub provider: ProviderId,
    /// The resource's current lifecycle status.
    pub status: ResourceStatus,
}

/// A snapshot/checkpoint captured from one resource: an execution
/// artifact, never a replacement for workflow identity.
#[derive(Clone, Debug, PartialEq, Eq)]
pub struct ResourceSnapshot {
    /// The resource the snapshot was captured from.
    pub resource: String,
    /// The opaque snapshot artifact reference.
    pub artifact: String,
}

/// Why a snapshot record is rejected, if it is.
pub open spec fn snapshot_error(artifact: Seq<char>) -> Option<Seq<char>> {
    if artifact.len() == 0 || byte_len(artifact) > SNAPSHOT_ARTIFACT_MAX_BYTES {
        Some("snapshot artifacts must be 1..=128 bytes"@)
    } else if has_control(artifact) {
        Some("snapshot artifacts must not contain control characters"@)
    } else {
        None
    }
}

impl ResourceSnapshot {
    /// Validates the snapshot record's bounds.
    pub fn validate(&self) -> (r: Result<(), ResourceProviderError>)
        ensures
            r is Ok <==> snapshot_error(self.artifact@) is None,
            r matches Err(e) ==> {
                &&& e matches ResourceProviderError::InvalidSpec { reason }
                &&& snapshot_error(self.artifact@) == Some(reason@)
            },
    {
        let artifact = self.artifact.as_str();
        if artifact.is_empty() || str_byte_len(artifact) > SNAPSHOT_ARTIFACT_MAX_BYTES {
            return Err(invalid("snapshot artifacts must be 1..=128 bytes"));
        }
        if str_has_control(artifact) {
            return Err(invalid("snapshot artifacts must not contain control characters"));
        }
        Ok(())
    }
}

} // verus!
