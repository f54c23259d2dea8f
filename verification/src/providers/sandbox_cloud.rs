//! An in-process fixture shaped like an ephemeral sandbox cloud provider:
//! it serves `Sandbox` and `RemoteDesktop`, supports create, pause/resume,
//! snapshot and fork plus network-policy inputs, has no persistence and
//! no resize, enforces a hard live capacity, and models a cloud-style
//! failure mode (provider outage). Nothing is connected or provisioned,
//! and no credential material exists anywhere in it.

use vstd::prelude::*;
use crate::keyed_map::KeyedMap;
use crate::text::{decimal, decimal_pad4, digits_value, lemma_decimal_pad4_value, lemma_key_irreflexive, push_decimal, push_decimal_pad4};
use crate::ir::clone_opt;
use crate::providers::descriptor::{
    CostMetadata, ProviderDescriptor, ProviderHealth, ProviderHealthStatus, ResourceCapability,
    ResourceLifecycleSupport, ResourceQuota, supports_op,
};
use crate::providers::error::ResourceProviderError;
use crate::providers::evidence::{
    EvidenceKind, ResourceEvidenceJournal, ResourceEvidenceRecord, evidence_identified, json_object, record_view,
};
use crate::providers::fixture::{
    copy_records, journal_entry, journal_payload, resource_lost, same_provider, text_payload, transition_payload,
    transition_payload_bytes,
};
use crate::providers::model::{
    ProviderId, ResourceClass, ResourceHandle, ResourceSnapshot, ResourceSpec, ResourceStatus, class_name, spec_error,
    status_bindable,
};
use crate::providers::provider::{
    ProviderAnswer,ExecutionResourceProvider, LifecycleOp, LifecycleOutcome, declared_lifecycle};
use crate::providers::evidence::count_fields;
use crate::providers::evidence::json_object_bytes;
use crate::providers::evidence::text_fields;

verus! {

/// The fixture provider's identity.
pub const SANDBOX_CLOUD_PROVIDER_ID: &'static str = "fixture-sandbox-cloud";

/// The fixture provider's identity, as characters.
pub open spec fn sandbox_provider() -> Seq<char> {
    "fixture-sandbox-cloud"@
}

/// The resource id minted at position `j`: `sbx-` and `j` zero-padded to
/// four digits.
pub open spec fn sandbox_id(j: nat) -> Seq<char> {
    seq!['s', 'b', 'x', '-'] + decimal_pad4(j)
}

/// The snapshot artifact minted at position `j`.
pub open spec fn snapshot_artifact(j: nat) -> Seq<char> {
    seq!['s', 'n', 'a', 'p', '-'] + decimal_pad4(j)
}

/// Distinct positions mint distinct ids.
pub proof fn lemma_sandbox_id_injective(a: nat, b: nat)
    requires
        sandbox_id(a) == sandbox_id(b),
    ensures
        a == b,
{
    lemma_decimal_pad4_value(a);
    lemma_decimal_pad4_value(b);
    assert(sandbox_id(a).subrange(4, sandbox_id(a).len() as int) =~= decimal_pad4(a));
    assert(sandbox_id(b).subrange(4, sandbox_id(b).len() as int) =~= decimal_pad4(b));
}

/// The lifecycle support the fixture declares for both classes.
pub open spec fn sandbox_lifecycle() -> ResourceLifecycleSupport {
    ResourceLifecycleSupport {
        create: true,
        pause_resume: true,
        snapshot: true,
        fork: true,
        resize: false,
        network_policy: true,
        gpu: false,
    }
}

/// The capabilities the fixture declares.
pub open spec fn sandbox_capabilities() -> Seq<ResourceCapability> {
    seq![
        ResourceCapability {
            class: ResourceClass::Sandbox,
            lifecycle: sandbox_lifecycle(),
            capacity: ResourceQuota { max_cpu_millis: 2_000, max_memory_mib: 4_096, max_disk_mib: 20_480 },
        },
        ResourceCapability {
            class: ResourceClass::RemoteDesktop,
            lifecycle: sandbox_lifecycle(),
            capacity: ResourceQuota { max_cpu_millis: 1_000, max_memory_mib: 2_048, max_disk_mib: 10_240 },
        },
    ]
}

/// Whether the fixture serves a class.
pub open spec fn sandbox_serves(class: ResourceClass) -> bool {
    class is Sandbox || class is RemoteDesktop
}

/// The detail reported while the fixture is in an injected outage.
pub open spec fn outage_detail() -> Seq<char> {
    "sandbox cloud fixture is in an injected outage"@
}

/// The detail journaled with every ordinary transition.
pub open spec fn sandbox_transition_detail() -> Seq<char> {
    "cloud-style ephemeral transition"@
}

/// The payload journaled when the live capacity is exhausted.
pub open spec fn capacity_payload(max_live: u64) -> Seq<u8> {
    json_object(
        seq![("provider"@, sandbox_provider()), ("fact"@, "capacity_exhausted"@)],
        seq![("maxLive"@, max_live)],
    )
}

/// The payload journaled for a snapshot.
pub open spec fn snapshot_payload(resource: Seq<char>, class: ResourceClass, artifact: Seq<char>) -> Seq<u8> {
    json_object(
        seq![
            ("provider"@, sandbox_provider()),
            ("fact"@, "resource_snapshot"@),
            ("resource"@, resource),
            ("class"@, class_name(class)),
            ("artifact"@, artifact),
        ],
        Seq::empty(),
    )
}

/// One sandbox in the fixture's resource table.
pub struct LiveSandbox {
    /// The class it was provisioned as.
    pub class: ResourceClass,
    /// Its current status.
    pub status: ResourceStatus,
    /// The spec it was provisioned from.
    pub spec: ResourceSpec,
}

/// Number of live (active or paused) sandboxes among the first `k`
/// entries.
pub open spec fn live_sandboxes(m: KeyedMap<LiveSandbox>, k: int) -> nat
    decreases k,
{
    if k <= 0 {
        0
    } else {
        live_sandboxes(m, k - 1) + if status_bindable(m.value(k - 1).status) { 1nat } else { 0nat }
    }
}

/// The keys of the live (active or paused) sandboxes of a table.
pub open spec fn live_keys(m: KeyedMap<LiveSandbox>) -> Set<Seq<char>> {
    Set::new(|k: Seq<char>| m.contains(k) && status_bindable(m.lookup(k).unwrap().status))
}

/// The keys of the live sandboxes among the first `k` entries.
spec fn live_prefix(m: KeyedMap<LiveSandbox>, k: int) -> Set<Seq<char>> {
    Set::new(|x: Seq<char>| exists|i: int| 0 <= i < k && #[trigger] m.key(i) == x && status_bindable(m.value(i).status))
}

proof fn lemma_live_prefix(m: KeyedMap<LiveSandbox>, k: int)
    requires
        m.wf(),
        0 <= k <= m.len(),
    ensures
        live_prefix(m, k).finite(),
        live_prefix(m, k).len() == live_sandboxes(m, k),
    decreases k,
{
    if k == 0 {
        assert(live_prefix(m, 0) =~= Set::empty());
    } else {
        lemma_live_prefix(m, k - 1);
        let x = m.key(k - 1);
        if status_bindable(m.value(k - 1).status) {
            assert(live_prefix(m, k) =~= live_prefix(m, k - 1).insert(x));
            if live_prefix(m, k - 1).contains(x) {
                let i = choose|i: int| 0 <= i < k - 1 && #[trigger] m.key(i) == x && status_bindable(m.value(i).status);
                assert(crate::text::key_lt(m.key(i), m.key(k - 1)));
                lemma_key_irreflexive(x);
            }
        } else {
            assert forall|y: Seq<char>| live_prefix(m, k).contains(y) implies live_prefix(m, k - 1).contains(y) by {
                let i = choose|i: int| 0 <= i < k && #[trigger] m.key(i) == y && status_bindable(m.value(i).status);
                assert(i != k - 1);
            }
            assert(live_prefix(m, k) =~= live_prefix(m, k - 1));
        }
    }
}

/// In an ordered table, the live count is the number of live keys.
pub proof fn lemma_live_count_is_live_keys(m: KeyedMap<LiveSandbox>)
    requires
        m.wf(),
    ensures
        live_keys(m).finite(),
        live_keys(m).len() == live_sandboxes(m, m.len() as int),
{
    lemma_live_prefix(m, m.len() as int);
    assert forall|x: Seq<char>| live_keys(m).contains(x) <==> live_prefix(m, m.len() as int).contains(x) by {
        if live_keys(m).contains(x) {
            let i = m.index_of(x);
            m.lemma_unique_position(i, x);
        }
        if live_prefix(m, m.len() as int).contains(x) {
            let i = choose|i: int| 0 <= i < m.len() && #[trigger] m.key(i) == x && status_bindable(m.value(i).status);
            m.lemma_unique_position(i, x);
        }
    }
    assert(live_keys(m) =~= live_prefix(m, m.len() as int));
}

/// The ephemeral sandbox cloud fixture provider.
pub struct SandboxCloudFixture {
    descriptor: ProviderDescriptor,
    max_live: usize,
    outage: bool,
    next_id: u64,
    next_snapshot: u64,
    resources: KeyedMap<LiveSandbox>,
    journal: ResourceEvidenceJournal,
    answered: Ghost<Seq<ProviderAnswer>>,
}

impl SandboxCloudFixture {
    /// The declaration.
    pub closed spec fn spec_descriptor(&self) -> ProviderDescriptor {
        self.descriptor
    }

    /// The live-capacity ceiling.
    pub closed spec fn spec_max_live(&self) -> usize {
        self.max_live
    }

    /// Whether an outage is injected.
    pub closed spec fn spec_outage(&self) -> bool {
        self.outage
    }

    /// The position of the next minted resource id.
    pub closed spec fn spec_next_id(&self) -> u64 {
        self.next_id
    }

    /// The position of the next snapshot artifact.
    pub closed spec fn spec_next_snapshot(&self) -> u64 {
        self.next_snapshot
    }

    /// The resource table.
    pub closed spec fn spec_resources(&self) -> KeyedMap<LiveSandbox> {
        self.resources
    }

    /// The journal records so far, as plain values.
    pub closed spec fn spec_journal(&self) -> Seq<(Seq<char>, Seq<char>, EvidenceKind, Seq<u8>)> {
        self.journal.spec_records()
    }

    /// The answers given to state-changing provider calls so far.
    pub closed spec fn spec_answered(&self) -> Seq<ProviderAnswer> {
        self.answered@
    }

    /// `self` holds the same resources, counters, journal and declaration
    /// as `other`, whatever answers each has given.
    pub open spec fn same_state(&self, other: &Self) -> bool {
        &&& self.spec_descriptor() == other.spec_descriptor()
        &&& self.spec_max_live() == other.spec_max_live()
        &&& self.spec_outage() == other.spec_outage()
        &&& self.spec_next_id() == other.spec_next_id()
        &&& self.spec_next_snapshot() == other.spec_next_snapshot()
        &&& self.spec_resources() == other.spec_resources()
        &&& self.spec_journal() == other.spec_journal()
    }

    /// The fixture's invariant: its declaration is fixed, the tables are
    /// ordered, every resource id was minted before `next_id`, every
    /// resource is of a served class, and every recorded spec has ordered
    /// labels.
    pub closed spec fn wf(&self) -> bool {
        &&& self.resources.wf()
        &&& self.journal.wf()
        &&& self.journal.spec_provider() == sandbox_provider()
        &&& self.descriptor.provider.spec_str() == sandbox_provider()
        &&& self.descriptor.capabilities@ == sandbox_capabilities()
        &&& forall|k: Seq<char>| #[trigger] self.resources.contains(k) ==> exists|j: nat| j < self.next_id && k == sandbox_id(j)
        &&& forall|k: Seq<char>| #[trigger] self.resources.contains(k) ==> sandbox_serves(self.resources.lookup(k).unwrap().class)
        &&& forall|k: Seq<char>| #[trigger] self.resources.contains(k) ==> self.resources.lookup(k).unwrap().spec.labels.wf()
    }

    /// The counters can advance without overflow.
    pub open spec fn has_room(&self) -> bool {
        &&& self.spec_next_id() < u64::MAX
        &&& self.spec_next_snapshot() < u64::MAX
        &&& self.spec_journal().len() + 1 < u64::MAX
    }

    /// The number of live sandboxes.
    pub open spec fn spec_live_count(&self) -> nat {
        live_sandboxes(self.spec_resources(), self.spec_resources().len() as int)
    }

    /// The status of a resource the fixture knows.
    pub open spec fn spec_status_of(&self, id: Seq<char>) -> Option<ResourceStatus> {
        if self.spec_resources().contains(id) {
            Some(self.spec_resources().lookup(id).unwrap().status)
        } else {
            None
        }
    }

    /// The class of a resource the fixture knows.
    pub open spec fn spec_class_of(&self, id: Seq<char>) -> ResourceClass {
        self.spec_resources().lookup(id).unwrap().class
    }

    /// The handle names a resource of this fixture.
    pub open spec fn owns(&self, handle: ResourceHandle) -> bool {
        handle.provider.spec_str() == sandbox_provider() && self.spec_resources().contains(handle.resource@)
    }

    /// Creates the fixture allowing at most `max_live` live resources.
    pub fn new(max_live: usize) -> (r: Result<Self, ResourceProviderError>)
        ensures
            r matches Ok(f) && f.wf() && f.spec_max_live() == max_live && !f.spec_outage() && f.spec_next_id() == 0
                && f.spec_next_snapshot() == 0 && f.spec_resources().len() == 0 && f.spec_journal().len() == 0
                && f.spec_descriptor().capabilities@ == sandbox_capabilities()
                && f.spec_descriptor().provider.spec_str() == sandbox_provider(),
    {
        let id = match ProviderId::parse(String::from_str(SANDBOX_CLOUD_PROVIDER_ID)) {
            Ok(id) => id,
            Err(e) => {
                proof {
                    reveal_strlit("fixture-sandbox-cloud");
                    assert(crate::providers::model::valid_name_segment("fixture-sandbox-cloud"@));
                }
                return Err(e);
            },
        };
        let lifecycle = ResourceLifecycleSupport::none().with_create().with_pause_resume().with_snapshot().with_fork().with_network_policy();
        let mut capabilities: Vec<ResourceCapability> = Vec::new();
        capabilities.push(ResourceCapability {
            class: ResourceClass::Sandbox,
            lifecycle,
            capacity: ResourceQuota { max_cpu_millis: 2_000, max_memory_mib: 4_096, max_disk_mib: 20_480 },
        });
        capabilities.push(ResourceCapability {
            class: ResourceClass::RemoteDesktop,
            lifecycle,
            capacity: ResourceQuota { max_cpu_millis: 1_000, max_memory_mib: 2_048, max_disk_mib: 10_240 },
        });
        assert(capabilities@ =~= sandbox_capabilities());
        let mut regions: Vec<String> = Vec::new();
        regions.push(String::from_str("us-east-1"));
        regions.push(String::from_str("eu-west-1"));
        let descriptor = ProviderDescriptor {
            provider: id,
            capabilities,
            health: ProviderHealth {
                status: ProviderHealthStatus::Healthy,
                detail: Some(String::from_str("ephemeral sandbox cloud fixture")),
                latency_ms: Some(42),
            },
            regions,
            cost: Some(CostMetadata { currency: String::from_str("usd"), per_hour_micros: 3_600_000 }),
        };
        let f = SandboxCloudFixture {
            descriptor,
            max_live,
            outage: false,
            next_id: 0,
            next_snapshot: 0,
            resources: KeyedMap::new(),
            answered: Ghost(Seq::empty()),
            journal: ResourceEvidenceJournal::new(String::from_str(SANDBOX_CLOUD_PROVIDER_ID)),
        };
        Ok(f)
    }

    /// The provider's registration declaration.
    pub fn descriptor(&self) -> (r: &ProviderDescriptor)
        ensures
            *r == self.spec_descriptor(),
    {
        &self.descriptor
    }

    /// Puts the fixture's endpoint into (or out of) an outage.
    pub fn set_outage(&mut self, outage: bool)
        requires
            old(self).wf(),
        ensures
            final(self).wf(),
            final(self).spec_outage() == outage,
            final(self).spec_resources() == old(self).spec_resources(),
            final(self).spec_journal() == old(self).spec_journal(),
            final(self).spec_next_id() == old(self).spec_next_id(),
            final(self).spec_next_snapshot() == old(self).spec_next_snapshot(),
            final(self).spec_max_live() == old(self).spec_max_live(),
            final(self).spec_descriptor() == old(self).spec_descriptor(),
    {
        self.outage = outage;
    }

    /// Probes the provider's health: the declared health, or an explicit
    /// `Unreachable` failure during an outage.
    pub fn probe(&self) -> (r: Result<ProviderHealth, ResourceProviderError>)
        requires
            self.wf(),
        ensures
            self.spec_outage() ==> {
                &&& r matches Err(ResourceProviderError::Unreachable { provider, detail })
                &&& provider.spec_str() == sandbox_provider()
                &&& detail@ == outage_detail()
            },
            !self.spec_outage() ==> r == Ok::<ProviderHealth, ResourceProviderError>(self.spec_descriptor().health),
    {
        if self.outage {
            return Err(ResourceProviderError::Unreachable {
                provider: self.descriptor.provider.duplicate(),
                detail: String::from_str("sandbox cloud fixture is in an injected outage"),
            });
        }
        let health = &self.descriptor.health;
        Ok(ProviderHealth { status: health.status, detail: clone_opt(&health.detail), latency_ms: health.latency_ms })
    }

    /// `r` is what `probe` answers: an explicit `Unreachable` failure
    /// during an outage, the declared health otherwise.
    pub open spec fn probe_answered(&self, r: Result<ProviderHealth, ResourceProviderError>) -> bool {
        &&& self.spec_outage() ==> {
            &&& r matches Err(ResourceProviderError::Unreachable { provider, detail })
            &&& provider.spec_str() == sandbox_provider()
            &&& detail@ == outage_detail()
        }
        &&& !self.spec_outage() ==> r == Ok::<ProviderHealth, ResourceProviderError>(self.spec_descriptor().health)
    }

    /// Number of resources currently live (active or paused).
    pub fn live_count(&self) -> (r: usize)
        ensures
            r == self.spec_live_count(),
    {
        let n = self.resources.size();
        let mut count: usize = 0;
        let mut i: usize = 0;
        while i < n
            invariant
                n == self.resources.len(),
                i <= n,
                count == live_sandboxes(self.resources, i as int),
                count <= i,
            decreases n - i,
        {
            if self.resources.value_at(i).status.is_bindable() {
                count += 1;
            }
            i += 1;
        }
        count
    }

    /// Injects the loss of one resource: its status becomes `Lost` and the
    /// loss is journaled. Unknown resources are left alone.
    pub fn lose_resource(&mut self, resource: &String)
        requires
            old(self).wf(),
            old(self).has_room(),
        ensures
            final(self).wf(),
            final(self).spec_outage() == old(self).spec_outage(),
            final(self).spec_next_id() == old(self).spec_next_id(),
            final(self).spec_next_snapshot() == old(self).spec_next_snapshot(),
            final(self).spec_max_live() == old(self).spec_max_live(),
            final(self).spec_descriptor() == old(self).spec_descriptor(),
            !old(self).spec_resources().contains(resource@) ==> final(self).spec_resources() == old(self).spec_resources()
                && final(self).spec_journal() == old(self).spec_journal(),
            old(self).spec_resources().contains(resource@) ==> {
                &&& forall|k: Seq<char>| #[trigger] final(self).spec_status_of(k) == if k == resource@ {
                    Some(ResourceStatus::Lost)
                } else {
                    old(self).spec_status_of(k)
                }
                &&& final(self).spec_resources().contains(resource@)
                &&& final(self).spec_class_of(resource@) == old(self).spec_class_of(resource@)
                &&& final(self).spec_journal() == old(self).spec_journal().push(journal_entry(
                    sandbox_provider(),
                    old(self).spec_journal().len(),
                    EvidenceKind::Recovery,
                    transition_payload(sandbox_provider(), resource@, old(self).spec_class_of(resource@), "lost"@, "resource evicted by the fixture"@),
                ))
            },
    {
        let pos = self.resources.position(resource);
        match pos {
            None => {},
            Some(p) => {
                proof {
                    self.resources.lemma_unique_position(p as int, resource@);
                }
                let class = self.resources.value_at(p).class;
                let spec = self.resources.value_at(p).spec.duplicate();
                let ghost before = self.resources;
                self.resources.insert(resource.clone(), LiveSandbox { class, status: ResourceStatus::Lost, spec });
                let payload = transition_payload_bytes(
                    SANDBOX_CLOUD_PROVIDER_ID,
                    resource.as_str(),
                    class,
                    "lost",
                    "resource evicted by the fixture",
                );
                journal_payload(&mut self.journal, EvidenceKind::Recovery, payload);
                proof {
                    reveal_strlit("fixture-sandbox-cloud");
                    before.lemma_unique_position(p as int, resource@);
                    self.lemma_wf_after_insert(before, resource@);
                }
            },
        }
    }

    /// The frame every state-changing operation keeps.
    pub open spec fn same_frame(&self, other: &Self) -> bool {
        &&& self.spec_outage() == other.spec_outage()
        &&& self.spec_max_live() == other.spec_max_live()
        &&& self.spec_descriptor() == other.spec_descriptor()
    }

    fn mint_id(&mut self) -> (id: String)
        requires
            old(self).wf(),
            old(self).spec_next_id() < u64::MAX,
        ensures
            id@ == sandbox_id(old(self).spec_next_id() as nat),
            final(self).spec_next_id() == old(self).spec_next_id() + 1,
            final(self).spec_next_snapshot() == old(self).spec_next_snapshot(),
            final(self).spec_resources() == old(self).spec_resources(),
            final(self).spec_journal() == old(self).spec_journal(),
            final(self).same_frame(old(self)),
            final(self).wf(),
            !final(self).spec_resources().contains(id@),
    {
        let mut id = String::from_str("sbx-");
        push_decimal_pad4(&mut id, self.next_id);
        proof {
            reveal_strlit("sbx-");
            assert(id@ =~= sandbox_id(self.next_id as nat));
            if self.resources.contains(id@) {
                let j = choose|j: nat| j < self.next_id && id@ == sandbox_id(j);
                lemma_sandbox_id_injective(j, self.next_id as nat);
            }
        }
        self.next_id = self.next_id + 1;
        proof {
            assert forall|k: Seq<char>| #[trigger] self.resources.contains(k) implies exists|j: nat| j < self.next_id && k == sandbox_id(j) by {
                let j = choose|j: nat| j < old(self).next_id && k == sandbox_id(j);
                assert(j < self.next_id);
            }
        }
        id
    }

    /// `self` is `prev` after `create(spec)` answered `r`: during an
    /// outage, or for an invalid spec, an unserved class or a GPU request,
    /// the fixture is unchanged and the refusal names the first failed
    /// check; at the live-capacity ceiling the refusal is journaled; a
    /// success mints the next sandbox id, records the spec and journals the
    /// transition.
    pub open spec fn create_answered(&self, prev: &Self, spec: ResourceSpec, r: Result<ResourceHandle, ResourceProviderError>) -> bool {
        let admitted = !prev.spec_outage() && spec_error(spec) is None && sandbox_serves(spec.class) && spec.gpu is None;
        &&& prev.spec_outage() ==> {
            &&& r matches Err(ResourceProviderError::Unreachable { provider, detail })
            &&& provider.spec_str() == sandbox_provider()
            &&& detail@ == outage_detail()
            &&& self.same_state(prev)
        }
        &&& !prev.spec_outage() && spec_error(spec) is Some ==> {
            &&& r matches Err(ResourceProviderError::InvalidSpec { reason })
            &&& spec_error(spec) == Some(reason@)
            &&& self.same_state(prev)
        }
        &&& !prev.spec_outage() && spec_error(spec) is None && !sandbox_serves(spec.class) ==> {
            &&& r matches Err(ResourceProviderError::InvalidSpec { reason })
            &&& reason@ == "provider `"@ + sandbox_provider() + "` does not serve resource class `"@ + class_name(spec.class) + "`"@
            &&& self.same_state(prev)
        }
        &&& !prev.spec_outage() && spec_error(spec) is None && sandbox_serves(spec.class) && spec.gpu is Some ==> {
            &&& r matches Err(ResourceProviderError::InvalidSpec { reason })
            &&& reason@ == "provider `"@ + sandbox_provider() + "` does not serve GPU specs for class `"@ + class_name(spec.class) + "`"@
            &&& self.same_state(prev)
        }
        &&& admitted && prev.spec_live_count() >= prev.spec_max_live() ==> {
            &&& r matches Err(ResourceProviderError::CapacityExhausted { provider, detail })
            &&& provider.spec_str() == sandbox_provider()
            &&& detail@ == "at most "@ + decimal(prev.spec_max_live() as nat) + " live resources"@
            &&& self.spec_resources() == prev.spec_resources()
            &&& self.spec_next_id() == prev.spec_next_id()
            &&& self.spec_journal() == prev.spec_journal().push(
                journal_entry(sandbox_provider(), prev.spec_journal().len(), EvidenceKind::Recovery, capacity_payload(prev.spec_max_live() as u64)),
            )
        }
        &&& admitted && prev.spec_live_count() < prev.spec_max_live() ==> {
            let id = sandbox_id(prev.spec_next_id() as nat);
            &&& r matches Ok(h)
            &&& h.resource@ == id
            &&& h.class == spec.class
            &&& h.provider.spec_str() == sandbox_provider()
            &&& h.status is Active
            &&& !prev.spec_resources().contains(id)
            &&& self.spec_next_id() == prev.spec_next_id() + 1
            &&& self.spec_resources().lookup(id) == Some(LiveSandbox { class: spec.class, status: ResourceStatus::Active, spec })
            &&& forall|k: Seq<char>| k != id ==> #[trigger] self.spec_resources().lookup(k) == prev.spec_resources().lookup(k)
            &&& self.spec_journal() == prev.spec_journal().push(journal_entry(
                sandbox_provider(),
                prev.spec_journal().len(),
                EvidenceKind::Artifact,
                transition_payload(sandbox_provider(), id, spec.class, "created"@, sandbox_transition_detail()),
            ))
        }
    }

    /// Provisions one resource from a spec: rejected during an outage, for
    /// an invalid spec, an unserved class, an undeclared feature, or when
    /// the live capacity is exhausted (journaled); otherwise a fresh id is
    /// minted and the new active sandbox is journaled.
    pub fn create(&mut self, spec: ResourceSpec) -> (r: Result<ResourceHandle, ResourceProviderError>)
        requires
            old(self).wf(),
            old(self).has_room(),
            spec.labels.wf(),
        ensures
            final(self).wf(),
            final(self).same_frame(old(self)),
            final(self).spec_next_snapshot() == old(self).spec_next_snapshot(),
            final(self).create_answered(old(self), spec, r),
    {
        proof {
            reveal_strlit("fixture-sandbox-cloud");
        }
        if self.outage {
            return Err(ResourceProviderError::Unreachable {
                provider: self.descriptor.provider.duplicate(),
                detail: String::from_str("sandbox cloud fixture is in an injected outage"),
            });
        }
        match spec.validate() {
            Err(e) => {
                return Err(e);
            },
            Ok(()) => {},
        }
        let class = spec.class;
        let capability = match self.descriptor.capability_for(class) {
            Some(c) => *c,
            None => {
                let mut reason = String::from_str("provider `");
                reason.append(self.descriptor.provider.as_str());
                reason.append("` does not serve resource class `");
                reason.append(class.as_str());
                reason.append("`");
                return Err(ResourceProviderError::InvalidSpec { reason });
            },
        };
        proof {
            assert(sandbox_capabilities()[0].class is Sandbox);
            assert(sandbox_capabilities()[1].class is RemoteDesktop);
            assert(capability.lifecycle == sandbox_lifecycle());
        }
        if !capability.lifecycle.network_policy && spec.network.is_some() {
            let mut reason = String::from_str("provider `");
            reason.append(self.descriptor.provider.as_str());
            reason.append("` does not accept network policy input for class `");
            reason.append(class.as_str());
            reason.append("`");
            return Err(ResourceProviderError::InvalidSpec { reason });
        }
        if !capability.lifecycle.gpu && spec.gpu.is_some() {
            let mut reason = String::from_str("provider `");
            reason.append(self.descriptor.provider.as_str());
            reason.append("` does not serve GPU specs for class `");
            reason.append(class.as_str());
            reason.append("`");
            return Err(ResourceProviderError::InvalidSpec { reason });
        }
        if self.live_count() >= self.max_live {
            let mut texts: Vec<(String, String)> = Vec::new();
            texts.push((String::from_str("provider"), String::from_str(SANDBOX_CLOUD_PROVIDER_ID)));
            texts.push((String::from_str("fact"), String::from_str("capacity_exhausted")));
            let mut counts: Vec<(String, u64)> = Vec::new();
            counts.push((String::from_str("maxLive"), self.max_live as u64));
            proof {
                assert(text_fields(texts@) =~= seq![("provider"@, sandbox_provider()), ("fact"@, "capacity_exhausted"@)]);
                assert(count_fields(counts@) =~= seq![("maxLive"@, self.max_live as u64)]);
            }
            let payload = json_object_bytes(&texts, &counts);
            journal_payload(&mut self.journal, EvidenceKind::Recovery, payload);
            let mut detail = String::from_str("at most ");
            push_decimal(&mut detail, self.max_live as u64);
            detail.append(" live resources");
            return Err(ResourceProviderError::CapacityExhausted { provider: self.descriptor.provider.duplicate(), detail });
        }
        let id = self.mint_id();
        let ghost before = self.resources;
        self.resources.insert(id.clone(), LiveSandbox { class, status: ResourceStatus::Active, spec });
        proof {
            self.lemma_wf_after_insert(before, id@);
        }
        let payload = transition_payload_bytes(SANDBOX_CLOUD_PROVIDER_ID, id.as_str(), class, "created", "cloud-style ephemeral transition");
        journal_payload(&mut self.journal, EvidenceKind::Artifact, payload);
        Ok(ResourceHandle {
            resource: id,
            class,
            provider: self.descriptor.provider.duplicate(),
            status: ResourceStatus::Active,
        })
    }

    /// `self` is `prev` with one journal entry appended.
    pub open spec fn journaled(&self, prev: &Self, kind: EvidenceKind, payload: Seq<u8>) -> bool {
        self.spec_journal() == prev.spec_journal().push(journal_entry(sandbox_provider(), prev.spec_journal().len(), kind, payload))
    }

    /// `self` is `prev` with the status of `id` set to `status`, every
    /// other resource and every class unchanged.
    pub open spec fn status_set(&self, prev: &Self, id: Seq<char>, status: ResourceStatus) -> bool {
        &&& forall|k: Seq<char>| #[trigger] self.spec_status_of(k) == if k == id { Some(status) } else { prev.spec_status_of(k) }
        &&& forall|k: Seq<char>| k != id ==> #[trigger] self.spec_resources().lookup(k) == prev.spec_resources().lookup(k)
        &&& self.spec_resources().contains(id)
        &&& self.spec_class_of(id) == prev.spec_class_of(id)
        &&& self.spec_next_id() == prev.spec_next_id()
        &&& self.spec_next_snapshot() == prev.spec_next_snapshot()
    }

    /// `self` is `prev` with a fresh active resource of `class` minted
    /// under the next id.
    pub open spec fn minted(&self, prev: &Self, class: ResourceClass) -> bool {
        let id = sandbox_id(prev.spec_next_id() as nat);
        &&& !prev.spec_resources().contains(id)
        &&& self.spec_next_id() == prev.spec_next_id() + 1
        &&& self.spec_next_snapshot() == prev.spec_next_snapshot()
        &&& self.spec_status_of(id) == Some(ResourceStatus::Active)
        &&& self.spec_class_of(id) == class
        &&& forall|k: Seq<char>| k != id ==> #[trigger] self.spec_resources().lookup(k) == prev.spec_resources().lookup(k)
    }

    /// Looks up the resource a handle names, rejecting foreign or unknown
    /// handles as lost.
    fn require_owned(&self, handle: &ResourceHandle) -> (r: Result<usize, ResourceProviderError>)
        requires
            self.wf(),
        ensures
            self.owns(*handle) ==> (r matches Ok(p) && p < self.spec_resources().len()
                && self.spec_resources().key(p as int) == handle.resource@
                && self.spec_resources().lookup(handle.resource@) == Some(self.spec_resources().value(p as int))),
            !self.owns(*handle) ==> {
                &&& r matches Err(ResourceProviderError::ResourceLost { provider, resource })
                &&& provider.spec_str() == sandbox_provider()
                &&& resource@ == handle.resource@
            },
    {
        if !same_provider(&handle.provider, &self.descriptor.provider) {
            return Err(resource_lost(&self.descriptor.provider, &handle.resource));
        }
        match self.resources.position(&handle.resource) {
            Some(p) => {
                proof {
                    self.resources.lemma_unique_position(p as int, handle.resource@);
                }
                Ok(p)
            },
            None => Err(resource_lost(&self.descriptor.provider, &handle.resource)),
        }
    }

    /// The status of the resource a handle names.
    pub fn status(&self, handle: &ResourceHandle) -> (r: Result<ResourceStatus, ResourceProviderError>)
        requires
            self.wf(),
        ensures
            self.owns(*handle) ==> r == Ok::<ResourceStatus, ResourceProviderError>(self.spec_status_of(handle.resource@).unwrap()),
            !self.owns(*handle) ==> {
                &&& r matches Err(ResourceProviderError::ResourceLost { provider, resource })
                &&& provider.spec_str() == sandbox_provider()
                &&& resource@ == handle.resource@
            },
    {
        match self.require_owned(handle) {
            Ok(p) => Ok(self.resources.value_at(p).status),
            Err(e) => Err(e),
        }
    }

    fn set_status(&mut self, p: usize, id: &String, status: ResourceStatus) -> (class: ResourceClass)
        requires
            old(self).wf(),
            p < old(self).spec_resources().len(),
            old(self).spec_resources().key(p as int) == id@,
        ensures
            final(self).wf(),
            final(self).same_frame(old(self)),
            final(self).status_set(old(self), id@, status),
            final(self).spec_journal() == old(self).spec_journal(),
            class == old(self).spec_class_of(id@),
    {
        proof {
            self.resources.lemma_unique_position(p as int, id@);
        }
        let class = self.resources.value_at(p).class;
        let spec = self.resources.value_at(p).spec.duplicate();
        let ghost before = self.resources;
        self.resources.insert(id.clone(), LiveSandbox { class, status, spec });
        proof {
            self.lemma_wf_after_insert(before, id@);
        }
        class
    }

    /// Releases the resource a handle names: its status becomes `Released`
    /// and the transition is journaled.
    pub fn release(&mut self, handle: &ResourceHandle) -> (r: Result<ResourceHandle, ResourceProviderError>)
        requires
            old(self).wf(),
            old(self).has_room(),
        ensures
            final(self).wf(),
            final(self).same_frame(old(self)),
            !old(self).owns(*handle) ==> {
                &&& r matches Err(ResourceProviderError::ResourceLost { provider, resource })
                &&& provider.spec_str() == sandbox_provider()
                &&& resource@ == handle.resource@
                &&& *final(self) == *old(self)
            },
            old(self).owns(*handle) ==> {
                let class = old(self).spec_class_of(handle.resource@);
                &&& r matches Ok(h)
                &&& h.resource@ == handle.resource@
                &&& h.class == class
                &&& h.provider.spec_str() == sandbox_provider()
                &&& h.status is Released
                &&& final(self).status_set(old(self), handle.resource@, ResourceStatus::Released)
                &&& final(self).journaled(old(self), EvidenceKind::Artifact,
                    transition_payload(sandbox_provider(), handle.resource@, class, "released"@, sandbox_transition_detail()))
            },
    {
        proof {
            reveal_strlit("fixture-sandbox-cloud");
        }
        let p = match self.require_owned(handle) {
            Ok(p) => p,
            Err(e) => {
                return Err(e);
            },
        };
        let class = self.set_status(p, &handle.resource, ResourceStatus::Released);
        let ghost mid = *self;
        let payload = transition_payload_bytes(SANDBOX_CLOUD_PROVIDER_ID, handle.resource.as_str(), class, "released", "cloud-style ephemeral transition");
        journal_payload(&mut self.journal, EvidenceKind::Artifact, payload);
        proof {
            assert forall|k: Seq<char>| #[trigger] self.spec_status_of(k) == mid.spec_status_of(k) by {}
        }
        Ok(ResourceHandle {
            resource: handle.resource.clone(),
            class,
            provider: self.descriptor.provider.duplicate(),
            status: ResourceStatus::Released,
        })
    }

    /// The evidence records journaled so far, oldest first.
    pub fn evidence_records(&self) -> (r: Vec<ResourceEvidenceRecord>)
        ensures
            r@.map_values(|x: ResourceEvidenceRecord| record_view(x)) == self.spec_journal(),
            self.wf() ==> evidence_identified(sandbox_provider(), self.spec_journal()),
    {
        copy_records(self.journal.records())
    }

    /// How many more state-changing operations the fixture can take.
    pub open spec fn spec_headroom(&self) -> nat {
        let ids = u64::MAX - 1 - self.spec_next_id();
        let snapshots = u64::MAX - 1 - self.spec_next_snapshot();
        let records = u64::MAX - 2 - self.spec_journal().len();
        let least = if ids < snapshots { ids } else { snapshots };
        let least = if least < records { least } else { records };
        if least < 0 { 0 } else { least as nat }
    }

    /// `self` is `prev` after `lifecycle(handle, op)` answered `r`: a
    /// refusal leaves the fixture unchanged and names the first check that
    /// failed; `Create` and `Fork` mint the next id, `Pause` and `Resume`
    /// set the status, and `Snapshot` mints the next artifact, each
    /// journaled.
    pub open spec fn lifecycle_answered(&self, prev: &Self, handle: ResourceHandle, op: LifecycleOp, r: Result<LifecycleOutcome, ResourceProviderError>) -> bool {
        &&& r is Err ==> self.same_state(prev)
        &&& (op matches LifecycleOp::Resize(req) && crate::providers::provider::resize_error(req) is Some) ==> {
            &&& r matches Err(ResourceProviderError::InvalidSpec { reason })
            &&& op matches LifecycleOp::Resize(req) && crate::providers::provider::resize_error(req) == Some(reason@)
        }
        &&& !(op matches LifecycleOp::Resize(req) && crate::providers::provider::resize_error(req) is Some) ==> {
            let id = handle.resource@;
            let class = prev.spec_class_of(id);
            let live = prev.spec_status_of(id);
            &&& !prev.owns(handle) ==> {
                &&& r matches Err(ResourceProviderError::ResourceLost { provider, resource })
                &&& provider.spec_str() == sandbox_provider()
                &&& resource@ == id
            }
            &&& prev.owns(handle) && !supports_op(sandbox_lifecycle(), op) ==> {
                &&& r matches Err(ResourceProviderError::Unsupported { provider, operation })
                &&& provider.spec_str() == sandbox_provider()
                &&& operation == op
            }
            &&& prev.owns(handle) && supports_op(sandbox_lifecycle(), op) && !(op is Create)
                && !status_bindable(live.unwrap()) ==> {
                &&& r matches Err(ResourceProviderError::ResourceLost { provider, resource })
                &&& provider.spec_str() == sandbox_provider()
                &&& resource@ == id
            }
            &&& prev.owns(handle) && (op is Create || (op is Fork && status_bindable(live.unwrap()))) ==> {
                let fresh = sandbox_id(prev.spec_next_id() as nat);
                &&& r matches Ok(LifecycleOutcome::Transitioned(h))
                &&& h.resource@ == fresh
                &&& h.class == class
                &&& h.provider.spec_str() == sandbox_provider()
                &&& h.status is Active
                &&& self.minted(prev, class)
                &&& self.spec_resources().lookup(fresh).unwrap().spec.spec_view()
                    == prev.spec_resources().lookup(id).unwrap().spec.spec_view()
                &&& self.journaled(prev, EvidenceKind::Artifact, transition_payload(
                    sandbox_provider(), fresh, class, if op is Create { "recreated"@ } else { "forked"@ }, sandbox_transition_detail()))
            }
            &&& prev.owns(handle) && status_bindable(live.unwrap()) && (op is Pause || op is Resume) ==> {
                let status = if op is Pause { ResourceStatus::Paused } else { ResourceStatus::Active };
                &&& r matches Ok(LifecycleOutcome::Transitioned(h))
                &&& h.resource@ == id
                &&& h.class == class
                &&& h.provider.spec_str() == sandbox_provider()
                &&& h.status == status
                &&& self.status_set(prev, id, status)
                &&& self.journaled(prev, EvidenceKind::Artifact, transition_payload(
                    sandbox_provider(), id, class, if op is Pause { "paused"@ } else { "resumed"@ }, sandbox_transition_detail()))
            }
            &&& prev.owns(handle) && status_bindable(live.unwrap()) && op is Snapshot ==> {
                let artifact = snapshot_artifact(prev.spec_next_snapshot() as nat);
                &&& r matches Ok(LifecycleOutcome::Snapshotted(snap))
                &&& snap.resource@ == id
                &&& snap.artifact@ == artifact
                &&& self.spec_resources() == prev.spec_resources()
                &&& self.spec_next_id() == prev.spec_next_id()
                &&& self.spec_next_snapshot() == prev.spec_next_snapshot() + 1
                &&& self.journaled(prev, EvidenceKind::Artifact, snapshot_payload(id, class, artifact))
            }
        }
    }

    /// Dispatches one lifecycle operation on the resource a handle names.
    ///
    /// In order: an invalid resize request is rejected; a foreign or
    /// unknown handle is lost; an undeclared operation is `Unsupported`;
    /// any operation but `Create` on a resource that is not live is lost.
    /// Then `Create` and `Fork` mint a fresh active resource of the same
    /// class, `Pause`/`Resume` set the status, and `Snapshot` mints the
    /// next snapshot artifact; each outcome is journaled.
    pub fn lifecycle(&mut self, handle: &ResourceHandle, op: LifecycleOp) -> (r: Result<LifecycleOutcome, ResourceProviderError>)
        requires
            old(self).wf(),
            old(self).has_room(),
        ensures
            final(self).wf(),
            final(self).same_frame(old(self)),
            final(self).lifecycle_answered(old(self), *handle, op, r),
    {
        proof {
            reveal_strlit("fixture-sandbox-cloud");
        }
        match op {
            LifecycleOp::Resize(request) => {
                match request.validate() {
                    Err(e) => {
                        return Err(e);
                    },
                    Ok(()) => {},
                }
            },
            _ => {},
        }
        let p = match self.require_owned(handle) {
            Ok(p) => p,
            Err(e) => {
                return Err(e);
            },
        };
        let class = self.resources.value_at(p).class;
        let status = self.resources.value_at(p).status;
        proof {
            assert(self.resources.contains(handle.resource@));
            assert(sandbox_serves(class));
            assert(sandbox_capabilities()[0].class is Sandbox);
            assert(sandbox_capabilities()[1].class is RemoteDesktop);
        }
        let capability = match self.descriptor.capability_for(class) {
            Some(c) => *c,
            None => {
                return Err(resource_lost(&self.descriptor.provider, &handle.resource));
            },
        };
        proof {
            assert(capability.lifecycle == sandbox_lifecycle());
        }
        if !capability.lifecycle.supports(&op) {
            return Err(ResourceProviderError::Unsupported { provider: self.descriptor.provider.duplicate(), operation: op });
        }
        let is_create = match op {
            LifecycleOp::Create => true,
            _ => false,
        };
        if !is_create && !status.is_bindable() {
            return Err(resource_lost(&self.descriptor.provider, &handle.resource));
        }
        match op {
            LifecycleOp::Create | LifecycleOp::Fork => {
                let spec = self.resources.value_at(p).spec.duplicate();
                let id = self.mint_id();
                let ghost before = self.resources;
                self.resources.insert(id.clone(), LiveSandbox { class, status: ResourceStatus::Active, spec });
                proof {
                    self.lemma_wf_after_insert(before, id@);
                }
                let ghost mid = *self;
                let payload = if is_create {
                    transition_payload_bytes(SANDBOX_CLOUD_PROVIDER_ID, id.as_str(), class, "recreated", "cloud-style ephemeral transition")
                } else {
                    transition_payload_bytes(SANDBOX_CLOUD_PROVIDER_ID, id.as_str(), class, "forked", "cloud-style ephemeral transition")
                };
                journal_payload(&mut self.journal, EvidenceKind::Artifact, payload);
                proof {
                    assert forall|k: Seq<char>| #[trigger] self.spec_status_of(k) == mid.spec_status_of(k) by {}
                }
                Ok(LifecycleOutcome::Transitioned(ResourceHandle {
                    resource: id,
                    class,
                    provider: self.descriptor.provider.duplicate(),
                    status: ResourceStatus::Active,
                }))
            },
            LifecycleOp::Pause | LifecycleOp::Resume => {
                let pause = match op {
                    LifecycleOp::Pause => true,
                    _ => false,
                };
                let new_status = if pause { ResourceStatus::Paused } else { ResourceStatus::Active };
                let _ = self.set_status(p, &handle.resource, new_status);
                let ghost mid = *self;
                let payload = if pause {
                    transition_payload_bytes(SANDBOX_CLOUD_PROVIDER_ID, handle.resource.as_str(), class, "paused", "cloud-style ephemeral transition")
                } else {
                    transition_payload_bytes(SANDBOX_CLOUD_PROVIDER_ID, handle.resource.as_str(), class, "resumed", "cloud-style ephemeral transition")
                };
                journal_payload(&mut self.journal, EvidenceKind::Artifact, payload);
                proof {
                    assert forall|k: Seq<char>| #[trigger] self.spec_status_of(k) == mid.spec_status_of(k) by {}
                }
                Ok(LifecycleOutcome::Transitioned(ResourceHandle {
                    resource: handle.resource.clone(),
                    class,
                    provider: self.descriptor.provider.duplicate(),
                    status: new_status,
                }))
            },
            LifecycleOp::Snapshot => {
                let mut artifact = String::from_str("snap-");
                push_decimal_pad4(&mut artifact, self.next_snapshot);
                proof {
                    reveal_strlit("snap-");
                    assert(artifact@ =~= snapshot_artifact(self.next_snapshot as nat));
                }
                self.next_snapshot = self.next_snapshot + 1;
                let mut texts: Vec<(String, String)> = Vec::new();
                texts.push((String::from_str("provider"), String::from_str(SANDBOX_CLOUD_PROVIDER_ID)));
                texts.push((String::from_str("fact"), String::from_str("resource_snapshot")));
                texts.push((String::from_str("resource"), handle.resource.clone()));
                texts.push((String::from_str("class"), String::from_str(class.as_str())));
                texts.push((String::from_str("artifact"), artifact.clone()));
                proof {
                    assert(text_fields(texts@) =~= seq![
                        ("provider"@, sandbox_provider()),
                        ("fact"@, "resource_snapshot"@),
                        ("resource"@, handle.resource@),
                        ("class"@, class_name(class)),
                        ("artifact"@, artifact@),
                    ]);
                }
                let payload = text_payload(texts);
                journal_payload(&mut self.journal, EvidenceKind::Artifact, payload);
                Ok(LifecycleOutcome::Snapshotted(ResourceSnapshot { resource: handle.resource.clone(), artifact }))
            },
            LifecycleOp::Resize(request) => {
                Err(ResourceProviderError::Unsupported {
                    provider: self.descriptor.provider.duplicate(),
                    operation: LifecycleOp::Resize(request),
                })
            },
        }
    }

    proof fn lemma_wf_after_insert(&self, before: KeyedMap<LiveSandbox>, k0: Seq<char>)
        requires
            before.wf(),
            self.resources.wf(),
            forall|k: Seq<char>| #[trigger] before.contains(k) ==> exists|j: nat| j < self.next_id && k == sandbox_id(j),
            forall|k: Seq<char>| #[trigger] before.contains(k) ==> sandbox_serves(before.lookup(k).unwrap().class),
            exists|j: nat| j < self.next_id && k0 == sandbox_id(j),
            sandbox_serves(self.resources.lookup(k0).unwrap().class),
            forall|k: Seq<char>| #[trigger] before.contains(k) ==> before.lookup(k).unwrap().spec.labels.wf(),
            self.resources.lookup(k0).unwrap().spec.labels.wf(),
            self.resources.contains(k0),
            forall|k: Seq<char>| k != k0 ==> #[trigger] self.resources.lookup(k) == before.lookup(k),
            forall|k: Seq<char>| #[trigger] self.resources.contains(k) <==> (k == k0 || before.contains(k)),
        ensures
            forall|k: Seq<char>| #[trigger] self.resources.contains(k) ==> exists|j: nat| j < self.next_id && k == sandbox_id(j),
            forall|k: Seq<char>| #[trigger] self.resources.contains(k) ==> sandbox_serves(self.resources.lookup(k).unwrap().class),
            forall|k: Seq<char>| #[trigger] self.resources.contains(k) ==> self.resources.lookup(k).unwrap().spec.labels.wf(),
    {
        assert forall|k: Seq<char>| #[trigger] self.resources.contains(k) implies self.resources.lookup(k).unwrap().spec.labels.wf() by {
            if k != k0 {
                assert(before.contains(k));
                assert(self.resources.lookup(k) == before.lookup(k));
            }
        }
        assert forall|k: Seq<char>| #[trigger] self.resources.contains(k) implies sandbox_serves(self.resources.lookup(k).unwrap().class) by {
            if k != k0 {
                assert(before.contains(k));
                assert(self.resources.lookup(k) == before.lookup(k));
            }
        }
        assert forall|k: Seq<char>| #[trigger] self.resources.contains(k) implies exists|j: nat| j < self.next_id && k == sandbox_id(j) by {
            if k != k0 {
                assert(before.contains(k));
            }
        }
    }
}

/// Provisioning moves the live count by exactly what it did: a success
/// raises it by one; a refusal, at the ceiling or earlier, leaves it as it
/// was.
pub proof fn lemma_create_live_count(
    prev: SandboxCloudFixture,
    next: SandboxCloudFixture,
    spec: ResourceSpec,
    r: Result<ResourceHandle, ResourceProviderError>,
)
    requires
        prev.wf(),
        next.wf(),
        next.create_answered(&prev, spec, r),
    ensures
        r is Ok ==> next.spec_live_count() == prev.spec_live_count() + 1,
        r is Err ==> next.spec_live_count() == prev.spec_live_count(),
{
    lemma_live_count_is_live_keys(prev.spec_resources());
    lemma_live_count_is_live_keys(next.spec_resources());
    if r is Ok {
        let id = sandbox_id(prev.spec_next_id() as nat);
        assert(live_keys(next.spec_resources()) =~= live_keys(prev.spec_resources()).insert(id));
    }
}

/// A resource that has settled (released or lost) takes no operation but
/// `Create`: pause, resume, snapshot and fork on it surface the loss and
/// change nothing, fixture and evidence alike; `Create` mints an active
/// resource of its class under an id the fixture never knew.
pub proof fn lemma_settled_resource_only_recreates(
    prev: SandboxCloudFixture,
    next: SandboxCloudFixture,
    handle: ResourceHandle,
    op: LifecycleOp,
    r: Result<LifecycleOutcome, ResourceProviderError>,
)
    requires
        next.lifecycle_answered(&prev, handle, op, r),
        prev.owns(handle),
        handle.class == prev.spec_class_of(handle.resource@),
        !status_bindable(prev.spec_status_of(handle.resource@).unwrap()),
        op is Pause || op is Resume || op is Snapshot || op is Fork || op is Create,
    ensures
        !(op is Create) ==> {
            &&& r matches Err(ResourceProviderError::ResourceLost { provider, resource })
            &&& provider.spec_str() == sandbox_provider()
            &&& resource@ == handle.resource@
            &&& next.same_state(&prev)
            &&& next.spec_journal() == prev.spec_journal()
        },
        op is Create ==> {
            &&& r matches Ok(LifecycleOutcome::Transitioned(h))
            &&& h.status is Active
            &&& h.class == handle.class
            &&& h.provider.spec_str() == sandbox_provider()
            &&& !prev.spec_resources().contains(h.resource@)
            &&& next.spec_status_of(h.resource@) == Some(ResourceStatus::Active)
        },
{
}

proof fn lemma_sandbox_declared_lifecycle(class: ResourceClass)
    ensures
        declared_lifecycle(sandbox_capabilities(), class) == if sandbox_serves(class) {
            Some(sandbox_lifecycle())
        } else {
            None::<ResourceLifecycleSupport>
        },
{
    reveal_with_fuel(declared_lifecycle, 3);
    assert(sandbox_capabilities().drop_first().drop_first().len() == 0);
}

impl ExecutionResourceProvider for SandboxCloudFixture {
    open spec fn inv(&self) -> bool {
        self.wf()
    }

    open spec fn headroom(&self) -> nat {
        self.spec_headroom()
    }

    open spec fn declaration(&self) -> ProviderDescriptor {
        self.spec_descriptor()
    }

    open spec fn resource_status(&self, id: Seq<char>) -> Option<ResourceStatus> {
        self.spec_status_of(id)
    }

    open spec fn resource_class(&self, id: Seq<char>) -> ResourceClass {
        self.spec_class_of(id)
    }

    open spec fn evidence(&self) -> Seq<(Seq<char>, Seq<char>, EvidenceKind, Seq<u8>)> {
        self.spec_journal()
    }

    open spec fn answers(&self) -> Seq<ProviderAnswer> {
        self.spec_answered()
    }

    open spec fn healthy(&self) -> bool {
        !self.spec_outage() && (self.spec_descriptor().health.status is Healthy || self.spec_descriptor().health.status is Degraded)
    }

    fn has_headroom(&self) -> (r: bool) {
        let records = self.journal.len();
        self.next_id < u64::MAX - 1 && self.next_snapshot < u64::MAX - 1 && (records as u64) < u64::MAX - 2
    }

    fn descriptor(&self) -> (r: &ProviderDescriptor) {
        SandboxCloudFixture::descriptor(self)
    }

    fn probe(&self) -> (r: Result<ProviderHealth, ResourceProviderError>)
        ensures
            self.probe_answered(r),
    {
        SandboxCloudFixture::probe(self)
    }

    fn create(&mut self, spec: ResourceSpec) -> (r: Result<ResourceHandle, ResourceProviderError>)
        ensures
            final(self).create_answered(old(self), spec, r),
    {
        proof {
            lemma_sandbox_declared_lifecycle(spec.class);
        }
        let ghost log = self.answered@;
        let r = SandboxCloudFixture::create(self, spec);
        let ghost mid = *self;
        self.answered = Ghost(log.push(ProviderAnswer::Created(r)));
        assert(self.same_state(&mid));
        assert forall|k: Seq<char>| #[trigger] self.spec_status_of(k) == mid.spec_status_of(k) by {}
        assert forall|k: Seq<char>| #[trigger] self.spec_class_of(k) == mid.spec_class_of(k) by {}
        r
    }

    fn status(&self, handle: &ResourceHandle) -> (r: Result<ResourceStatus, ResourceProviderError>) {
        SandboxCloudFixture::status(self, handle)
    }

    fn release(&mut self, handle: &ResourceHandle) -> (r: Result<ResourceHandle, ResourceProviderError>) {
        let ghost log = self.answered@;
        let r = SandboxCloudFixture::release(self, handle);
        let ghost mid = *self;
        self.answered = Ghost(log.push(ProviderAnswer::Released(r)));
        assert(self.same_state(&mid));
        assert forall|k: Seq<char>| #[trigger] self.spec_status_of(k) == mid.spec_status_of(k) by {}
        assert forall|k: Seq<char>| #[trigger] self.spec_class_of(k) == mid.spec_class_of(k) by {}
        r
    }

    fn lifecycle(&mut self, handle: &ResourceHandle, op: LifecycleOp) -> (r: Result<LifecycleOutcome, ResourceProviderError>)
        ensures
            final(self).lifecycle_answered(old(self), *handle, op, r),
    {
        proof {
            lemma_sandbox_declared_lifecycle(handle.class);
            lemma_sandbox_declared_lifecycle(self.spec_class_of(handle.resource@));
        }
        let ghost log = self.answered@;
        let r = SandboxCloudFixture::lifecycle(self, handle, op);
        let ghost mid = *self;
        self.answered = Ghost(log.push(ProviderAnswer::Dispatched(r)));
        assert(self.same_state(&mid));
        assert forall|k: Seq<char>| #[trigger] self.spec_status_of(k) == mid.spec_status_of(k) by {}
        assert forall|k: Seq<char>| #[trigger] self.spec_class_of(k) == mid.spec_class_of(k) by {}
        r
    }

    fn evidence_records(&self) -> (r: Vec<ResourceEvidenceRecord>) {
        SandboxCloudFixture::evidence_records(self)
    }
}

} // verus!
