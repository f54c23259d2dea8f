//! An in-process fixture shaped like self-hosted local container
//! infrastructure: it serves `PersistentWorkspace` only, supports create
//! and resize, has no fork, snapshots, pause/resume or network policy,
//! keeps workspaces across release, has no live-capacity ceiling, and its
//! failure modes are container-shaped (the backing container disappearing
//! underneath a workspace; resize requests beyond the declared quota).

use vstd::prelude::*;
use crate::keyed_map::KeyedMap;
use crate::text::{decimal, decimal_pad4, lemma_decimal_pad4_value, push_decimal, push_decimal_pad4};
use crate::ir::clone_opt;
use crate::providers::descriptor::{
    ProviderDescriptor, ProviderHealth, ProviderHealthStatus, ResourceCapability, ResourceLifecycleSupport,
    ResourceQuota, supports_op,
};
use crate::providers::error::ResourceProviderError;
use crate::providers::evidence::{
    EvidenceKind, ResourceEvidenceJournal, ResourceEvidenceRecord, evidence_identified, json_object, record_view, text_fields,
};
use crate::providers::fixture::{
    copy_records, journal_entry, journal_payload, resource_lost, same_provider, text_payload, transition_payload,
    transition_payload_bytes,
};
use crate::providers::model::{
    ProviderId, ResourceClass, ResourceHandle, ResourceSpec, ResourceStatus, SpecView, class_name, spec_error,
    status_bindable,
};
use crate::providers::provider::{
    ProviderAnswer,
    ExecutionResourceProvider, LifecycleOp, LifecycleOutcome, ResizeRequest, declared_lifecycle, resize_error,
};

verus! {

/// The fixture provider's identity.
pub const LOCAL_CONTAINERS_PROVIDER_ID: &'static str = "fixture-local-containers";

/// The fixture provider's identity, as characters.
pub open spec fn local_provider() -> Seq<char> {
    "fixture-local-containers"@
}

/// The workspace id minted at position `j`: `ws-` and `j` zero-padded to
/// four digits.
pub open spec fn workspace_id(j: nat) -> Seq<char> {
    seq!['w', 's', '-'] + decimal_pad4(j)
}

/// Distinct positions mint distinct ids.
pub proof fn lemma_workspace_id_injective(a: nat, b: nat)
    requires
        workspace_id(a) == workspace_id(b),
    ensures
        a == b,
{
    lemma_decimal_pad4_value(a);
    lemma_decimal_pad4_value(b);
    assert(workspace_id(a).subrange(3, workspace_id(a).len() as int) =~= decimal_pad4(a));
    assert(workspace_id(b).subrange(3, workspace_id(b).len() as int) =~= decimal_pad4(b));
}

/// The lifecycle support the fixture declares.
pub open spec fn local_lifecycle() -> ResourceLifecycleSupport {
    ResourceLifecycleSupport {
        create: true,
        pause_resume: false,
        snapshot: false,
        fork: false,
        resize: true,
        network_policy: false,
        gpu: false,
    }
}

/// The quota the fixture declares.
pub open spec fn local_quota() -> ResourceQuota {
    ResourceQuota { max_cpu_millis: 4_000, max_memory_mib: 8_192, max_disk_mib: 65_536 }
}

/// The capabilities the fixture declares.
pub open spec fn local_capabilities() -> Seq<ResourceCapability> {
    seq![ResourceCapability { class: ResourceClass::PersistentWorkspace, lifecycle: local_lifecycle(), capacity: local_quota() }]
}

/// The detail journaled with every ordinary transition.
pub open spec fn local_transition_detail() -> Seq<char> {
    "container-style persistent transition"@
}

/// The payload journaled when a container disappears.
pub open spec fn removal_payload(resource: Seq<char>) -> Seq<u8> {
    json_object(
        seq![
            ("provider"@, local_provider()),
            ("fact"@, "container_removed"@),
            ("resource"@, resource),
            ("class"@, "persistentWorkspace"@),
        ],
        Seq::empty(),
    )
}

/// Why a spec is over the declared quota, if it is.
pub open spec fn quota_excess(cpu: Option<u32>, memory: Option<u32>, disk: Option<u64>, prefix: Seq<char>) -> Option<Seq<char>> {
    let q = local_quota();
    if cpu is Some && cpu.unwrap() > q.max_cpu_millis {
        Some(prefix + "cpuMillis "@ + decimal(cpu.unwrap() as nat) + " exceeds the local quota 4000"@)
    } else if memory is Some && memory.unwrap() > q.max_memory_mib {
        Some(prefix + "memoryMiB "@ + decimal(memory.unwrap() as nat) + " exceeds the local quota 8192"@)
    } else if disk is Some && disk.unwrap() > q.max_disk_mib {
        Some(prefix + "diskMiB "@ + decimal(disk.unwrap() as nat) + " exceeds the local quota 65536"@)
    } else {
        None
    }
}

/// A spec view with a resize request applied: each requested capacity
/// replaces the current one.
pub open spec fn resized(v: SpecView, req: ResizeRequest) -> SpecView {
    SpecView {
        cpu_millis: if req.cpu_millis is Some { req.cpu_millis } else { v.cpu_millis },
        memory_mib: if req.memory_mib is Some { req.memory_mib } else { v.memory_mib },
        disk_mib: if req.disk_mib is Some { req.disk_mib } else { v.disk_mib },
        ..v
    }
}

/// One persistent workspace in the fixture's resource table.
pub struct LiveWorkspace {
    /// Its current status.
    pub status: ResourceStatus,
    /// The spec it was provisioned from, with resizes applied.
    pub spec: ResourceSpec,
}

/// The local container fixture provider.
pub struct LocalContainersFixture {
    descriptor: ProviderDescriptor,
    next_id: u64,
    workspaces: KeyedMap<LiveWorkspace>,
    journal: ResourceEvidenceJournal,
    answered: Ghost<Seq<ProviderAnswer>>,
}

fn quota_error_message(prefix: &str, field: &str, value: u64, max: &str) -> (r: String)
    ensures
        r@ == prefix@ + field@ + " "@ + decimal(value as nat) + " exceeds the local quota "@ + max@,
{
    let mut r = String::from_str(prefix);
    r.append(field);
    r.append(" ");
    push_decimal(&mut r, value);
    r.append(" exceeds the local quota ");
    r.append(max);
    r
}

fn check_quota(cpu: Option<u32>, memory: Option<u32>, disk: Option<u64>, prefix: &str) -> (r: Option<String>)
    ensures
        r matches Some(m) ==> quota_excess(cpu, memory, disk, prefix@) == Some(m@),
        r is None ==> quota_excess(cpu, memory, disk, prefix@) is None,
{
    proof {
        reveal_strlit("cpuMillis");
        reveal_strlit("memoryMiB");
        reveal_strlit("diskMiB");
        reveal_strlit(" ");
        reveal_strlit(" exceeds the local quota ");
        reveal_strlit("4000");
        reveal_strlit("8192");
        reveal_strlit("65536");
        reveal_strlit("cpuMillis ");
        reveal_strlit("memoryMiB ");
        reveal_strlit("diskMiB ");
        reveal_strlit(" exceeds the local quota 4000");
        reveal_strlit(" exceeds the local quota 8192");
        reveal_strlit(" exceeds the local quota 65536");
    }
    match cpu {
        Some(c) => {
            if c > 4_000 {
                let m = quota_error_message(prefix, "cpuMillis", c as u64, "4000");
                assert(m@ =~= prefix@ + "cpuMillis "@ + decimal(c as nat) + " exceeds the local quota 4000"@);
                return Some(m);
            }
        },
        None => {},
    }
    match memory {
        Some(c) => {
            if c > 8_192 {
                let m = quota_error_message(prefix, "memoryMiB", c as u64, "8192");
                assert(m@ =~= prefix@ + "memoryMiB "@ + decimal(c as nat) + " exceeds the local quota 8192"@);
                return Some(m);
            }
        },
        None => {},
    }
    match disk {
        Some(c) => {
            if c > 65_536 {
                let m = quota_error_message(prefix, "diskMiB", c, "65536");
                assert(m@ =~= prefix@ + "diskMiB "@ + decimal(c as nat) + " exceeds the local quota 65536"@);
                return Some(m);
            }
        },
        None => {},
    }
    None
}

impl LocalContainersFixture {
    /// The declaration.
    pub closed spec fn spec_descriptor(&self) -> ProviderDescriptor {
        self.descriptor
    }

    /// The position of the next minted workspace id.
    pub closed spec fn spec_next_id(&self) -> u64 {
        self.next_id
    }

    /// The workspace table.
    pub closed spec fn spec_workspaces(&self) -> KeyedMap<LiveWorkspace> {
        self.workspaces
    }

    /// The journal records so far, as plain values.
    pub closed spec fn spec_journal(&self) -> Seq<(Seq<char>, Seq<char>, EvidenceKind, Seq<u8>)> {
        self.journal.spec_records()
    }

    /// The answers given to state-changing provider calls so far.
    pub closed spec fn spec_answered(&self) -> Seq<ProviderAnswer> {
        self.answered@
    }

    /// `self` holds the same resources, counters, journal and declaration
    /// as `other`, whatever answers each has given.
    pub open spec fn same_state(&self, other: &Self) -> bool {
        &&& self.spec_descriptor() == other.spec_descriptor()
        &&& self.spec_next_id() == other.spec_next_id()
        &&& self.spec_workspaces() == other.spec_workspaces()
        &&& self.spec_journal() == other.spec_journal()
    }

    /// The fixture's invariant: its declaration is fixed, the tables are
    /// ordered, every workspace id was minted before `next_id`, and every
    /// recorded spec has ordered labels.
    pub closed spec fn wf(&self) -> bool {
        &&& self.workspaces.wf()
        &&& self.journal.wf()
        &&& self.journal.spec_provider() == local_provider()
        &&& self.descriptor.provider.spec_str() == local_provider()
        &&& self.descriptor.capabilities@ == local_capabilities()
        &&& forall|k: Seq<char>| #[trigger] self.workspaces.contains(k) ==> exists|j: nat| j < self.next_id && k == workspace_id(j)
        &&& forall|k: Seq<char>| #[trigger] self.workspaces.contains(k) ==> self.workspaces.lookup(k).unwrap().spec.labels.wf()
    }

    /// The counters can advance without overflow.
    pub open spec fn has_room(&self) -> bool {
        &&& self.spec_next_id() < u64::MAX
        &&& self.spec_journal().len() + 1 < u64::MAX
    }

    /// The status of a workspace the fixture knows.
    pub open spec fn spec_status_of(&self, id: Seq<char>) -> Option<ResourceStatus> {
        if self.spec_workspaces().contains(id) {
            Some(self.spec_workspaces().lookup(id).unwrap().status)
        } else {
            None
        }
    }

    /// The recorded spec of a workspace the fixture knows.
    pub open spec fn spec_spec_of(&self, id: Seq<char>) -> SpecView {
        self.spec_workspaces().lookup(id).unwrap().spec.spec_view()
    }

    /// The handle names a workspace of this fixture.
    pub open spec fn owns(&self, handle: ResourceHandle) -> bool {
        handle.provider.spec_str() == local_provider() && self.spec_workspaces().contains(handle.resource@)
    }

    /// `self` is `prev` with one journal entry appended.
    pub open spec fn journaled(&self, prev: &Self, kind: EvidenceKind, payload: Seq<u8>) -> bool {
        self.spec_journal() == prev.spec_journal().push(journal_entry(local_provider(), prev.spec_journal().len(), kind, payload))
    }

    /// `self` is `prev` with workspace `id` holding `status` and `spec`,
    /// every other workspace unchanged.
    pub open spec fn workspace_set(&self, prev: &Self, id: Seq<char>, status: ResourceStatus, spec: SpecView) -> bool {
        &&& forall|k: Seq<char>| #[trigger] self.spec_status_of(k) == if k == id { Some(status) } else { prev.spec_status_of(k) }
        &&& forall|k: Seq<char>| k != id ==> #[trigger] self.spec_workspaces().lookup(k) == prev.spec_workspaces().lookup(k)
        &&& self.spec_workspaces().contains(id)
        &&& self.spec_spec_of(id) == spec
        &&& self.spec_next_id() == prev.spec_next_id()
    }

    /// `self` is `prev` with a fresh active workspace of `spec` minted
    /// under the next id.
    pub open spec fn minted(&self, prev: &Self, spec: SpecView) -> bool {
        let id = workspace_id(prev.spec_next_id() as nat);
        &&& !prev.spec_workspaces().contains(id)
        &&& self.spec_next_id() == prev.spec_next_id() + 1
        &&& self.spec_status_of(id) == Some(ResourceStatus::Active)
        &&& self.spec_spec_of(id) == spec
        &&& forall|k: Seq<char>| k != id ==> #[trigger] self.spec_workspaces().lookup(k) == prev.spec_workspaces().lookup(k)
    }

    /// Creates the fixture.
    pub fn new() -> (r: Result<Self, ResourceProviderError>)
        ensures
            r matches Ok(f) && f.wf() && f.spec_next_id() == 0 && f.spec_workspaces().len() == 0
                && f.spec_journal().len() == 0 && f.spec_descriptor().capabilities@ == local_capabilities()
                && f.spec_descriptor().provider.spec_str() == local_provider(),
    {
        let id = match ProviderId::parse(String::from_str(LOCAL_CONTAINERS_PROVIDER_ID)) {
            Ok(id) => id,
            Err(e) => {
                proof {
                    reveal_strlit("fixture-local-containers");
                    assert(crate::providers::model::valid_name_segment("fixture-local-containers"@));
                }
                return Err(e);
            },
        };
        let mut capabilities: Vec<ResourceCapability> = Vec::new();
        capabilities.push(ResourceCapability {
            class: ResourceClass::PersistentWorkspace,
            lifecycle: ResourceLifecycleSupport::none().with_create().with_resize(),
            capacity: ResourceQuota { max_cpu_millis: 4_000, max_memory_mib: 8_192, max_disk_mib: 65_536 },
        });
        assert(capabilities@ =~= local_capabilities());
        let mut regions: Vec<String> = Vec::new();
        regions.push(String::from_str("local"));
        let descriptor = ProviderDescriptor {
            provider: id,
            capabilities,
            health: ProviderHealth {
                status: ProviderHealthStatus::Healthy,
                detail: Some(String::from_str("local container runtime fixture")),
                latency_ms: Some(0),
            },
            regions,
            cost: None,
        };
        Ok(LocalContainersFixture {
            descriptor,
            next_id: 0,
            workspaces: KeyedMap::new(),
            answered: Ghost(Seq::empty()),
            journal: ResourceEvidenceJournal::new(String::from_str(LOCAL_CONTAINERS_PROVIDER_ID)),
        })
    }

    /// The provider's registration declaration.
    pub fn descriptor(&self) -> (r: &ProviderDescriptor)
        ensures
            *r == self.spec_descriptor(),
    {
        &self.descriptor
    }

    /// Probes the provider's health: always the declared health.
    pub fn probe(&self) -> (r: Result<ProviderHealth, ResourceProviderError>)
        ensures
            r == Ok::<ProviderHealth, ResourceProviderError>(self.spec_descriptor().health),
    {
        let health = &self.descriptor.health;
        Ok(ProviderHealth { status: health.status, detail: clone_opt(&health.detail), latency_ms: health.latency_ms })
    }

    /// The recorded spec of one workspace, when it exists.
    pub fn workspace_spec(&self, resource: &String) -> (r: Option<ResourceSpec>)
        requires
            self.wf(),
        ensures
            self.spec_workspaces().contains(resource@) ==> (r matches Some(s) && s.spec_view() == self.spec_spec_of(resource@)),
            !self.spec_workspaces().contains(resource@) ==> r is None,
    {
        match self.workspaces.get(resource) {
            Some(w) => Some(w.spec.duplicate()),
            None => None,
        }
    }

    proof fn lemma_wf_after_insert(&self, before: KeyedMap<LiveWorkspace>, k0: Seq<char>)
        requires
            before.wf(),
            self.workspaces.wf(),
            forall|k: Seq<char>| #[trigger] before.contains(k) ==> exists|j: nat| j < self.next_id && k == workspace_id(j),
            forall|k: Seq<char>| #[trigger] before.contains(k) ==> before.lookup(k).unwrap().spec.labels.wf(),
            exists|j: nat| j < self.next_id && k0 == workspace_id(j),
            self.workspaces.lookup(k0).unwrap().spec.labels.wf(),
            self.workspaces.contains(k0),
            forall|k: Seq<char>| k != k0 ==> #[trigger] self.workspaces.lookup(k) == before.lookup(k),
            forall|k: Seq<char>| #[trigger] self.workspaces.contains(k) <==> (k == k0 || before.contains(k)),
        ensures
            forall|k: Seq<char>| #[trigger] self.workspaces.contains(k) ==> exists|j: nat| j < self.next_id && k == workspace_id(j),
            forall|k: Seq<char>| #[trigger] self.workspaces.contains(k) ==> self.workspaces.lookup(k).unwrap().spec.labels.wf(),
    {
        assert forall|k: Seq<char>| #[trigger] self.workspaces.contains(k) implies self.workspaces.lookup(k).unwrap().spec.labels.wf() by {
            if k != k0 {
                assert(before.contains(k));
                assert(self.workspaces.lookup(k) == before.lookup(k));
            }
        }
        assert forall|k: Seq<char>| #[trigger] self.workspaces.contains(k) implies exists|j: nat| j < self.next_id && k == workspace_id(j) by {
            if k != k0 {
                assert(before.contains(k));
            }
        }
    }

    fn mint_id(&mut self) -> (id: String)
        requires
            old(self).wf(),
            old(self).spec_next_id() < u64::MAX,
        ensures
            id@ == workspace_id(old(self).spec_next_id() as nat),
            final(self).spec_next_id() == old(self).spec_next_id() + 1,
            final(self).spec_workspaces() == old(self).spec_workspaces(),
            final(self).spec_journal() == old(self).spec_journal(),
            final(self).spec_descriptor() == old(self).spec_descriptor(),
            final(self).wf(),
            !final(self).spec_workspaces().contains(id@),
    {
        let mut id = String::from_str("ws-");
        push_decimal_pad4(&mut id, self.next_id);
        proof {
            reveal_strlit("ws-");
            assert(id@ =~= workspace_id(self.next_id as nat));
            if self.workspaces.contains(id@) {
                let j = choose|j: nat| j < self.next_id && id@ == workspace_id(j);
                lemma_workspace_id_injective(j, self.next_id as nat);
            }
        }
        self.next_id = self.next_id + 1;
        proof {
            assert forall|k: Seq<char>| #[trigger] self.workspaces.contains(k) implies exists|j: nat| j < self.next_id && k == workspace_id(j) by {
                let j = choose|j: nat| j < old(self).next_id && k == workspace_id(j);
                assert(j < self.next_id);
            }
        }
        id
    }

    fn put(&mut self, id: &String, status: ResourceStatus, spec: ResourceSpec)
        requires
            old(self).wf(),
            spec.labels.wf(),
            exists|j: nat| j < old(self).spec_next_id() && id@ == workspace_id(j),
        ensures
            final(self).wf(),
            final(self).workspace_set(old(self), id@, status, spec.spec_view()),
            final(self).spec_journal() == old(self).spec_journal(),
            final(self).spec_descriptor() == old(self).spec_descriptor(),
            forall|k: Seq<char>| #[trigger] final(self).spec_workspaces().contains(k) <==> (k == id@ || old(self).spec_workspaces().contains(k)),
    {
        let ghost before = self.workspaces;
        let ghost sv = spec.spec_view();
        self.workspaces.insert(id.clone(), LiveWorkspace { status, spec });
        proof {
            self.lemma_wf_after_insert(before, id@);
        }
    }

    /// Injects the disappearance of the container backing one workspace:
    /// the record stays, its status becomes `Lost`, and the removal is
    /// journaled. Unknown workspaces are left alone.
    pub fn remove_container(&mut self, resource: &String)
        requires
            old(self).wf(),
            old(self).has_room(),
        ensures
            final(self).wf(),
            final(self).spec_descriptor() == old(self).spec_descriptor(),
            !old(self).spec_workspaces().contains(resource@) ==> *final(self) == *old(self),
            old(self).spec_workspaces().contains(resource@) ==> {
                &&& final(self).workspace_set(old(self), resource@, ResourceStatus::Lost, old(self).spec_spec_of(resource@))
                &&& final(self).journaled(old(self), EvidenceKind::Recovery, removal_payload(resource@))
            },
    {
        proof {
            reveal_strlit("fixture-local-containers");
        }
        match self.workspaces.position(resource) {
            None => {},
            Some(p) => {
                proof {
                    self.workspaces.lemma_unique_position(p as int, resource@);
                }
                let spec = self.workspaces.value_at(p).spec.duplicate();
                self.put(resource, ResourceStatus::Lost, spec);
                let ghost mid = *self;
                let mut texts: Vec<(String, String)> = Vec::new();
                texts.push((String::from_str("provider"), String::from_str(LOCAL_CONTAINERS_PROVIDER_ID)));
                texts.push((String::from_str("fact"), String::from_str("container_removed")));
                texts.push((String::from_str("resource"), resource.clone()));
                texts.push((String::from_str("class"), String::from_str(ResourceClass::PersistentWorkspace.as_str())));
                proof {
                    assert(text_fields(texts@) =~= seq![
                        ("provider"@, local_provider()),
                        ("fact"@, "container_removed"@),
                        ("resource"@, resource@),
                        ("class"@, "persistentWorkspace"@),
                    ]);
                }
                let payload = text_payload(texts);
                journal_payload(&mut self.journal, EvidenceKind::Recovery, payload);
                proof {
                    assert forall|k: Seq<char>| #[trigger] self.spec_status_of(k) == mid.spec_status_of(k) by {}
                }
            },
        }
    }

    /// Looks up the workspace a handle names, rejecting foreign or unknown
    /// handles as lost.
    fn require_owned(&self, handle: &ResourceHandle) -> (r: Result<usize, ResourceProviderError>)
        requires
            self.wf(),
        ensures
            self.owns(*handle) ==> (r matches Ok(p) && p < self.spec_workspaces().len()
                && self.spec_workspaces().key(p as int) == handle.resource@
                && self.spec_workspaces().lookup(handle.resource@) == Some(self.spec_workspaces().value(p as int))),
            !self.owns(*handle) ==> {
                &&& r matches Err(ResourceProviderError::ResourceLost { provider, resource })
                &&& provider.spec_str() == local_provider()
                &&& resource@ == handle.resource@
            },
    {
        if !same_provider(&handle.provider, &self.descriptor.provider) {
            return Err(resource_lost(&self.descriptor.provider, &handle.resource));
        }
        match self.workspaces.position(&handle.resource) {
            Some(p) => {
                proof {
                    self.workspaces.lemma_unique_position(p as int, handle.resource@);
                }
                Ok(p)
            },
            None => Err(resource_lost(&self.descriptor.provider, &handle.resource)),
        }
    }

    /// The status of the workspace a handle names.
    pub fn status(&self, handle: &ResourceHandle) -> (r: Result<ResourceStatus, ResourceProviderError>)
        requires
            self.wf(),
        ensures
            self.owns(*handle) ==> r == Ok::<ResourceStatus, ResourceProviderError>(self.spec_status_of(handle.resource@).unwrap()),
            !self.owns(*handle) ==> {
                &&& r matches Err(ResourceProviderError::ResourceLost { provider, resource })
                &&& provider.spec_str() == local_provider()
                &&& resource@ == handle.resource@
            },
    {
        match self.require_owned(handle) {
            Ok(p) => Ok(self.workspaces.value_at(p).status),
            Err(e) => Err(e),
        }
    }

    /// `InvalidSpec` with a reason that names this provider and a class.
    fn class_refusal(&self, middle: &str, class: ResourceClass) -> (e: ResourceProviderError)
        requires
            self.wf(),
        ensures
            e matches ResourceProviderError::InvalidSpec { reason }
                && reason@ == "provider `"@ + local_provider() + middle@ + class_name(class) + "`"@,
    {
        let mut reason = String::from_str("provider `");
        reason.append(self.descriptor.provider.as_str());
        reason.append(middle);
        reason.append(class.as_str());
        reason.append("`");
        proof {
            reveal_strlit("provider `");
            reveal_strlit("`");
        }
        ResourceProviderError::InvalidSpec { reason }
    }

    /// Journals one ordinary transition of `resource`.
    fn journal_transition(&mut self, resource: &String, op: &str)
        requires
            old(self).wf(),
            old(self).spec_journal().len() + 1 < u64::MAX,
        ensures
            final(self).wf(),
            final(self).spec_workspaces() == old(self).spec_workspaces(),
            final(self).spec_next_id() == old(self).spec_next_id(),
            final(self).spec_descriptor() == old(self).spec_descriptor(),
            final(self).journaled(old(self), EvidenceKind::Artifact, transition_payload(
                local_provider(), resource@, ResourceClass::PersistentWorkspace, op@, local_transition_detail())),
    {
        proof {
            reveal_strlit("fixture-local-containers");
            reveal_strlit("container-style persistent transition");
        }
        let payload = transition_payload_bytes(
            LOCAL_CONTAINERS_PROVIDER_ID,
            resource.as_str(),
            ResourceClass::PersistentWorkspace,
            op,
            "container-style persistent transition",
        );
        journal_payload(&mut self.journal, EvidenceKind::Artifact, payload);
    }

    /// `self` is `prev` after `create(spec)` answered `r`: a refusal
    /// leaves the fixture unchanged, each refusal names the first check the
    /// spec fails, and a success mints the next workspace id, records the
    /// spec and journals the transition.
    pub open spec fn create_answered(&self, prev: &Self, spec: ResourceSpec, r: Result<ResourceHandle, ResourceProviderError>) -> bool {
        let quota = quota_excess(spec.cpu_millis, spec.memory_mib, spec.disk_mib, Seq::empty());
        &&& r is Err ==> self.same_state(prev)
        &&& spec_error(spec) is Some ==> {
            &&& r matches Err(ResourceProviderError::InvalidSpec { reason })
            &&& spec_error(spec) == Some(reason@)
        }
        &&& spec_error(spec) is None && !(spec.class is PersistentWorkspace) ==> {
            &&& r matches Err(ResourceProviderError::InvalidSpec { reason })
            &&& reason@ == "provider `"@ + local_provider() + "` does not serve resource class `"@ + class_name(spec.class) + "`"@
        }
        &&& spec_error(spec) is None && spec.class is PersistentWorkspace && spec.network is Some ==> {
            &&& r matches Err(ResourceProviderError::InvalidSpec { reason })
            &&& reason@ == "provider `"@ + local_provider() + "` does not accept network policy input for class `"@
                + "persistentWorkspace"@ + "`"@
        }
        &&& spec_error(spec) is None && spec.class is PersistentWorkspace && spec.network is None && spec.gpu is Some ==> {
            &&& r matches Err(ResourceProviderError::InvalidSpec { reason })
            &&& reason@ == "provider `"@ + local_provider() + "` does not serve GPU specs for class `"@ + "persistentWorkspace"@ + "`"@
        }
        &&& spec_error(spec) is None && spec.class is PersistentWorkspace && spec.network is None && spec.gpu is None
            && quota is Some ==> {
            &&& r matches Err(ResourceProviderError::InvalidSpec { reason })
            &&& quota == Some(reason@)
        }
        &&& spec_error(spec) is None && spec.class is PersistentWorkspace && spec.network is None && spec.gpu is None
            && quota is None ==> {
            let id = workspace_id(prev.spec_next_id() as nat);
            &&& r matches Ok(h)
            &&& h.resource@ == id
            &&& h.class is PersistentWorkspace
            &&& h.provider.spec_str() == local_provider()
            &&& h.status is Active
            &&& self.minted(prev, spec.spec_view())
            &&& self.journaled(prev, EvidenceKind::Artifact, transition_payload(
                local_provider(), id, ResourceClass::PersistentWorkspace, "created"@, local_transition_detail()))
        }
    }

    /// Provisions one persistent workspace from a spec: rejected for an
    /// invalid spec, an unserved class, a network policy, a GPU request or
    /// a capacity beyond the declared quota; otherwise a fresh id is minted
    /// and the new active workspace is journaled.
    pub fn create(&mut self, spec: ResourceSpec) -> (r: Result<ResourceHandle, ResourceProviderError>)
        requires
            old(self).wf(),
            old(self).has_room(),
            spec.labels.wf(),
        ensures
            final(self).wf(),
            final(self).spec_descriptor() == old(self).spec_descriptor(),
            final(self).create_answered(old(self), spec, r),
    {
        proof {
            reveal_strlit("persistentWorkspace");
        }
        match spec.validate() {
            Err(e) => {
                return Err(e);
            },
            Ok(()) => {},
        }
        let class = spec.class;
        let capability = match self.descriptor.capability_for(class) {
            Some(c) => *c,
            None => {
                return Err(self.class_refusal("` does not serve resource class `", class));
            },
        };
        proof {
            assert(local_capabilities()[0].class is PersistentWorkspace);
            assert(capability == local_capabilities()[0]);
        }
        if !capability.lifecycle.network_policy && spec.network.is_some() {
            return Err(self.class_refusal("` does not accept network policy input for class `", class));
        }
        if !capability.lifecycle.gpu && spec.gpu.is_some() {
            return Err(self.class_refusal("` does not serve GPU specs for class `", class));
        }
        match check_quota(spec.cpu_millis, spec.memory_mib, spec.disk_mib, "") {
            Some(reason) => {
                proof {
                    reveal_strlit("");
                }
                return Err(ResourceProviderError::InvalidSpec { reason });
            },
            None => {
                proof {
                    reveal_strlit("");
                }
            },
        }
        let ghost sv = spec.spec_view();
        let id = self.mint_id();
        self.put(&id, ResourceStatus::Active, spec);
        let ghost mid = *self;
        self.journal_transition(&id, "created");
        proof {
            reveal_strlit("created");
            assert forall|k: Seq<char>| #[trigger] self.spec_status_of(k) == mid.spec_status_of(k) by {}
        }
        Ok(ResourceHandle {
            resource: id,
            class: ResourceClass::PersistentWorkspace,
            provider: self.descriptor.provider.duplicate(),
            status: ResourceStatus::Active,
        })
    }

    /// Releases the workspace a handle names: its status becomes
    /// `Released`, its record and spec persist, and the transition is
    /// journaled.
    pub fn release(&mut self, handle: &ResourceHandle) -> (r: Result<ResourceHandle, ResourceProviderError>)
        requires
            old(self).wf(),
            old(self).has_room(),
        ensures
            final(self).wf(),
            final(self).spec_descriptor() == old(self).spec_descriptor(),
            !old(self).owns(*handle) ==> {
                &&& r matches Err(ResourceProviderError::ResourceLost { provider, resource })
                &&& provider.spec_str() == local_provider()
                &&& resource@ == handle.resource@
                &&& *final(self) == *old(self)
            },
            old(self).owns(*handle) ==> {
                &&& r matches Ok(h)
                &&& h.resource@ == handle.resource@
                &&& h.class is PersistentWorkspace
                &&& h.provider.spec_str() == local_provider()
                &&& h.status is Released
                &&& final(self).workspace_set(old(self), handle.resource@, ResourceStatus::Released, old(self).spec_spec_of(handle.resource@))
                &&& final(self).journaled(old(self), EvidenceKind::Artifact, transition_payload(
                    local_provider(), handle.resource@, ResourceClass::PersistentWorkspace, "released"@, local_transition_detail()))
            },
    {
        let p = match self.require_owned(handle) {
            Ok(p) => p,
            Err(e) => {
                return Err(e);
            },
        };
        let spec = self.workspaces.value_at(p).spec.duplicate();
        self.put(&handle.resource, ResourceStatus::Released, spec);
        let ghost mid = *self;
        self.journal_transition(&handle.resource, "released");
        proof {
            reveal_strlit("released");
            assert forall|k: Seq<char>| #[trigger] self.spec_status_of(k) == mid.spec_status_of(k) by {}
        }
        Ok(ResourceHandle {
            resource: handle.resource.clone(),
            class: ResourceClass::PersistentWorkspace,
            provider: self.descriptor.provider.duplicate(),
            status: ResourceStatus::Released,
        })
    }

    /// `self` is `prev` after `lifecycle(handle, op)` answered `r`: a
    /// refusal leaves the fixture unchanged and names the first check that
    /// failed; `Create` re-provisions the workspace's spec under the next
    /// id and `Resize` applies a request within the quota, each journaled.
    pub open spec fn lifecycle_answered(&self, prev: &Self, handle: ResourceHandle, op: LifecycleOp, r: Result<LifecycleOutcome, ResourceProviderError>) -> bool {
        &&& r is Err ==> self.same_state(prev)
        &&& (op matches LifecycleOp::Resize(req) && resize_error(req) is Some) ==> {
            &&& r matches Err(ResourceProviderError::InvalidSpec { reason })
            &&& op matches LifecycleOp::Resize(req) && resize_error(req) == Some(reason@)
        }
        &&& !(op matches LifecycleOp::Resize(req) && resize_error(req) is Some) ==> {
            let id = handle.resource@;
            let live = prev.spec_status_of(id);
            let usable = prev.owns(handle) && handle.class is PersistentWorkspace;
            &&& !usable ==> {
                &&& r matches Err(ResourceProviderError::ResourceLost { provider, resource })
                &&& provider.spec_str() == local_provider()
                &&& resource@ == id
            }
            &&& usable && !supports_op(local_lifecycle(), op) ==> {
                &&& r matches Err(ResourceProviderError::Unsupported { provider, operation })
                &&& provider.spec_str() == local_provider()
                &&& operation == op
            }
            &&& usable && supports_op(local_lifecycle(), op) && !(op is Create) && !status_bindable(live.unwrap()) ==> {
                &&& r matches Err(ResourceProviderError::ResourceLost { provider, resource })
                &&& provider.spec_str() == local_provider()
                &&& resource@ == id
            }
            &&& usable && op is Create ==> {
                let fresh = workspace_id(prev.spec_next_id() as nat);
                &&& r matches Ok(LifecycleOutcome::Transitioned(h))
                &&& h.resource@ == fresh
                &&& h.class is PersistentWorkspace
                &&& h.provider.spec_str() == local_provider()
                &&& h.status is Active
                &&& self.minted(prev, prev.spec_spec_of(id))
                &&& self.journaled(prev, EvidenceKind::Artifact, transition_payload(
                    local_provider(), fresh, ResourceClass::PersistentWorkspace, "recreated"@, local_transition_detail()))
            }
            &&& usable && status_bindable(live.unwrap()) && op is Resize ==> {
                let req = op->Resize_0;
                &&& quota_excess(req.cpu_millis, req.memory_mib, req.disk_mib, "resize "@) is Some ==> (r matches Err(
                    ResourceProviderError::InvalidSpec { reason },
                ) && quota_excess(req.cpu_millis, req.memory_mib, req.disk_mib, "resize "@) == Some(reason@))
                &&& quota_excess(req.cpu_millis, req.memory_mib, req.disk_mib, "resize "@) is None ==> {
                    &&& r matches Ok(LifecycleOutcome::Transitioned(h))
                    &&& h.resource@ == id
                    &&& h.class is PersistentWorkspace
                    &&& h.provider.spec_str() == local_provider()
                    &&& h.status is Active
                    &&& self.workspace_set(prev, id, ResourceStatus::Active, resized(prev.spec_spec_of(id), req))
                    &&& self.journaled(prev, EvidenceKind::Artifact, transition_payload(
                        local_provider(), id, ResourceClass::PersistentWorkspace, "resized"@, local_transition_detail()))
                }
            }
        }
    }

    /// Dispatches one lifecycle operation on the workspace a handle names.
    ///
    /// In order: an invalid resize request is rejected; a foreign or
    /// unknown handle, or one whose class the fixture does not serve, is
    /// lost; an undeclared operation is `Unsupported`; any operation but
    /// `Create` on a workspace that is not live is lost. Then `Resize`
    /// applies the request within the declared quota (keeping the id), and
    /// `Create` re-provisions the workspace's spec under a fresh id; each
    /// outcome is journaled.
    pub fn lifecycle(&mut self, handle: &ResourceHandle, op: LifecycleOp) -> (r: Result<LifecycleOutcome, ResourceProviderError>)
        requires
            old(self).wf(),
            old(self).has_room(),
        ensures
            final(self).wf(),
            final(self).spec_descriptor() == old(self).spec_descriptor(),
            final(self).lifecycle_answered(old(self), *handle, op, r),
    {
        match op {
            LifecycleOp::Resize(request) => {
                match request.validate() {
                    Err(e) => {
                        return Err(e);
                    },
                    Ok(()) => {},
                }
            },
            _ => {},
        }
        let p = match self.require_owned(handle) {
            Ok(p) => p,
            Err(e) => {
                return Err(e);
            },
        };
        let status = self.workspaces.value_at(p).status;
        let capability = match self.descriptor.capability_for(handle.class) {
            Some(c) => *c,
            None => {
                proof {
                    assert(local_capabilities()[0].class is PersistentWorkspace);
                }
                return Err(resource_lost(&self.descriptor.provider, &handle.resource));
            },
        };
        proof {
            assert(capability == local_capabilities()[0]);
        }
        if !capability.lifecycle.supports(&op) {
            return Err(ResourceProviderError::Unsupported { provider: self.descriptor.provider.duplicate(), operation: op });
        }
        let is_create = match op {
            LifecycleOp::Create => true,
            _ => false,
        };
        if !is_create && !status.is_bindable() {
            return Err(resource_lost(&self.descriptor.provider, &handle.resource));
        }
        match op {
            LifecycleOp::Resize(request) => {
                match check_quota(request.cpu_millis, request.memory_mib, request.disk_mib, "resize ") {
                    Some(reason) => {
                        proof {
                            reveal_strlit("resize ");
                        }
                        return Err(ResourceProviderError::InvalidSpec { reason });
                    },
                    None => {
                        proof {
                            reveal_strlit("resize ");
                        }
                    },
                }
                let mut spec = self.workspaces.value_at(p).spec.duplicate();
                match request.cpu_millis {
                    Some(c) => {
                        spec.cpu_millis = Some(c);
                    },
                    None => {},
                }
                match request.memory_mib {
                    Some(m) => {
                        spec.memory_mib = Some(m);
                    },
                    None => {},
                }
                match request.disk_mib {
                    Some(d) => {
                        spec.disk_mib = Some(d);
                    },
                    None => {},
                }
                proof {
                    assert(spec.spec_view() == resized(self.spec_spec_of(handle.resource@), request));
                }
                self.put(&handle.resource, ResourceStatus::Active, spec);
                let ghost mid = *self;
                self.journal_transition(&handle.resource, "resized");
                proof {
                    reveal_strlit("resized");
                    assert forall|k: Seq<char>| #[trigger] self.spec_status_of(k) == mid.spec_status_of(k) by {}
                }
                Ok(LifecycleOutcome::Transitioned(ResourceHandle {
                    resource: handle.resource.clone(),
                    class: ResourceClass::PersistentWorkspace,
                    provider: self.descriptor.provider.duplicate(),
                    status: ResourceStatus::Active,
                }))
            },
            LifecycleOp::Create => {
                let spec = self.workspaces.value_at(p).spec.duplicate();
                let id = self.mint_id();
                self.put(&id, ResourceStatus::Active, spec);
                let ghost mid = *self;
                self.journal_transition(&id, "recreated");
                proof {
                    reveal_strlit("recreated");
                    assert forall|k: Seq<char>| #[trigger] self.spec_status_of(k) == mid.spec_status_of(k) by {}
                }
                Ok(LifecycleOutcome::Transitioned(ResourceHandle {
                    resource: id,
                    class: ResourceClass::PersistentWorkspace,
                    provider: self.descriptor.provider.duplicate(),
                    status: ResourceStatus::Active,
                }))
            },
            other => Err(ResourceProviderError::Unsupported { provider: self.descriptor.provider.duplicate(), operation: other }),
        }
    }

    /// The evidence records journaled so far, oldest first.
    pub fn evidence_records(&self) -> (r: Vec<ResourceEvidenceRecord>)
        ensures
            r@.map_values(|x: ResourceEvidenceRecord| record_view(x)) == self.spec_journal(),
            self.wf() ==> evidence_identified(local_provider(), self.spec_journal()),
    {
        copy_records(self.journal.records())
    }

    /// How many more state-changing operations the fixture can take.
    pub open spec fn spec_headroom(&self) -> nat {
        let ids = u64::MAX - 1 - self.spec_next_id();
        let records = u64::MAX - 2 - self.spec_journal().len();
        let least = if ids < records { ids } else { records };
        if least < 0 { 0 } else { least as nat }
    }
}

proof fn lemma_local_declared_lifecycle(class: ResourceClass)
    ensures
        declared_lifecycle(local_capabilities(), class) == if class is PersistentWorkspace {
            Some(local_lifecycle())
        } else {
            None::<ResourceLifecycleSupport>
        },
{
    reveal_with_fuel(declared_lifecycle, 2);
    assert(local_capabilities().drop_first().len() == 0);
}

impl ExecutionResourceProvider for LocalContainersFixture {
    open spec fn inv(&self) -> bool {
        self.wf()
    }

    open spec fn headroom(&self) -> nat {
        self.spec_headroom()
    }

    open spec fn declaration(&self) -> ProviderDescriptor {
        self.spec_descriptor()
    }

    open spec fn resource_status(&self, id: Seq<char>) -> Option<ResourceStatus> {
        self.spec_status_of(id)
    }

    open spec fn resource_class(&self, id: Seq<char>) -> ResourceClass {
        ResourceClass::PersistentWorkspace
    }

    open spec fn evidence(&self) -> Seq<(Seq<char>, Seq<char>, EvidenceKind, Seq<u8>)> {
        self.spec_journal()
    }

    open spec fn answers(&self) -> Seq<ProviderAnswer> {
        self.spec_answered()
    }

    open spec fn healthy(&self) -> bool {
        self.spec_descriptor().health.status is Healthy || self.spec_descriptor().health.status is Degraded
    }

    fn has_headroom(&self) -> (r: bool) {
        let records = self.journal.len();
        self.next_id < u64::MAX - 1 && (records as u64) < u64::MAX - 2
    }

    fn descriptor(&self) -> (r: &ProviderDescriptor) {
        LocalContainersFixture::descriptor(self)
    }

    fn probe(&self) -> (r: Result<ProviderHealth, ResourceProviderError>)
        ensures
            r == Ok::<ProviderHealth, ResourceProviderError>(self.spec_descriptor().health),
    {
        LocalContainersFixture::probe(self)
    }

    fn create(&mut self, spec: ResourceSpec) -> (r: Result<ResourceHandle, ResourceProviderError>)
        ensures
            final(self).create_answered(old(self), spec, r),
    {
        proof {
            lemma_local_declared_lifecycle(spec.class);
        }
        let ghost log = self.answered@;
        let r = LocalContainersFixture::create(self, spec);
        let ghost mid = *self;
        self.answered = Ghost(log.push(ProviderAnswer::Created(r)));
        assert(self.same_state(&mid));
        assert forall|k: Seq<char>| #[trigger] self.spec_status_of(k) == mid.spec_status_of(k) by {}
        r
    }

    fn status(&self, handle: &ResourceHandle) -> (r: Result<ResourceStatus, ResourceProviderError>) {
        LocalContainersFixture::status(self, handle)
    }

    fn release(&mut self, handle: &ResourceHandle) -> (r: Result<ResourceHandle, ResourceProviderError>) {
        let ghost log = self.answered@;
        let r = LocalContainersFixture::release(self, handle);
        let ghost mid = *self;
        self.answered = Ghost(log.push(ProviderAnswer::Released(r)));
        assert(self.same_state(&mid));
        assert forall|k: Seq<char>| #[trigger] self.spec_status_of(k) == mid.spec_status_of(k) by {}
        r
    }

    fn lifecycle(&mut self, handle: &ResourceHandle, op: LifecycleOp) -> (r: Result<LifecycleOutcome, ResourceProviderError>)
        ensures
            final(self).lifecycle_answered(old(self), *handle, op, r),
    {
        proof {
            lemma_local_declared_lifecycle(handle.class);
        }
        let ghost log = self.answered@;
        let r = LocalContainersFixture::lifecycle(self, handle, op);
        let ghost mid = *self;
        self.answered = Ghost(log.push(ProviderAnswer::Dispatched(r)));
        assert(self.same_state(&mid));
        assert forall|k: Seq<char>| #[trigger] self.spec_status_of(k) == mid.spec_status_of(k) by {}
        r
    }

    fn evidence_records(&self) -> (r: Vec<ResourceEvidenceRecord>) {
        LocalContainersFixture::evidence_records(self)
    }
}

/// A successful resize leaves the workspace live and applies the request:
/// each capacity the request names (CPU, memory, disk) takes the requested
/// value, each capacity it leaves out keeps its earlier value, and the
/// rest of the workspace's spec is unchanged.
pub proof fn lemma_resize_applies_request(
    prev: LocalContainersFixture,
    next: LocalContainersFixture,
    handle: ResourceHandle,
    req: ResizeRequest,
    r: Result<LifecycleOutcome, ResourceProviderError>,
)
    requires
        next.lifecycle_answered(&prev, handle, LifecycleOp::Resize(req), r),
        r is Ok,
    ensures
        ({
            let id = handle.resource@;
            let before = prev.spec_spec_of(id);
            let after = next.spec_spec_of(id);
            &&& next.spec_status_of(id) == Some(ResourceStatus::Active)
            &&& after.cpu_millis == match req.cpu_millis {
                Some(c) => Some(c),
                None => before.cpu_millis,
            }
            &&& after.memory_mib == match req.memory_mib {
                Some(m) => Some(m),
                None => before.memory_mib,
            }
            &&& after.disk_mib == match req.disk_mib {
                Some(d) => Some(d),
                None => before.disk_mib,
            }
            &&& after == SpecView {
                cpu_millis: after.cpu_millis,
                memory_mib: after.memory_mib,
                disk_mib: after.disk_mib,
                ..before
            }
        }),
{
    let id = handle.resource@;
    assert(next.spec_status_of(id) == Some(ResourceStatus::Active));
}

} // verus!
