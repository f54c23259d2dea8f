//! Pieces shared by the in-process provider fixtures: evidence payloads,
//! journal entries and owned-handle checks, and one provider type that is
//! either fixture, so both can share one registry.

use vstd::prelude::*;
use crate::providers::error::ResourceProviderError;
use crate::providers::evidence::{
    EvidenceKind, ResourceEvidenceJournal, ResourceEvidenceRecord, evidence_locator, hex_encode, json_object,
    json_object_bytes, record_view, sha256, text_fields, count_fields,
};
use crate::providers::descriptor::{ProviderDescriptor, ProviderHealth};
use crate::providers::local_containers::LocalContainersFixture;
use crate::providers::model::{ProviderId, ResourceClass, ResourceHandle, ResourceSpec, ResourceStatus, class_name};
use crate::providers::provider::{ExecutionResourceProvider, ProviderAnswer, LifecycleOp, LifecycleOutcome};
use crate::providers::sandbox_cloud::SandboxCloudFixture;
use crate::text::strs_equal;

verus! {

/// The journal entry (as plain values) recorded at position `seq` of
/// `provider`'s journal for `payload` under `kind`.
pub open spec fn journal_entry(provider: Seq<char>, seq: nat, kind: EvidenceKind, payload: Seq<u8>) -> (
    Seq<char>,
    Seq<char>,
    EvidenceKind,
    Seq<u8>,
) {
    (evidence_locator(provider, seq), hex_encode(sha256(payload)), kind, payload)
}

/// The payload of a resource transition fact.
pub open spec fn transition_payload(
    provider: Seq<char>,
    resource: Seq<char>,
    class: ResourceClass,
    op: Seq<char>,
    detail: Seq<char>,
) -> Seq<u8> {
    json_object(
        seq![
            ("provider"@, provider),
            ("fact"@, "resource_transition"@),
            ("resource"@, resource),
            ("class"@, class_name(class)),
            ("op"@, op),
            ("detail"@, detail),
        ],
        Seq::empty(),
    )
}

/// The payload of a fact with only string-valued fields.
pub fn text_payload(fields: Vec<(String, String)>) -> (r: Vec<u8>)
    ensures
        r@ == json_object(text_fields(fields@), Seq::empty()),
{
    let counts: Vec<(String, u64)> = Vec::new();
    assert(count_fields(counts@) =~= Seq::empty());
    json_object_bytes(&fields, &counts)
}

/// The payload of a resource transition fact.
pub fn transition_payload_bytes(provider: &str, resource: &str, class: ResourceClass, op: &str, detail: &str) -> (r: Vec<u8>)
    ensures
        r@ == transition_payload(provider@, resource@, class, op@, detail@),
{
    let mut fields: Vec<(String, String)> = Vec::new();
    fields.push((String::from_str("provider"), String::from_str(provider)));
    fields.push((String::from_str("fact"), String::from_str("resource_transition")));
    fields.push((String::from_str("resource"), String::from_str(resource)));
    fields.push((String::from_str("class"), String::from_str(class.as_str())));
    fields.push((String::from_str("op"), String::from_str(op)));
    fields.push((String::from_str("detail"), String::from_str(detail)));
    assert(text_fields(fields@) =~= seq![
        ("provider"@, provider@),
        ("fact"@, "resource_transition"@),
        ("resource"@, resource@),
        ("class"@, class_name(class)),
        ("op"@, op@),
        ("detail"@, detail@),
    ]);
    text_payload(fields)
}

/// Records `payload` under `kind` in a journal.
pub fn journal_payload(journal: &mut ResourceEvidenceJournal, kind: EvidenceKind, payload: Vec<u8>)
    requires
        old(journal).wf(),
        old(journal).spec_records().len() < u64::MAX,
    ensures
        final(journal).wf(),
        final(journal).spec_provider() == old(journal).spec_provider(),
        final(journal).spec_records() == old(journal).spec_records().push(
            journal_entry(old(journal).spec_provider(), old(journal).spec_records().len(), kind, payload@),
        ),
{
    let ghost p = payload@;
    let _record = journal.record(kind, payload);
}

/// The `ResourceLost` failure for `resource` of `provider`.
pub fn resource_lost(provider: &ProviderId, resource: &String) -> (e: ResourceProviderError)
    ensures
        e matches ResourceProviderError::ResourceLost { provider: p, resource: res } && p.spec_str() == provider.spec_str()
            && res@ == resource@,
{
    ResourceProviderError::ResourceLost { provider: provider.duplicate(), resource: resource.clone() }
}

/// Whether two provider ids are the same.
pub fn same_provider(a: &ProviderId, b: &ProviderId) -> (r: bool)
    ensures
        r == (a.spec_str() == b.spec_str()),
{
    strs_equal(a.as_str(), b.as_str())
}

/// A copy of a journal's records.
pub fn copy_records(records: &Vec<ResourceEvidenceRecord>) -> (r: Vec<ResourceEvidenceRecord>)
    ensures
        r@.map_values(|x: ResourceEvidenceRecord| record_view(x)) == records@.map_values(|x: ResourceEvidenceRecord| record_view(x)),
{
    let mut out: Vec<ResourceEvidenceRecord> = Vec::new();
    let mut i: usize = 0;
    while i < records.len()
        invariant
            i <= records@.len(),
            out@.map_values(|x: ResourceEvidenceRecord| record_view(x)) =~= records@.take(i as int).map_values(
                |x: ResourceEvidenceRecord| record_view(x),
            ),
        decreases records@.len() - i,
    {
        let r = &records[i];
        let mut payload: Vec<u8> = Vec::new();
        let mut j: usize = 0;
        while j < r.payload.len()
            invariant
                j <= r.payload@.len(),
                payload@ =~= r.payload@.take(j as int),
            decreases r.payload@.len() - j,
        {
            payload.push(r.payload[j]);
            j += 1;
        }
        assert(r.payload@.take(j as int) =~= r.payload@);
        let copy = ResourceEvidenceRecord {
            locator: r.locator.clone(),
            digest_hex: r.digest_hex.clone(),
            kind: r.kind,
            payload,
        };
        assert(record_view(copy) == record_view(records@[i as int]));
        let ghost before = out@;
        out.push(copy);
        assert(out@.map_values(|x: ResourceEvidenceRecord| record_view(x)) =~= before.map_values(
            |x: ResourceEvidenceRecord| record_view(x),
        ).push(record_view(copy)));
        assert(records@.take(i + 1) =~= records@.take(i as int).push(records@[i as int]));
        i += 1;
    }
    assert(records@.take(i as int) =~= records@);
    out
}

/// Either in-process fixture, as one provider type.
pub enum FixtureProvider {
    /// The ephemeral sandbox cloud fixture.
    SandboxCloud(SandboxCloudFixture),
    /// The local container fixture.
    LocalContainers(LocalContainersFixture),
}

impl ExecutionResourceProvider for FixtureProvider {
    open spec fn inv(&self) -> bool {
        match self {
            FixtureProvider::SandboxCloud(f) => f.inv(),
            FixtureProvider::LocalContainers(f) => f.inv(),
        }
    }

    open spec fn headroom(&self) -> nat {
        match self {
            FixtureProvider::SandboxCloud(f) => f.headroom(),
            FixtureProvider::LocalContainers(f) => f.headroom(),
        }
    }

    open spec fn declaration(&self) -> ProviderDescriptor {
        match self {
            FixtureProvider::SandboxCloud(f) => f.declaration(),
            FixtureProvider::LocalContainers(f) => f.declaration(),
        }
    }

    open spec fn resource_status(&self, id: Seq<char>) -> Option<ResourceStatus> {
        match self {
            FixtureProvider::SandboxCloud(f) => f.resource_status(id),
            FixtureProvider::LocalContainers(f) => f.resource_status(id),
        }
    }

    open spec fn resource_class(&self, id: Seq<char>) -> ResourceClass {
        match self {
            FixtureProvider::SandboxCloud(f) => f.resource_class(id),
            FixtureProvider::LocalContainers(f) => f.resource_class(id),
        }
    }

    open spec fn evidence(&self) -> Seq<(Seq<char>, Seq<char>, EvidenceKind, Seq<u8>)> {
        match self {
            FixtureProvider::SandboxCloud(f) => f.spec_journal(),
            FixtureProvider::LocalContainers(f) => f.spec_journal(),
        }
    }

    open spec fn answers(&self) -> Seq<ProviderAnswer> {
        match self {
            FixtureProvider::SandboxCloud(f) => f.spec_answered(),
            FixtureProvider::LocalContainers(f) => f.spec_answered(),
        }
    }

    open spec fn healthy(&self) -> bool {
        match self {
            FixtureProvider::SandboxCloud(f) => ExecutionResourceProvider::healthy(f),
            FixtureProvider::LocalContainers(f) => ExecutionResourceProvider::healthy(f),
        }
    }

    fn has_headroom(&self) -> (r: bool) {
        match self {
            FixtureProvider::SandboxCloud(f) => ExecutionResourceProvider::has_headroom(f),
            FixtureProvider::LocalContainers(f) => ExecutionResourceProvider::has_headroom(f),
        }
    }

    fn descriptor(&self) -> (r: &ProviderDescriptor) {
        match self {
            FixtureProvider::SandboxCloud(f) => ExecutionResourceProvider::descriptor(f),
            FixtureProvider::LocalContainers(f) => ExecutionResourceProvider::descriptor(f),
        }
    }

    fn probe(&self) -> (r: Result<ProviderHealth, ResourceProviderError>)
        ensures
            self matches FixtureProvider::SandboxCloud(f) ==> f.probe_answered(r),
            self matches FixtureProvider::LocalContainers(f) ==> r == Ok::<ProviderHealth, ResourceProviderError>(
                f.spec_descriptor().health,
            ),
    {
        match self {
            FixtureProvider::SandboxCloud(f) => ExecutionResourceProvider::probe(f),
            FixtureProvider::LocalContainers(f) => ExecutionResourceProvider::probe(f),
        }
    }

    fn create(&mut self, spec: ResourceSpec) -> (r: Result<ResourceHandle, ResourceProviderError>)
        ensures
            *old(self) matches FixtureProvider::SandboxCloud(f) ==> (*final(self) matches FixtureProvider::SandboxCloud(g)
                && g.create_answered(&f, spec, r)),
            *old(self) matches FixtureProvider::LocalContainers(f) ==> (*final(self) matches FixtureProvider::LocalContainers(g)
                && g.create_answered(&f, spec, r)),
    {
        match self {
            FixtureProvider::SandboxCloud(f) => ExecutionResourceProvider::create(f, spec),
            FixtureProvider::LocalContainers(f) => ExecutionResourceProvider::create(f, spec),
        }
    }

    fn status(&self, handle: &ResourceHandle) -> (r: Result<ResourceStatus, ResourceProviderError>) {
        match self {
            FixtureProvider::SandboxCloud(f) => ExecutionResourceProvider::status(f, handle),
            FixtureProvider::LocalContainers(f) => ExecutionResourceProvider::status(f, handle),
        }
    }

    fn release(&mut self, handle: &ResourceHandle) -> (r: Result<ResourceHandle, ResourceProviderError>) {
        match self {
            FixtureProvider::SandboxCloud(f) => ExecutionResourceProvider::release(f, handle),
            FixtureProvider::LocalContainers(f) => ExecutionResourceProvider::release(f, handle),
        }
    }

    fn lifecycle(&mut self, handle: &ResourceHandle, op: LifecycleOp) -> (r: Result<LifecycleOutcome, ResourceProviderError>)
        ensures
            *old(self) matches FixtureProvider::SandboxCloud(f) ==> (*final(self) matches FixtureProvider::SandboxCloud(g)
                && g.lifecycle_answered(&f, *handle, op, r)),
            *old(self) matches FixtureProvider::LocalContainers(f) ==> (*final(self) matches FixtureProvider::LocalContainers(g)
                && g.lifecycle_answered(&f, *handle, op, r)),
    {
        match self {
            FixtureProvider::SandboxCloud(f) => ExecutionResourceProvider::lifecycle(f, handle, op),
            FixtureProvider::LocalContainers(f) => ExecutionResourceProvider::lifecycle(f, handle, op),
        }
    }

    fn evidence_records(&self) -> (r: Vec<ResourceEvidenceRecord>) {
        match self {
            FixtureProvider::SandboxCloud(f) => ExecutionResourceProvider::evidence_records(f),
            FixtureProvider::LocalContainers(f) => ExecutionResourceProvider::evidence_records(f),
        }
    }
}

} // verus!
