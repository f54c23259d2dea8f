//! The shared provider-neutral conformance harness.
//!
//! [`assert_provider_conformance`] runs one identical operation script and
//! one identical assertion set against any [`ExecutionResourceProvider`]
//! that is reachable and healthy when it runs: probe, create, status, the
//! full lifecycle matrix, undeclared-feature rejection, invalid-spec
//! rejection, unique id minting, release semantics, foreign-handle
//! rejection, binding minting, and provider-scoped, credential-free
//! evidence. Every expectation is derived from the provider's own
//! descriptor: an operation the provider does not declare must surface as
//! an explicit `Unsupported`, never a silent no-op.
//!
//! The harness answers the first violated expectation as an error message
//! instead of stopping the process; `Ok` is the conformance pass. What it
//! hands the provider is built by the public builders here
//! ([`minimal_spec`], [`networked_spec`], [`gpu_spec`], [`oversized_spec`],
//! [`resize_probe`], [`foreign_handle`]); each answer the provider gives
//! is judged by a function of [`crate::providers::verdicts`], whose
//! contract names the first expectation it violates.

use vstd::prelude::*;
use crate::keyed_map::KeyedMap;
use crate::text::{chars_of, decimal, ends_with, has_prefix, has_suffix, lemma_decimal_value, push_decimal, starts_with, strs_equal};
use crate::providers::descriptor::{ProviderDescriptor, ProviderHealthStatus, ResourceCapability, descriptor_error};
use crate::providers::error::ResourceProviderError;
use crate::providers::evidence::{
    EVIDENCE_LOCATOR_PREFIX, EvidenceKind, ResourceEvidenceRecord, evidence_identified, lemma_hex_encode_lower, lower_hex,
    record_view, sha256,
};
use crate::providers::verdicts::{
    fork_failure, lost_failure, pause_failure, post_release_failure, provisioned_failure, recreate_failure, rejection_failure,
    released_failure, resize_failure, resume_failure, second_failure, snapshot_failure,
    descriptor_failure, descriptor_rejection, failure, harness_prefix, judged, judge_binding, judge_fork, judge_lost, judge_pause, judge_post_release,
    judge_probe, judge_provisioned, judge_recreate, judge_rejected, judge_released, judge_resize, judge_resume, judge_second,
    judge_snapshot, judge_status, judge_success, judge_unbindable, later_failure,
};
use crate::providers::model::{NetworkPolicy, ProviderId, ResourceClass, ResourceHandle, ResourceSpec, ResourceStatus, SPEC_LABELS_MAX};
use crate::providers::provider::{ExecutionResourceProvider, LifecycleOp, LifecycleOutcome, ProviderAnswer, ResizeRequest};

verus! {

/// The most state-changing provider operations the harness performs for
/// one declared capability.
pub const CONFORMANCE_STEPS_PER_CAPABILITY: usize = 24;

/// The byte with ASCII upper-case letters folded to lower case.
pub open spec fn lower_byte(b: u8) -> u8 {
    if 65 <= b <= 90 {
        (b + 32) as u8
    } else {
        b
    }
}

/// `word` occurs in `payload` at position `i`, ignoring ASCII case.
pub open spec fn mentions_at(payload: Seq<u8>, word: Seq<char>, i: int) -> bool {
    &&& 0 <= i
    &&& i + word.len() <= payload.len()
    &&& forall|j: int| 0 <= j < word.len() ==> lower_byte(#[trigger] payload[i + j]) as u32 == word[j] as u32
}

/// `word` occurs somewhere in `payload`, ignoring ASCII case.
pub open spec fn mentions(payload: Seq<u8>, word: Seq<char>) -> bool {
    exists|i: int| mentions_at(payload, word, i)
}

/// Whether `word` occurs in the payload bytes, ignoring ASCII case.
pub fn payload_mentions(payload: &Vec<u8>, word: &str) -> (r: bool)
    ensures
        r == mentions(payload@, word@),
{
    let w = chars_of(word);
    if w.len() == 0 {
        assert(mentions_at(payload@, word@, 0));
        return true;
    }
    if w.len() > payload.len() {
        proof {
            assert forall|i: int| !mentions_at(payload@, word@, i) by {}
        }
        return false;
    }
    let last = payload.len() - w.len();
    let mut i: usize = 0;
    while i <= last
        invariant
            w@ == word@,
            0 < w@.len() <= payload@.len(),
            payload@.len() <= usize::MAX,
            last + w@.len() == payload@.len(),
            i <= last + 1,
            forall|k: int| 0 <= k < i ==> !mentions_at(payload@, word@, k),
        decreases last + 1 - i,
    {
        let mut j: usize = 0;
        let mut matched = true;
        while matched && j < w.len()
            invariant
                w@ == word@,
                i <= last,
                last + w@.len() == payload@.len(),
                j <= w@.len(),
                payload@.len() <= usize::MAX,
                forall|t: int| 0 <= t < j ==> lower_byte(#[trigger] payload@[i + t]) as u32 == w@[t] as u32,
                !matched ==> j < w@.len() && lower_byte(payload@[i + j as int]) as u32 != w@[j as int] as u32,
            decreases w@.len() - j + if matched { 1int } else { 0int },
        {
            let b = payload[i + j];
            let lowered: u8 = if 65 <= b && b <= 90 { b + 32 } else { b };
            assert(lowered == lower_byte(payload@[i + j as int]));
            if lowered as u32 != w[j] as u32 {
                matched = false;
            } else {
                j += 1;
            }
        }
        if matched {
            assert(mentions_at(payload@, word@, i as int));
            return true;
        }
        assert(!mentions_at(payload@, word@, i as int));
        i += 1;
    }
    false
}

/// A minimal valid spec for `class`: no optional fields, so provider
/// defaults apply.
pub fn minimal_spec(class: ResourceClass) -> (r: ResourceSpec)
    ensures
        r.class == class,
        r.labels.wf(),
        r.labels.len() == 0,
        r.cpu_millis is None && r.memory_mib is None && r.disk_mib is None && r.gpu is None,
        r.os is None && r.region is None && r.network is None,
{
    ResourceSpec {
        class,
        cpu_millis: None,
        memory_mib: None,
        disk_mib: None,
        gpu: None,
        os: None,
        region: None,
        labels: KeyedMap::new(),
        network: None,
    }
}

/// The key of the `j`-th oversized label.
pub open spec fn label_key(j: nat) -> Seq<char> {
    "label"@ + decimal(j)
}

/// Distinct positions give distinct label keys.
proof fn lemma_label_keys_distinct(a: nat, b: nat)
    requires
        a != b,
    ensures
        label_key(a) != label_key(b),
{
    reveal_strlit("label");
    lemma_decimal_value(a);
    lemma_decimal_value(b);
    if label_key(a) == label_key(b) {
        assert(label_key(a).subrange(5, label_key(a).len() as int) =~= decimal(a));
        assert(label_key(b).subrange(5, label_key(b).len() as int) =~= decimal(b));
    }
}

/// Two more labels than a spec may carry: `label0`, `label1`, ... each
/// valued `value`.
pub fn oversized_labels() -> (r: KeyedMap<String>)
    ensures
        r.wf(),
        r.len() == SPEC_LABELS_MAX + 2,
        forall|k: Seq<char>| #[trigger] r.contains(k) <==> exists|j: nat| j < SPEC_LABELS_MAX + 2 && k == label_key(j),
        forall|j: nat| j < SPEC_LABELS_MAX + 2 ==> (#[trigger] r.lookup(label_key(j)) matches Some(v) && v@ == "value"@),
{
    let mut labels: KeyedMap<String> = KeyedMap::new();
    let mut index: usize = 0;
    while index <= SPEC_LABELS_MAX + 1
        invariant
            labels.wf(),
            index <= SPEC_LABELS_MAX + 2,
            labels.len() == index,
            forall|k: Seq<char>| #[trigger] labels.contains(k) <==> exists|j: nat| j < index && k == label_key(j),
            forall|j: nat| j < index ==> (#[trigger] labels.lookup(label_key(j)) matches Some(v) && v@ == "value"@),
        decreases SPEC_LABELS_MAX + 2 - index,
    {
        let mut key = String::from_str("label");
        push_decimal(&mut key, index as u64);
        let ghost k0 = key@;
        assert(k0 == label_key(index as nat));
        proof {
            if labels.contains(k0) {
                let j = choose|j: nat| j < index && k0 == label_key(j);
                lemma_label_keys_distinct(j, index as nat);
            }
        }
        let ghost before = labels;
        let _ = labels.insert(key, String::from_str("value"));
        proof {
            assert forall|k: Seq<char>| #[trigger] labels.contains(k) <==> exists|j: nat| j < index + 1 && k == label_key(j) by {
                if k == k0 {
                    assert(k == label_key(index as nat));
                } else if before.contains(k) {
                    let j = choose|j: nat| j < index && k == label_key(j);
                    assert(j < index + 1 && k == label_key(j));
                } else if exists|j: nat| j < index + 1 && k == label_key(j) {
                    let j = choose|j: nat| j < index + 1 && k == label_key(j);
                    if j < index {
                        assert(before.contains(k));
                    }
                }
            }
            assert forall|j: nat| j < index + 1 implies (#[trigger] labels.lookup(label_key(j)) matches Some(v) && v@ == "value"@) by {
                if j < index {
                    lemma_label_keys_distinct(j, index as nat);
                    assert(before.lookup(label_key(j)) matches Some(v) && v@ == "value"@);
                }
            }
        }
        index += 1;
    }
    labels
}

/// Whether some capability of the list serves `class`.
pub open spec fn serves_class(caps: Seq<ResourceCapability>, class: ResourceClass) -> bool {
    exists|i: int| 0 <= i < caps.len() && #[trigger] caps[i].class == class
}

/// The first class in declaration order (sandbox, remote desktop,
/// persistent workspace, GPU compute) that no capability serves.
pub open spec fn first_unserved_class(caps: Seq<ResourceCapability>) -> Option<ResourceClass> {
    if !serves_class(caps, ResourceClass::Sandbox) {
        Some(ResourceClass::Sandbox)
    } else if !serves_class(caps, ResourceClass::RemoteDesktop) {
        Some(ResourceClass::RemoteDesktop)
    } else if !serves_class(caps, ResourceClass::PersistentWorkspace) {
        Some(ResourceClass::PersistentWorkspace)
    } else if !serves_class(caps, ResourceClass::GpuCompute) {
        Some(ResourceClass::GpuCompute)
    } else {
        None
    }
}

/// The first resource class, in declaration order, that a descriptor does
/// not serve.
pub fn first_unserved(descriptor: &ProviderDescriptor) -> (r: Option<ResourceClass>)
    ensures
        r == first_unserved_class(descriptor.capabilities@),
{
    if !descriptor.serves(ResourceClass::Sandbox) {
        return Some(ResourceClass::Sandbox);
    }
    if !descriptor.serves(ResourceClass::RemoteDesktop) {
        return Some(ResourceClass::RemoteDesktop);
    }
    if !descriptor.serves(ResourceClass::PersistentWorkspace) {
        return Some(ResourceClass::PersistentWorkspace);
    }
    if !descriptor.serves(ResourceClass::GpuCompute) {
        return Some(ResourceClass::GpuCompute);
    }
    None
}

/// The minimal spec of `class` asking for an isolated network.
pub fn networked_spec(class: ResourceClass) -> (r: ResourceSpec)
    ensures
        r.class == class,
        r.labels.wf(),
        r.labels.len() == 0,
        r.cpu_millis is None && r.memory_mib is None && r.disk_mib is None && r.gpu is None,
        r.os is None && r.region is None && r.network == Some(NetworkPolicy::Isolated),
{
    let mut spec = minimal_spec(class);
    spec.network = Some(NetworkPolicy::Isolated);
    spec
}

/// The minimal spec of `class` asking for one GPU.
pub fn gpu_spec(class: ResourceClass) -> (r: ResourceSpec)
    ensures
        r.class == class,
        r.labels.wf(),
        r.labels.len() == 0,
        r.cpu_millis is None && r.memory_mib is None && r.disk_mib is None && r.gpu == Some(1u32),
        r.os is None && r.region is None && r.network is None,
{
    let mut spec = minimal_spec(class);
    spec.gpu = Some(1);
    spec
}

/// The minimal spec of `class` carrying the oversized label set.
pub fn oversized_spec(class: ResourceClass) -> (r: ResourceSpec)
    ensures
        r.class == class,
        r.labels.wf(),
        r.labels.len() == SPEC_LABELS_MAX + 2,
        forall|k: Seq<char>| #[trigger] r.labels.contains(k) <==> exists|j: nat| j < SPEC_LABELS_MAX + 2 && k == label_key(j),
        forall|j: nat| j < SPEC_LABELS_MAX + 2 ==> (#[trigger] r.labels.lookup(label_key(j)) matches Some(v) && v@ == "value"@),
        r.cpu_millis is None && r.memory_mib is None && r.disk_mib is None && r.gpu is None,
        r.os is None && r.region is None && r.network is None,
{
    let mut spec = minimal_spec(class);
    spec.labels = oversized_labels();
    spec
}

/// The resize the matrix requests: the capability's full CPU allowance,
/// nothing else.
pub fn resize_probe(capability: ResourceCapability) -> (r: ResizeRequest)
    ensures
        r == (ResizeRequest { cpu_millis: Some(capability.capacity.max_cpu_millis), memory_mib: None, disk_mib: None }),
{
    ResizeRequest { cpu_millis: Some(capability.capacity.max_cpu_millis), memory_mib: None, disk_mib: None }
}

/// The foreign provider the suite impersonates.
pub open spec fn foreign_provider() -> Seq<char> {
    "some-other-provider"@
}

/// An active handle of `class` that no provider under test minted: the
/// resource `foreign-resource-1` of the provider `some-other-provider`.
pub fn foreign_handle(class: ResourceClass) -> (r: Result<ResourceHandle, String>)
    ensures
        r matches Ok(h) && h.resource@ == "foreign-resource-1"@ && h.provider.spec_str() == foreign_provider()
            && h.class == class && h.status is Active,
{
    let provider = match ProviderId::parse(String::from_str("some-other-provider")) {
        Ok(p) => p,
        Err(_) => {
            proof {
                reveal_strlit("some-other-provider");
                assert(crate::providers::model::valid_name_segment("some-other-provider"@));
            }
            return Err(failure("the foreign provider id does not parse"));
        },
    };
    Ok(ResourceHandle {
        resource: String::from_str("foreign-resource-1"),
        class,
        provider,
        status: ResourceStatus::Active,
    })
}

/// The answer a `create` gave, from a record of answers.
pub open spec fn created_answer(x: ProviderAnswer) -> Result<ResourceHandle, ResourceProviderError> {
    match x {
        ProviderAnswer::Created(r) => r,
        _ => vstd::pervasive::arbitrary(),
    }
}

/// The answer a `release` gave, from a record of answers.
pub open spec fn released_answer(x: ProviderAnswer) -> Result<ResourceHandle, ResourceProviderError> {
    match x {
        ProviderAnswer::Released(r) => r,
        _ => vstd::pervasive::arbitrary(),
    }
}

/// The answer a `lifecycle` call gave, from a record of answers.
pub open spec fn dispatched_answer(x: ProviderAnswer) -> Result<LifecycleOutcome, ResourceProviderError> {
    match x {
        ProviderAnswer::Dispatched(r) => r,
        _ => vstd::pervasive::arbitrary(),
    }
}

/// The resize request the matrix sends for a capability.
pub open spec fn resize_request_of(capability: ResourceCapability) -> ResizeRequest {
    ResizeRequest { cpu_millis: Some(capability.capacity.max_cpu_millis), memory_mib: None, disk_mib: None }
}

/// The provisioning phase judged on the answers `a` from position `i`:
/// the first violated expectation, if any, and the position after the
/// answers the phase reads. Status and binding checks and the release of
/// the second resource are left out: the provider port's contract already
/// settles them.
pub open spec fn provisioning_verdict(provider: Seq<char>, class: ResourceClass, a: Seq<ProviderAnswer>, i: int) -> (
    Option<Seq<char>>,
    int,
) {
    let first = created_answer(a[i]);
    if provisioned_failure(first, provider, class) is Some {
        (provisioned_failure(first, provider, class), i + 1)
    } else if second_failure(created_answer(a[i + 1]), first->Ok_0.resource@) is Some {
        (second_failure(created_answer(a[i + 1]), first->Ok_0.resource@), i + 2)
    } else {
        (None, i + 3)
    }
}

/// The lifecycle matrix judged on the answers `a` from position `i`, for
/// the provisioned handle `h`; statuses and the releases of minted
/// resources are settled by the port's contract.
pub open spec fn matrix_verdict(
    provider: Seq<char>,
    capability: ResourceCapability,
    h: ResourceHandle,
    a: Seq<ProviderAnswer>,
    i: int,
) -> (Option<Seq<char>>, int) {
    let l = capability.lifecycle;
    let pause = dispatched_answer(a[i]);
    if pause_failure(l, provider, pause) is Some {
        (pause_failure(l, provider, pause), i + 1)
    } else if pause is Ok && resume_failure(dispatched_answer(a[i + 1])) is Some {
        (resume_failure(dispatched_answer(a[i + 1])), i + 2)
    } else {
        let j = if pause is Ok { i + 2 } else { i + 1 };
        let snap = dispatched_answer(a[j]);
        let fork = dispatched_answer(a[j + 1]);
        let k = if fork is Ok { j + 3 } else { j + 2 };
        let resize = dispatched_answer(a[k]);
        let again = dispatched_answer(a[k + 1]);
        if snapshot_failure(l, provider, h.resource@, snap) is Some {
            (snapshot_failure(l, provider, h.resource@, snap), j + 1)
        } else if fork_failure(l, provider, capability.class, h.resource@, fork) is Some {
            (fork_failure(l, provider, capability.class, h.resource@, fork), j + 2)
        } else if resize_failure(l, provider, h.resource@, resize_request_of(capability), resize) is Some {
            (resize_failure(l, provider, h.resource@, resize_request_of(capability), resize), k + 1)
        } else if recreate_failure(l, provider, capability.class, h.resource@, again) is Some {
            (recreate_failure(l, provider, capability.class, h.resource@, again), k + 2)
        } else {
            (None, if again is Ok { k + 3 } else { k + 2 })
        }
    }
}

/// The rejection phase judged on the answers `a` from position `i`.
pub open spec fn rejections_verdict(
    capability: ResourceCapability,
    unserved: Option<ResourceClass>,
    a: Seq<ProviderAnswer>,
    i: int,
) -> (Option<Seq<char>>, int) {
    let net = !capability.lifecycle.network_policy;
    let gpu = !capability.lifecycle.gpu;
    let i1 = if net { i + 1 } else { i };
    let i2 = if gpu { i1 + 1 } else { i1 };
    if net && rejection_failure(created_answer(a[i]), "an undeclared network policy was not rejected"@) is Some {
        (rejection_failure(created_answer(a[i]), "an undeclared network policy was not rejected"@), i1)
    } else if gpu && rejection_failure(created_answer(a[i1]), "an undeclared GPU request was not rejected"@) is Some {
        (rejection_failure(created_answer(a[i1]), "an undeclared GPU request was not rejected"@), i2)
    } else if rejection_failure(created_answer(a[i2]), "an oversized label set was not rejected"@) is Some {
        (rejection_failure(created_answer(a[i2]), "an oversized label set was not rejected"@), i2 + 1)
    } else if unserved is Some {
        (rejection_failure(created_answer(a[i2 + 1]), "an unserved class was not rejected"@), i2 + 2)
    } else {
        (None, i2 + 1)
    }
}

/// The release phase judged on the answers `a` from position `i`; the
/// status after release, the refused binding and the foreign status are
/// settled by the port's contract when the provider is not the foreign one.
pub open spec fn release_verdict(
    capability: ResourceCapability,
    a: Seq<ProviderAnswer>,
    i: int,
) -> (Option<Seq<char>>, int) {
    let l = capability.lifecycle;
    let rel = released_answer(a[i]);
    let again = dispatched_answer(a[i + 1]);
    let j = if again is Ok { i + 3 } else { i + 2 };
    let j2 = if l.pause_resume { j + 1 } else { j };
    if released_failure(rel) is Some {
        (released_failure(rel), i + 1)
    } else if post_release_failure(l, rel->Ok_0.resource@, again) is Some {
        (post_release_failure(l, rel->Ok_0.resource@, again), i + 2)
    } else if l.pause_resume && lost_failure(dispatched_answer(a[j]), "pause on a released resource did not surface the loss"@) is Some {
        (lost_failure(dispatched_answer(a[j]), "pause on a released resource did not surface the loss"@), j + 1)
    } else if lost_failure(dispatched_answer(a[j2]), "a foreign handle's lifecycle was dispatched"@) is Some {
        (lost_failure(dispatched_answer(a[j2]), "a foreign handle's lifecycle was dispatched"@), j2 + 1)
    } else {
        (lost_failure(released_answer(a[j2 + 1]), "a foreign handle was released"@), j2 + 2)
    }
}

/// One capability's phases judged on the answers `a` from position `i`.
pub open spec fn capability_verdict(
    provider: Seq<char>,
    capability: ResourceCapability,
    unserved: Option<ResourceClass>,
    a: Seq<ProviderAnswer>,
    i: int,
) -> (Option<Seq<char>>, int) {
    let p = provisioning_verdict(provider, capability.class, a, i);
    let h = created_answer(a[i])->Ok_0;
    let m = matrix_verdict(provider, capability, h, a, p.1);
    let rj = rejections_verdict(capability, unserved, a, m.1);
    if p.0 is Some {
        p
    } else if m.0 is Some {
        m
    } else if rj.0 is Some {
        rj
    } else {
        release_verdict(capability, a, rj.1)
    }
}

/// The first `c` capabilities judged in order on the answers `a` from
/// position `i`: whether all passed, and the position after their answers.
pub open spec fn capabilities_verdict(
    provider: Seq<char>,
    caps: Seq<ResourceCapability>,
    unserved: Option<ResourceClass>,
    a: Seq<ProviderAnswer>,
    i: int,
    c: nat,
) -> (bool, int)
    decreases c,
{
    if c == 0 {
        (true, i)
    } else {
        let before = capabilities_verdict(provider, caps, unserved, a, i, (c - 1) as nat);
        if !before.0 {
            before
        } else {
            let v = capability_verdict(provider, caps[c - 1], unserved, a, before.1);
            (v.0 is None, v.1)
        }
    }
}

/// `b` extends `a`: it holds every answer of `a` at the same position.
pub open spec fn extends(b: Seq<ProviderAnswer>, a: Seq<ProviderAnswer>) -> bool {
    a.len() <= b.len() && forall|k: int| 0 <= k < a.len() ==> #[trigger] b[k] == a[k]
}

/// A capability's verdict reads only the answers before the position it
/// ends at, and ends past where it starts: later answers leave it as it
/// was.
proof fn lemma_capability_verdict_stable(
    provider: Seq<char>,
    capability: ResourceCapability,
    unserved: Option<ResourceClass>,
    a: Seq<ProviderAnswer>,
    b: Seq<ProviderAnswer>,
    i: int,
)
    requires
        0 <= i,
        extends(b, a),
        capability_verdict(provider, capability, unserved, a, i).1 <= a.len(),
    ensures
        capability_verdict(provider, capability, unserved, b, i) == capability_verdict(provider, capability, unserved, a, i),
{
    let p = provisioning_verdict(provider, capability.class, a, i);
    assert(provisioning_verdict(provider, capability.class, b, i) == p);
    if p.0 is None {
        let h = created_answer(a[i])->Ok_0;
        assert(created_answer(b[i]) == created_answer(a[i]));
        let m = matrix_verdict(provider, capability, h, a, p.1);
        assert(matrix_verdict(provider, capability, h, b, p.1) == m);
        if m.0 is None {
            let rj = rejections_verdict(capability, unserved, a, m.1);
            assert(rejections_verdict(capability, unserved, b, m.1) == rj);
            if rj.0 is None {
                assert(release_verdict(capability, b, rj.1) == release_verdict(capability, a, rj.1));
            }
        }
    }
}

proof fn lemma_capabilities_verdict_stable(
    provider: Seq<char>,
    caps: Seq<ResourceCapability>,
    unserved: Option<ResourceClass>,
    a: Seq<ProviderAnswer>,
    b: Seq<ProviderAnswer>,
    i: int,
    c: nat,
)
    requires
        0 <= i,
        c <= caps.len(),
        extends(b, a),
        capabilities_verdict(provider, caps, unserved, a, i, c).1 <= a.len(),
    ensures
        capabilities_verdict(provider, caps, unserved, b, i, c) == capabilities_verdict(provider, caps, unserved, a, i, c),
        capabilities_verdict(provider, caps, unserved, a, i, c).1 >= i,
    decreases c,
{
    if c > 0 {
        let before = capabilities_verdict(provider, caps, unserved, a, i, (c - 1) as nat);
        if before.0 {
            let v = capability_verdict(provider, caps[c - 1], unserved, a, before.1);
            assert(v.1 > before.1);
        }
        lemma_capabilities_verdict_stable(provider, caps, unserved, a, b, i, (c - 1) as nat);
        if before.0 {
            lemma_capability_verdict_stable(provider, caps[c - 1], unserved, a, b, before.1);
        }
    }
}

proof fn lemma_capabilities_fail(
    provider: Seq<char>,
    caps: Seq<ResourceCapability>,
    unserved: Option<ResourceClass>,
    a: Seq<ProviderAnswer>,
    i: int,
    c: nat,
    n: nat,
)
    requires
        c < n <= caps.len(),
        capabilities_verdict(provider, caps, unserved, a, i, c).0,
        capability_verdict(provider, caps[c as int], unserved, a, capabilities_verdict(provider, caps, unserved, a, i, c).1).0 is Some,
    ensures
        !capabilities_verdict(provider, caps, unserved, a, i, n).0,
    decreases n,
{
    if n > c + 1 {
        lemma_capabilities_fail(provider, caps, unserved, a, i, c, (n - 1) as nat);
    }
}

/// Once the first `c` capabilities passed on `a0`, a failing capability
/// `c` on the longer record `a` fails the whole suite.
proof fn lemma_suite_fails_at(
    provider: Seq<char>,
    caps: Seq<ResourceCapability>,
    unserved: Option<ResourceClass>,
    a0: Seq<ProviderAnswer>,
    a: Seq<ProviderAnswer>,
    i: int,
    c: nat,
)
    requires
        0 <= i,
        c < caps.len(),
        extends(a, a0),
        capabilities_verdict(provider, caps, unserved, a0, i, c) == (true, a0.len() as int),
        capability_verdict(provider, caps[c as int], unserved, a, a0.len() as int).0 is Some,
    ensures
        !capabilities_verdict(provider, caps, unserved, a, i, caps.len()).0,
{
    lemma_capabilities_verdict_stable(provider, caps, unserved, a0, a, i, c);
    lemma_capabilities_fail(provider, caps, unserved, a, i, c, caps.len());
}

/// A passing capability `c` extends the verdict of the first `c`.
proof fn lemma_suite_step(
    provider: Seq<char>,
    caps: Seq<ResourceCapability>,
    unserved: Option<ResourceClass>,
    a0: Seq<ProviderAnswer>,
    a: Seq<ProviderAnswer>,
    i: int,
    c: nat,
)
    requires
        0 <= i,
        c < caps.len(),
        extends(a, a0),
        capabilities_verdict(provider, caps, unserved, a0, i, c) == (true, a0.len() as int),
        capability_verdict(provider, caps[c as int], unserved, a, a0.len() as int) == (None::<Seq<char>>, a.len() as int),
    ensures
        capabilities_verdict(provider, caps, unserved, a, i, c + 1) == (true, a.len() as int),
{
    lemma_capabilities_verdict_stable(provider, caps, unserved, a0, a, i, c);
}

/// Whether the suite passes a provider that was `before` when it started
/// and is `after` when it ends: the descriptor validates, the probe finds
/// it healthy or degraded, every capability's answers pass in declaration
/// order, and the evidence conforms.
pub open spec fn suite_passes<P: ExecutionResourceProvider>(before: P, after: P) -> bool {
    let d = before.declaration();
    let provider = d.provider.spec_str();
    &&& descriptor_error(d) is None
    &&& before.healthy()
    &&& capabilities_verdict(
        provider,
        d.capabilities@,
        first_unserved_class(d.capabilities@),
        after.answers(),
        before.answers().len() as int,
        d.capabilities@.len(),
    ).0
    &&& evidence_conforms_to(provider, after.evidence())
}

/// Create, status, unique minting and canonical binding for one class,
/// each answer judged in turn. A pass hands back the first provisioned
/// resource: a fresh id of the class, named by the provider, and still
/// active.
fn check_provisioning<P: ExecutionResourceProvider>(provider: &mut P, provider_id: &ProviderId, class: ResourceClass) -> (r: Result<
    ResourceHandle,
    String,
>)
    requires
        old(provider).inv(),
        old(provider).headroom() >= 3,
    ensures
        final(provider).inv(),
        final(provider).declaration() == old(provider).declaration(),
        final(provider).headroom() + 3 >= old(provider).headroom(),
        forall|k: Seq<char>| #[trigger] old(provider).resource_status(k) is Some ==> final(provider).resource_status(k) is Some,
        forall|k: Seq<char>| old(provider).resource_status(k) is Some ==> #[trigger] final(provider).resource_class(k) == old(provider).resource_class(k),
        r is Ok ==> forall|k: Seq<char>| #[trigger] old(provider).resource_status(k) is Some
            ==> final(provider).resource_status(k) == old(provider).resource_status(k),
        final(provider).answers().len() >= old(provider).answers().len(),
        forall|k: int| 0 <= k < old(provider).answers().len() ==> #[trigger] final(provider).answers()[k] == old(provider).answers()[k],
        judged(provisioning_verdict(provider_id.spec_str(), class, final(provider).answers(), old(provider).answers().len() as int).0, r),
        provisioning_verdict(provider_id.spec_str(), class, final(provider).answers(), old(provider).answers().len() as int).1
            == final(provider).answers().len(),
        r matches Ok(h) ==> created_answer(final(provider).answers()[old(provider).answers().len() as int])
            == Ok::<ResourceHandle, ResourceProviderError>(h),
        r matches Ok(h) ==> {
            &&& h.class == class
            &&& h.status is Active
            &&& h.provider.spec_str() == provider_id.spec_str()
            &&& h.provider.spec_str() == old(provider).declaration().provider.spec_str()
            &&& old(provider).resource_status(h.resource@) is None
            &&& final(provider).resource_status(h.resource@) == Some(ResourceStatus::Active)
            &&& final(provider).resource_class(h.resource@) == class
        },
        r matches Err(m) ==> later_failure(m@),
{
    let created = provider.create(minimal_spec(class));
    match judge_provisioned(&created, provider_id, class) {
        Ok(()) => {},
        Err(e) => {
            return Err(e);
        },
    }
    let handle = match created {
        Ok(h) => h,
        Err(_) => {
            return Err(failure("create failed"));
        },
    };
    proof {
        reveal_strlit("status disagrees with a fresh handle");
        reveal_strlit("release of the second resource failed");
    }
    match judge_status(&provider.status(&handle), ResourceStatus::Active, "status disagrees with a fresh handle") {
        Ok(()) => {},
        Err(e) => {
            return Err(e);
        },
    }
    let second_answer = provider.create(minimal_spec(class));
    match judge_second(&second_answer, &handle) {
        Ok(()) => {},
        Err(e) => {
            return Err(e);
        },
    }
    match &second_answer {
        Ok(second) => {
            match judge_success(&provider.release(second), "release of the second resource failed") {
                Ok(()) => {},
                Err(e) => {
                    return Err(e);
                },
            }
        },
        Err(_) => {},
    }
    match judge_binding(&handle, class) {
        Ok(()) => {},
        Err(e) => {
            return Err(e);
        },
    }
    Ok(handle)
}

/// Pause/resume, snapshot, fork, resize and lifecycle create, each per
/// the capability's declaration and each answer judged in turn. A pass
/// leaves an active resource active, and where fork or create is
/// declared, the resource it minted has been released again.
fn check_lifecycle_matrix<P: ExecutionResourceProvider>(
    provider: &mut P,
    provider_id: &ProviderId,
    capability: ResourceCapability,
    handle: &ResourceHandle,
) -> (r: Result<(), String>)
    requires
        old(provider).inv(),
        old(provider).headroom() >= 8,
    ensures
        final(provider).inv(),
        final(provider).declaration() == old(provider).declaration(),
        final(provider).headroom() + 8 >= old(provider).headroom(),
        forall|k: Seq<char>| #[trigger] old(provider).resource_status(k) is Some ==> final(provider).resource_status(k) is Some,
        forall|k: Seq<char>| old(provider).resource_status(k) is Some ==> #[trigger] final(provider).resource_class(k) == old(provider).resource_class(k),
        r is Ok ==> forall|k: Seq<char>| #[trigger] old(provider).resource_status(k) is Some && k != handle.resource@
            ==> final(provider).resource_status(k) == old(provider).resource_status(k),
        r is Ok && old(provider).resource_status(handle.resource@) == Some(ResourceStatus::Active)
            ==> final(provider).resource_status(handle.resource@) == Some(ResourceStatus::Active),
        final(provider).answers().len() >= old(provider).answers().len(),
        forall|k: int| 0 <= k < old(provider).answers().len() ==> #[trigger] final(provider).answers()[k] == old(provider).answers()[k],
        judged(matrix_verdict(provider_id.spec_str(), capability, *handle, final(provider).answers(), old(provider).answers().len() as int).0, r),
        matrix_verdict(provider_id.spec_str(), capability, *handle, final(provider).answers(), old(provider).answers().len() as int).1
            == final(provider).answers().len(),
        r is Ok && (capability.lifecycle.fork || capability.lifecycle.create) ==> exists|k: Seq<char>|
            old(provider).resource_status(k) is None && #[trigger] final(provider).resource_status(k) == Some(
                ResourceStatus::Released,
            ),
        r matches Err(m) ==> later_failure(m@),
{
    let lifecycle = capability.lifecycle;
    let class = capability.class;
    proof {
        reveal_strlit("status while paused is not paused");
        reveal_strlit("status after resume is not active");
        reveal_strlit("release of the fork failed");
        reveal_strlit("release of the recreation failed");
    }
    let paused = provider.lifecycle(handle, LifecycleOp::Pause);
    let did_pause = match judge_pause(lifecycle, provider_id, &paused) {
        Ok(b) => b,
        Err(e) => {
            return Err(e);
        },
    };
    if did_pause {
        match judge_status(&provider.status(handle), ResourceStatus::Paused, "status while paused is not paused") {
            Ok(()) => {},
            Err(e) => {
                return Err(e);
            },
        }
        match judge_resume(&provider.lifecycle(handle, LifecycleOp::Resume)) {
            Ok(()) => {},
            Err(e) => {
                return Err(e);
            },
        }
        match judge_status(&provider.status(handle), ResourceStatus::Active, "status after resume is not active") {
            Ok(()) => {},
            Err(e) => {
                return Err(e);
            },
        }
    }
    match judge_snapshot(lifecycle, provider_id, handle, &provider.lifecycle(handle, LifecycleOp::Snapshot)) {
        Ok(()) => {},
        Err(e) => {
            return Err(e);
        },
    }
    let forked = provider.lifecycle(handle, LifecycleOp::Fork);
    match judge_fork(lifecycle, provider_id, class, handle, &forked) {
        Ok(_) => {},
        Err(e) => {
            return Err(e);
        },
    }
    match &forked {
        Ok(LifecycleOutcome::Transitioned(fork)) => {
            match judge_success(&provider.release(fork), "release of the fork failed") {
                Ok(()) => {},
                Err(e) => {
                    return Err(e);
                },
            }
        },
        _ => {},
    }
    let request = resize_probe(capability);
    match judge_resize(lifecycle, provider_id, handle, request, &provider.lifecycle(handle, LifecycleOp::Resize(request))) {
        Ok(()) => {},
        Err(e) => {
            return Err(e);
        },
    }
    let recreated = provider.lifecycle(handle, LifecycleOp::Create);
    match judge_recreate(lifecycle, provider_id, class, handle, &recreated) {
        Ok(_) => {},
        Err(e) => {
            return Err(e);
        },
    }
    match &recreated {
        Ok(LifecycleOutcome::Transitioned(again)) => {
            match judge_success(&provider.release(again), "release of the recreation failed") {
                Ok(()) => {},
                Err(e) => {
                    return Err(e);
                },
            }
        },
        _ => {},
    }
    Ok(())
}

/// Undeclared features, oversized label sets and unserved classes must be
/// refused as invalid specs, each answer judged in turn. A pass
/// provisioned nothing: every resource keeps its status.
fn check_rejections<P: ExecutionResourceProvider>(
    provider: &mut P,
    capability: ResourceCapability,
    unserved: Option<ResourceClass>,
) -> (r: Result<(), String>)
    requires
        old(provider).inv(),
        old(provider).headroom() >= 4,
    ensures
        final(provider).inv(),
        final(provider).declaration() == old(provider).declaration(),
        final(provider).headroom() + 4 >= old(provider).headroom(),
        forall|k: Seq<char>| #[trigger] old(provider).resource_status(k) is Some ==> final(provider).resource_status(k) is Some,
        forall|k: Seq<char>| old(provider).resource_status(k) is Some ==> #[trigger] final(provider).resource_class(k) == old(provider).resource_class(k),
        final(provider).answers().len() >= old(provider).answers().len(),
        forall|k: int| 0 <= k < old(provider).answers().len() ==> #[trigger] final(provider).answers()[k] == old(provider).answers()[k],
        judged(rejections_verdict(capability, unserved, final(provider).answers(), old(provider).answers().len() as int).0, r),
        rejections_verdict(capability, unserved, final(provider).answers(), old(provider).answers().len() as int).1
            == final(provider).answers().len(),
        r is Ok ==> forall|k: Seq<char>| #[trigger] final(provider).resource_status(k) == old(provider).resource_status(k),
        r matches Err(m) ==> later_failure(m@),
{
    let class = capability.class;
    proof {
        reveal_strlit("an undeclared network policy was not rejected");
        reveal_strlit("an undeclared GPU request was not rejected");
        reveal_strlit("an oversized label set was not rejected");
        reveal_strlit("an unserved class was not rejected");
    }
    if !capability.lifecycle.network_policy {
        match judge_rejected(&provider.create(networked_spec(class)), "an undeclared network policy was not rejected") {
            Ok(()) => {},
            Err(e) => {
                return Err(e);
            },
        }
    }
    if !capability.lifecycle.gpu {
        match judge_rejected(&provider.create(gpu_spec(class)), "an undeclared GPU request was not rejected") {
            Ok(()) => {},
            Err(e) => {
                return Err(e);
            },
        }
    }
    match judge_rejected(&provider.create(oversized_spec(class)), "an oversized label set was not rejected") {
        Ok(()) => {},
        Err(e) => {
            return Err(e);
        },
    }
    match unserved {
        Some(other) => {
            match judge_rejected(&provider.create(minimal_spec(other)), "an unserved class was not rejected") {
                Ok(()) => {},
                Err(e) => {
                    return Err(e);
                },
            }
        },
        None => {},
    }
    Ok(())
}

/// Release semantics, recovery through `Create` after release, and
/// foreign-handle rejection, each answer judged in turn. A pass leaves the
/// handle's resource released and still known.
fn check_release<P: ExecutionResourceProvider>(
    provider: &mut P,
    capability: ResourceCapability,
    handle: &ResourceHandle,
) -> (r: Result<(), String>)
    requires
        old(provider).inv(),
        old(provider).headroom() >= 6,
    ensures
        final(provider).inv(),
        final(provider).declaration() == old(provider).declaration(),
        final(provider).headroom() + 6 >= old(provider).headroom(),
        forall|k: Seq<char>| #[trigger] old(provider).resource_status(k) is Some ==> final(provider).resource_status(k) is Some,
        forall|k: Seq<char>| old(provider).resource_status(k) is Some ==> #[trigger] final(provider).resource_class(k) == old(provider).resource_class(k),
        r is Ok ==> forall|k: Seq<char>| #[trigger] old(provider).resource_status(k) is Some && k != handle.resource@
            ==> final(provider).resource_status(k) == old(provider).resource_status(k),
        r is Ok ==> final(provider).resource_class(handle.resource@) == old(provider).resource_class(handle.resource@),
        final(provider).answers().len() >= old(provider).answers().len(),
        forall|k: int| 0 <= k < old(provider).answers().len() ==> #[trigger] final(provider).answers()[k] == old(provider).answers()[k],
        old(provider).declaration().provider.spec_str() != foreign_provider() ==> {
            &&& judged(release_verdict(capability, final(provider).answers(), old(provider).answers().len() as int).0, r)
            &&& release_verdict(capability, final(provider).answers(), old(provider).answers().len() as int).1
                == final(provider).answers().len()
        },
        r is Ok ==> final(provider).resource_status(handle.resource@) == Some(ResourceStatus::Released),
        r matches Err(m) ==> later_failure(m@),
{
    let lifecycle = capability.lifecycle;
    proof {
        reveal_strlit("release failed");
        reveal_strlit("status after release is not released");
        reveal_strlit("release of the post-release recreation failed");
        reveal_strlit("pause on a released resource did not surface the loss");
        reveal_strlit("the foreign provider id does not parse");
        reveal_strlit("a foreign handle's status was answered");
        reveal_strlit("a foreign handle's lifecycle was dispatched");
        reveal_strlit("a foreign handle was released");
    }
    let released_answer = provider.release(handle);
    match judge_released(&released_answer) {
        Ok(()) => {},
        Err(e) => {
            return Err(e);
        },
    }
    let released = match released_answer {
        Ok(h) => h,
        Err(_) => {
            return Err(failure("release failed"));
        },
    };
    match judge_status(&provider.status(&released), ResourceStatus::Released, "status after release is not released") {
        Ok(()) => {},
        Err(e) => {
            return Err(e);
        },
    }
    let again = provider.lifecycle(&released, LifecycleOp::Create);
    match judge_post_release(lifecycle, &released, &again) {
        Ok(_) => {},
        Err(e) => {
            return Err(e);
        },
    }
    match &again {
        Ok(LifecycleOutcome::Transitioned(recreated)) => {
            match judge_success(&provider.release(recreated), "release of the post-release recreation failed") {
                Ok(()) => {},
                Err(e) => {
                    return Err(e);
                },
            }
        },
        _ => {},
    }
    if lifecycle.pause_resume {
        match judge_lost(
            &provider.lifecycle(&released, LifecycleOp::Pause),
            "pause on a released resource did not surface the loss",
        ) {
            Ok(()) => {},
            Err(e) => {
                return Err(e);
            },
        }
    }
    match judge_unbindable(&released) {
        Ok(()) => {},
        Err(e) => {
            return Err(e);
        },
    }
    let foreign = match foreign_handle(capability.class) {
        Ok(h) => h,
        Err(e) => {
            return Err(e);
        },
    };
    match judge_lost(&provider.status(&foreign), "a foreign handle's status was answered") {
        Ok(()) => {},
        Err(e) => {
            return Err(e);
        },
    }
    match judge_lost(&provider.lifecycle(&foreign, LifecycleOp::Create), "a foreign handle's lifecycle was dispatched") {
        Ok(()) => {},
        Err(e) => {
            return Err(e);
        },
    }
    match judge_lost(&provider.release(&foreign), "a foreign handle was released") {
        Ok(()) => {},
        Err(e) => {
            return Err(e);
        },
    }
    Ok(())
}

/// The locator prefix of a provider's evidence.
pub open spec fn evidence_prefix(provider: Seq<char>) -> Seq<char> {
    "codex-resource-providers/"@ + provider + "/"@
}

/// Words no evidence payload mentions, in any ASCII case: credential
/// markers (the first seven) and workflow identity (the last two).
pub open spec fn forbidden_words() -> Seq<Seq<char>> {
    seq![
        "secret"@,
        "credential"@,
        "password"@,
        "bearer"@,
        "apikey"@,
        "api_key"@,
        "token"@,
        "workflowid"@,
        "versionid"@,
    ]
}

/// Record `i` of a provider's evidence is provider-scoped and sequential,
/// carries a 64-digit lowercase hex digest, and mentions no forbidden word.
pub open spec fn record_conforms(provider: Seq<char>, i: int, r: (Seq<char>, Seq<char>, EvidenceKind, Seq<u8>)) -> bool {
    &&& has_prefix(r.0, evidence_prefix(provider))
    &&& has_suffix(r.0, "/"@ + decimal(i as nat))
    &&& r.1.len() == 64
    &&& forall|j: int| 0 <= j < 64 ==> lower_hex(#[trigger] r.1[j])
    &&& forall|w: int| 0 <= w < forbidden_words().len() ==> !mentions(r.3, #[trigger] forbidden_words()[w])
}

/// A provider's evidence conforms: there is some, and every record does.
pub open spec fn evidence_conforms_to(provider: Seq<char>, records: Seq<(Seq<char>, Seq<char>, EvidenceKind, Seq<u8>)>) -> bool {
    &&& records.len() > 0
    &&& forall|i: int| 0 <= i < records.len() ==> record_conforms(provider, i, #[trigger] records[i])
}

/// Identified evidence (the journal's invariant, promised by every
/// provider) is well located and well digested: each record sits under the
/// provider's prefix, ends with its position, and carries a 64-digit
/// lowercase hex digest.
pub proof fn lemma_identified_evidence_is_well_formed(
    provider: Seq<char>,
    records: Seq<(Seq<char>, Seq<char>, EvidenceKind, Seq<u8>)>,
    i: int,
)
    requires
        evidence_identified(provider, records),
        0 <= i < records.len(),
    ensures
        has_prefix(records[i].0, evidence_prefix(provider)),
        has_suffix(records[i].0, "/"@ + decimal(i as nat)),
        records[i].1.len() == 64,
        forall|j: int| 0 <= j < 64 ==> lower_hex(#[trigger] records[i].1[j]),
{
    reveal_strlit("/");
    let r = records[i];
    let p = evidence_prefix(provider);
    let d = decimal(i as nat);
    assert(r.0 == p + d);
    assert((p + d).subrange(0, p.len() as int) =~= p);
    let s = "/"@ + d;
    assert((p + d).subrange((p + d).len() - s.len(), (p + d).len() as int) =~= s);
    lemma_hex_encode_lower(sha256(r.3));
}

fn forbidden_word_list() -> (r: Vec<&'static str>)
    ensures
        r@.len() == forbidden_words().len(),
        forall|w: int| 0 <= w < r@.len() ==> (#[trigger] r@[w])@ == forbidden_words()[w],
{
    let mut r: Vec<&'static str> = Vec::new();
    r.push("secret");
    r.push("credential");
    r.push("password");
    r.push("bearer");
    r.push("apikey");
    r.push("api_key");
    r.push("token");
    r.push("workflowid");
    r.push("versionid");
    r
}

fn is_lower_hex_digest(text: &str) -> (r: bool)
    ensures
        r == (text@.len() == 64 && forall|i: int| 0 <= i < 64 ==> #[trigger] lower_hex(text@[i])),
{
    let cs = chars_of(text);
    if cs.len() != 64 {
        return false;
    }
    let mut i: usize = 0;
    while i < 64
        invariant
            cs@ == text@,
            cs@.len() == 64,
            i <= 64,
            forall|t: int| 0 <= t < i ==> #[trigger] lower_hex(text@[t]),
        decreases 64 - i,
    {
        let c = cs[i];
        if !(('0' <= c && c <= '9') || ('a' <= c && c <= 'f')) {
            assert(!lower_hex(text@[i as int]));
            return false;
        }
        i += 1;
    }
    true
}

/// Judges a provider's evidence records: `Ok` exactly when there is some
/// and every record is provider-scoped and sequential, carries a 64-digit
/// lowercase hex digest, and mentions no credential marker or workflow
/// identity.
pub fn evidence_conforms(records: &Vec<ResourceEvidenceRecord>, provider: &ProviderId) -> (r: Result<(), String>)
    ensures
        r is Ok <==> evidence_conforms_to(provider.spec_str(), records@.map_values(|x: ResourceEvidenceRecord| record_view(x))),
        records@.len() == 0 ==> (r matches Err(m) && m@ == "conformance: lifecycle operations produced no evidence"@),
        r matches Err(m) ==> later_failure(m@),
{
    let ghost views = records@.map_values(|x: ResourceEvidenceRecord| record_view(x));
    proof {
        reveal_strlit("lifecycle operations produced no evidence");
    }
    if records.len() == 0 {
        let m = failure("lifecycle operations produced no evidence");
        proof {
            reveal_strlit("conformance: ");
            reveal_strlit("lifecycle operations produced no evidence");
            reveal_strlit("conformance: lifecycle operations produced no evidence");
            assert(m@ =~= "conformance: lifecycle operations produced no evidence"@);
        }
        return Err(m);
    }
    let mut prefix = String::from_str(EVIDENCE_LOCATOR_PREFIX);
    prefix.append("/");
    prefix.append(provider.as_str());
    prefix.append("/");
    proof {
        reveal_strlit("codex-resource-providers");
        reveal_strlit("codex-resource-providers/");
        reveal_strlit("/");
        assert(prefix@ =~= evidence_prefix(provider.spec_str()));
    }
    let words = forbidden_word_list();
    let mut index: usize = 0;
    while index < records.len()
        invariant
            index <= records@.len(),
            views == records@.map_values(|x: ResourceEvidenceRecord| record_view(x)),
            prefix@ == evidence_prefix(provider.spec_str()),
            words@.len() == forbidden_words().len(),
            forall|w: int| 0 <= w < words@.len() ==> (#[trigger] words@[w])@ == forbidden_words()[w],
            forall|t: int| 0 <= t < index ==> record_conforms(provider.spec_str(), t, #[trigger] views[t]),
        decreases records@.len() - index,
    {
        let record = &records[index];
        assert(views[index as int] == record_view(*record));
        if !starts_with(record.locator.as_str(), prefix.as_str()) {
            proof {
                reveal_strlit("an evidence locator is not provider-scoped");
            }
            return Err(failure("an evidence locator is not provider-scoped"));
        }
        let mut suffix = String::from_str("/");
        push_decimal(&mut suffix, index as u64);
        proof {
            reveal_strlit("/");
        }
        if !ends_with(record.locator.as_str(), suffix.as_str()) {
            proof {
                reveal_strlit("an evidence locator is not sequential");
            }
            return Err(failure("an evidence locator is not sequential"));
        }
        if !is_lower_hex_digest(record.digest_hex.as_str()) {
            proof {
                reveal_strlit("an evidence digest is not 64 lowercase hex digits");
            }
            return Err(failure("an evidence digest is not 64 lowercase hex digits"));
        }
        let mut w: usize = 0;
        while w < words.len()
            invariant
                index < records@.len(),
                views == records@.map_values(|x: ResourceEvidenceRecord| record_view(x)),
                views[index as int] == record_view(*record),
                w <= words@.len(),
                words@.len() == forbidden_words().len(),
                forall|v: int| 0 <= v < words@.len() ==> (#[trigger] words@[v])@ == forbidden_words()[v],
                forall|v: int| 0 <= v < w ==> !mentions(record.payload@, #[trigger] forbidden_words()[v]),
            decreases words@.len() - w,
        {
            if payload_mentions(&record.payload, words[w]) {
                if w < 7 {
                    proof {
                        reveal_strlit("an evidence payload contains a credential marker");
                    }
                    return Err(failure("an evidence payload contains a credential marker"));
                } else {
                    proof {
                        reveal_strlit("provider evidence carries workflow identity");
                    }
                    return Err(failure("provider evidence carries workflow identity"));
                }
            }
            w += 1;
        }
        assert(record_conforms(provider.spec_str(), index as int, views[index as int]));
        index += 1;
    }
    Ok(())
}

/// Between `before` and `after`, a resource of `class` that `before` did
/// not know was provisioned and has been released.
pub open spec fn released_fresh<P: ExecutionResourceProvider>(before: P, after: P, class: ResourceClass) -> bool {
    exists|k: Seq<char>| {
        &&& before.resource_status(k) is None
        &&& #[trigger] after.resource_status(k) == Some(ResourceStatus::Released)
        &&& after.resource_class(k) == class
    }
}

/// Runs the provider-neutral conformance suite against one provider that
/// is reachable and healthy when it runs: `Ok` is the conformance pass,
/// an error names the first violated expectation. The provider keeps its
/// invariant and its declaration either way.
///
/// The descriptor is judged before any call, and the descriptor failure
/// comes exactly when it does not validate (a descriptor without
/// capabilities among them). Every later failure is the judgment of one
/// provider answer in `verdicts`, or of the evidence by
/// [`evidence_conforms`]. For any provider other than the foreign one the
/// suite impersonates, the suite passes exactly when [`suite_passes`]
/// holds of the answers the provider gave during the run; and a pass
/// leaves, for every capability, a resource of its class that was
/// provisioned during the run and released.
pub fn assert_provider_conformance<P: ExecutionResourceProvider>(provider: &mut P) -> (r: Result<(), String>)
    requires
        old(provider).inv(),
        old(provider).headroom() >= CONFORMANCE_STEPS_PER_CAPABILITY * old(provider).declaration().capabilities@.len(),
    ensures
        final(provider).inv(),
        final(provider).declaration() == old(provider).declaration(),
        (r matches Err(m) && m@ == descriptor_failure()) <==> descriptor_error(old(provider).declaration()) is Some,
        descriptor_error(old(provider).declaration()) is Some ==> *final(provider) == *old(provider),
        old(provider).declaration().capabilities@.len() == 0 ==> (r matches Err(m) && m@ == descriptor_failure()),
        r is Ok ==> {
            &&& descriptor_error(old(provider).declaration()) is None
            &&& evidence_conforms_to(old(provider).declaration().provider.spec_str(), final(provider).evidence())
            &&& forall|i: int| 0 <= i < old(provider).declaration().capabilities@.len() ==> released_fresh(
                *old(provider),
                *final(provider),
                #[trigger] old(provider).declaration().capabilities@[i].class,
            )
        },
        r matches Err(m) ==> has_prefix(m@, harness_prefix()),
        old(provider).declaration().provider.spec_str() != foreign_provider()
            ==> (r is Ok <==> suite_passes(*old(provider), *final(provider))),
{
    if provider.descriptor().validate().is_err() {
        return Err(descriptor_rejection());
    }
    let provider_id = provider.descriptor().provider.duplicate();
    let n = provider.descriptor().capabilities.len();
    if n == 0 {
        proof {
            reveal_strlit("providers declare at least one capability");
        }
        return Err(failure("providers declare at least one capability"));
    }
    match judge_probe(&provider.probe()) {
        Ok(()) => {},
        Err(e) => {
            return Err(e);
        },
    }
    let unserved = first_unserved(provider.descriptor());
    let ghost declaration = provider.declaration();
    let mut i: usize = 0;
    while i < n
        invariant
            provider.inv(),
            provider.declaration() == declaration,
            declaration == old(provider).declaration(),
            descriptor_error(declaration) is None,
            provider_id.spec_str() == declaration.provider.spec_str(),
            n == declaration.capabilities@.len(),
            i <= n,
            provider.headroom() >= CONFORMANCE_STEPS_PER_CAPABILITY * (n - i),
            forall|k: Seq<char>| #[trigger] old(provider).resource_status(k) is Some ==> provider.resource_status(k) is Some,
            forall|j: int| 0 <= j < i ==> released_fresh(*old(provider), *provider, #[trigger] declaration.capabilities@[j].class),
            old(provider).healthy(),
            unserved == first_unserved_class(declaration.capabilities@),
            extends(provider.answers(), old(provider).answers()),
            declaration.provider.spec_str() != foreign_provider() ==> capabilities_verdict(
                declaration.provider.spec_str(),
                declaration.capabilities@,
                unserved,
                provider.answers(),
                old(provider).answers().len() as int,
                i as nat,
            ) == (true, provider.answers().len() as int),
        decreases n - i,
    {
        let ghost start = *provider;
        let ghost pid = declaration.provider.spec_str();
        let ghost caps = declaration.capabilities@;
        let ghost i0 = old(provider).answers().len() as int;
        let ghost a0 = provider.answers();
        let capability = provider.descriptor().capabilities[i];
        assert(capability == caps[i as int]);
        let handle = match check_provisioning(provider, &provider_id, capability.class) {
            Ok(h) => h,
            Err(e) => {
                proof {
                    if pid != foreign_provider() {
                        lemma_suite_fails_at(pid, caps, unserved, a0, provider.answers(), i0, i as nat);
                    }
                }
                return Err(e);
            },
        };
        let ghost a1 = provider.answers();
        let ghost p1 = provisioning_verdict(pid, capability.class, a1, a0.len() as int);
        match check_lifecycle_matrix(provider, &provider_id, capability, &handle) {
            Ok(()) => {},
            Err(e) => {
                proof {
                    if pid != foreign_provider() {
                        assert(provisioning_verdict(pid, capability.class, provider.answers(), a0.len() as int) == p1);
                        assert(created_answer(provider.answers()[a0.len() as int]) == created_answer(a1[a0.len() as int]));
                        lemma_suite_fails_at(pid, caps, unserved, a0, provider.answers(), i0, i as nat);
                    }
                }
                return Err(e);
            },
        }
        let ghost a2 = provider.answers();
        let ghost m2 = matrix_verdict(pid, capability, handle, a2, a1.len() as int);
        match check_rejections(provider, capability, unserved) {
            Ok(()) => {},
            Err(e) => {
                proof {
                    if pid != foreign_provider() {
                        assert(provisioning_verdict(pid, capability.class, provider.answers(), a0.len() as int) == p1);
                        assert(created_answer(provider.answers()[a0.len() as int]) == created_answer(a1[a0.len() as int]));
                        assert(matrix_verdict(pid, capability, handle, provider.answers(), a1.len() as int) == m2);
                        lemma_suite_fails_at(pid, caps, unserved, a0, provider.answers(), i0, i as nat);
                    }
                }
                return Err(e);
            },
        }
        let ghost a3 = provider.answers();
        let ghost r3 = rejections_verdict(capability, unserved, a3, a2.len() as int);
        match check_release(provider, capability, &handle) {
            Ok(()) => {},
            Err(e) => {
                proof {
                    if pid != foreign_provider() {
                        assert(provisioning_verdict(pid, capability.class, provider.answers(), a0.len() as int) == p1);
                        assert(created_answer(provider.answers()[a0.len() as int]) == created_answer(a1[a0.len() as int]));
                        assert(matrix_verdict(pid, capability, handle, provider.answers(), a1.len() as int) == m2);
                        assert(rejections_verdict(capability, unserved, provider.answers(), a2.len() as int) == r3);
                        lemma_suite_fails_at(pid, caps, unserved, a0, provider.answers(), i0, i as nat);
                    }
                }
                return Err(e);
            },
        }
        proof {
            if pid != foreign_provider() {
                assert(provisioning_verdict(pid, capability.class, provider.answers(), a0.len() as int) == p1);
                assert(created_answer(provider.answers()[a0.len() as int]) == created_answer(a1[a0.len() as int]));
                assert(matrix_verdict(pid, capability, handle, provider.answers(), a1.len() as int) == m2);
                assert(rejections_verdict(capability, unserved, provider.answers(), a2.len() as int) == r3);
                lemma_suite_step(pid, caps, unserved, a0, provider.answers(), i0, i as nat);
            }
        }
        proof {
            assert forall|j: int| 0 <= j < i + 1 implies released_fresh(
                *old(provider),
                *provider,
                #[trigger] declaration.capabilities@[j].class,
            ) by {
                if j < i {
                    let k = choose|k: Seq<char>| {
                        &&& old(provider).resource_status(k) is None
                        &&& #[trigger] start.resource_status(k) == Some(ResourceStatus::Released)
                        &&& start.resource_class(k) == declaration.capabilities@[j].class
                    };
                    assert(k != handle.resource@);
                    assert(provider.resource_status(k) == Some(ResourceStatus::Released));
                } else {
                    assert(old(provider).resource_status(handle.resource@) is None);
                    assert(provider.resource_status(handle.resource@) == Some(ResourceStatus::Released));
                }
            }
        }
        i += 1;
    }
    let records = provider.evidence_records();
    evidence_conforms(&records, &provider_id)
}

} // verus!
