//! The judgments of the conformance suite: for each answer a provider
//! gives the suite, the first expectation that answer violates, if any.
//!
//! Each judgment is a function of the answer and of what the suite
//! derived from the provider's own descriptor; the suite in
//! [`crate::providers::conformance`] only performs the calls and hands
//! their answers here.

use vstd::prelude::*;
use crate::text::has_prefix;
use crate::providers::bind::{bind, canonical_resource_type, holder_environment, holder_of};
use crate::providers::descriptor::{ProviderHealth, ProviderHealthStatus, ResourceLifecycleSupport};
use crate::providers::error::ResourceProviderError;
use crate::providers::fixture::same_provider;
use crate::providers::model::{
    ProviderId, ResourceClass, ResourceHandle, ResourceStatus, logical_type_name, snapshot_error, status_bindable,
};
use crate::providers::provider::{LifecycleOp, LifecycleOutcome, ResizeRequest};
use crate::text::strs_equal;

verus! {

/// Every harness failure message starts with this.
pub open spec fn harness_prefix() -> Seq<char> {
    "conformance: "@
}

/// The failure of a descriptor that does not validate.
pub open spec fn descriptor_failure() -> Seq<char> {
    harness_prefix() + "descriptor validation failed"@
}

/// A harness message raised once the descriptor was accepted: it starts
/// with the harness prefix and is not the descriptor failure.
pub open spec fn later_failure(m: Seq<char>) -> bool {
    has_prefix(m, harness_prefix()) && m != descriptor_failure()
}

/// `r` answers a judgment whose first violated expectation is `failure`:
/// `Ok` when there is none, otherwise the harness message naming it.
pub open spec fn judged<T>(failure: Option<Seq<char>>, r: Result<T, String>) -> bool {
    match failure {
        None => r is Ok,
        Some(c) => r matches Err(m) && m@ == harness_prefix() + c,
    }
}

/// A context that cannot be mistaken for the descriptor failure's.
pub open spec fn later_context(c: Seq<char>) -> bool {
    c.len() > 0 && c[0] != 'd'
}

proof fn lemma_later_failure(c: Seq<char>)
    requires
        later_context(c),
    ensures
        later_failure(harness_prefix() + c),
{
    reveal_strlit("conformance: ");
    reveal_strlit("descriptor validation failed");
    let m = harness_prefix() + c;
    assert(m.subrange(0, harness_prefix().len() as int) =~= harness_prefix());
    assert(m[13] == c[0]);
    assert(descriptor_failure()[13] == 'd');
}

/// The harness message for a violated expectation.
pub fn failure(context: &str) -> (r: String)
    requires
        later_context(context@),
    ensures
        r@ == harness_prefix() + context@,
        later_failure(r@),
{
    let mut r = String::from_str("conformance: ");
    r.append(context);
    proof {
        lemma_later_failure(context@);
    }
    r
}

/// The harness message for a descriptor that does not validate.
pub fn descriptor_rejection() -> (r: String)
    ensures
        r@ == descriptor_failure(),
        has_prefix(r@, harness_prefix()),
{
    let mut r = String::from_str("conformance: ");
    r.append("descriptor validation failed");
    assert(r@.subrange(0, harness_prefix().len() as int) =~= harness_prefix());
    r
}

/// The first expectation a probe answer violates: a reachable provider
/// reports healthy or degraded.
pub open spec fn probe_failure(answer: Result<ProviderHealth, ResourceProviderError>) -> Option<Seq<char>> {
    match answer {
        Err(_) => Some("probe failed"@),
        Ok(h) => if h.status is Healthy || h.status is Degraded {
            None
        } else {
            Some("a reachable provider reports neither healthy nor degraded"@)
        },
    }
}

/// Judges a probe answer.
pub fn judge_probe(answer: &Result<ProviderHealth, ResourceProviderError>) -> (r: Result<(), String>)
    ensures
        judged(probe_failure(*answer), r),
        r matches Err(m) ==> later_failure(m@),
{
    match answer {
        Ok(health) => match health.status {
            ProviderHealthStatus::Healthy | ProviderHealthStatus::Degraded => Ok(()),
            _ => {
                proof {
                    reveal_strlit("a reachable provider reports neither healthy nor degraded");
                }
                Err(failure("a reachable provider reports neither healthy nor degraded"))
            },
        },
        Err(_) => {
            proof {
                reveal_strlit("probe failed");
            }
            Err(failure("probe failed"))
        },
    }
}

/// The first expectation a provisioning answer violates: the handle is
/// active, of the requested class, and names the provider.
pub open spec fn provisioned_failure(
    answer: Result<ResourceHandle, ResourceProviderError>,
    provider: Seq<char>,
    class: ResourceClass,
) -> Option<Seq<char>> {
    match answer {
        Err(_) => Some("create failed"@),
        Ok(h) => if !(h.status is Active) {
            Some("created handles are active"@)
        } else if h.class != class {
            Some("created handles carry the requested class"@)
        } else if h.provider.spec_str() != provider {
            Some("created handles name their provider"@)
        } else {
            None
        },
    }
}

/// Judges the answer to provisioning a minimal spec of `class`.
pub fn judge_provisioned(
    answer: &Result<ResourceHandle, ResourceProviderError>,
    provider_id: &ProviderId,
    class: ResourceClass,
) -> (r: Result<(), String>)
    ensures
        judged(provisioned_failure(*answer, provider_id.spec_str(), class), r),
        r matches Err(m) ==> later_failure(m@),
{
    match answer {
        Ok(handle) => {
            if handle.status != ResourceStatus::Active {
                proof {
                    reveal_strlit("created handles are active");
                }
                return Err(failure("created handles are active"));
            }
            if handle.class != class {
                proof {
                    reveal_strlit("created handles carry the requested class");
                }
                return Err(failure("created handles carry the requested class"));
            }
            if !same_provider(&handle.provider, provider_id) {
                proof {
                    reveal_strlit("created handles name their provider");
                }
                return Err(failure("created handles name their provider"));
            }
            Ok(())
        },
        Err(_) => {
            proof {
                reveal_strlit("create failed");
            }
            Err(failure("create failed"))
        },
    }
}

/// The first expectation a status answer violates: the provider answers
/// `expected`.
pub open spec fn status_failure(
    answer: Result<ResourceStatus, ResourceProviderError>,
    expected: ResourceStatus,
    context: Seq<char>,
) -> Option<Seq<char>> {
    if answer == Ok::<ResourceStatus, ResourceProviderError>(expected) {
        None
    } else {
        Some(context)
    }
}

/// Judges a status answer that should be `expected`; `context` names the
/// expectation.
pub fn judge_status(answer: &Result<ResourceStatus, ResourceProviderError>, expected: ResourceStatus, context: &str) -> (r: Result<
    (),
    String,
>)
    requires
        later_context(context@),
    ensures
        judged(status_failure(*answer, expected, context@), r),
        r matches Err(m) ==> later_failure(m@),
{
    match answer {
        Ok(status) => {
            if *status == expected {
                return Ok(());
            }
        },
        Err(_) => {},
    }
    Err(failure(context))
}

/// The first expectation any answer violates that should be a success.
pub open spec fn success_failure<T>(answer: Result<T, ResourceProviderError>, context: Seq<char>) -> Option<Seq<char>> {
    if answer is Ok {
        None
    } else {
        Some(context)
    }
}

/// Judges an answer that should be a success; `context` names the
/// expectation.
pub fn judge_success<T>(answer: &Result<T, ResourceProviderError>, context: &str) -> (r: Result<(), String>)
    requires
        later_context(context@),
    ensures
        judged(success_failure(*answer, context@), r),
        r matches Err(m) ==> later_failure(m@),
{
    match answer {
        Ok(_) => Ok(()),
        Err(_) => Err(failure(context)),
    }
}

/// The first expectation violated by an answer that should surface a
/// lost resource.
pub open spec fn lost_failure<T>(answer: Result<T, ResourceProviderError>, context: Seq<char>) -> Option<Seq<char>> {
    if answer matches Err(ResourceProviderError::ResourceLost { .. }) {
        None
    } else {
        Some(context)
    }
}

/// Judges an answer that should be `ResourceLost`; `context` names the
/// expectation.
pub fn judge_lost<T>(answer: &Result<T, ResourceProviderError>, context: &str) -> (r: Result<(), String>)
    requires
        later_context(context@),
    ensures
        judged(lost_failure(*answer, context@), r),
        r matches Err(m) ==> later_failure(m@),
{
    match answer {
        Err(ResourceProviderError::ResourceLost { .. }) => Ok(()),
        _ => Err(failure(context)),
    }
}

/// The first expectation violated by an answer that should refuse an
/// invalid spec.
pub open spec fn rejection_failure(answer: Result<ResourceHandle, ResourceProviderError>, context: Seq<char>) -> Option<
    Seq<char>,
> {
    if answer matches Err(ResourceProviderError::InvalidSpec { .. }) {
        None
    } else {
        Some(context)
    }
}

/// Judges an answer that should be `InvalidSpec`; `context` names the
/// expectation.
pub fn judge_rejected(answer: &Result<ResourceHandle, ResourceProviderError>, context: &str) -> (r: Result<(), String>)
    requires
        later_context(context@),
    ensures
        judged(rejection_failure(*answer, context@), r),
        r matches Err(m) ==> later_failure(m@),
{
    match answer {
        Err(ResourceProviderError::InvalidSpec { .. }) => Ok(()),
        _ => Err(failure(context)),
    }
}

/// The first expectation a second provisioning violates: it succeeds
/// under an id other than the first's.
pub open spec fn second_failure(answer: Result<ResourceHandle, ResourceProviderError>, first: Seq<char>) -> Option<
    Seq<char>,
> {
    match answer {
        Err(_) => Some("second create failed"@),
        Ok(h) => if h.resource@ == first {
            Some("a second provisioning reused an id"@)
        } else {
            None
        },
    }
}

/// Judges the answer to a second provisioning after `first`.
pub fn judge_second(answer: &Result<ResourceHandle, ResourceProviderError>, first: &ResourceHandle) -> (r: Result<(), String>)
    ensures
        judged(second_failure(*answer, first.resource@), r),
        r matches Err(m) ==> later_failure(m@),
{
    match answer {
        Ok(second) => {
            if strs_equal(second.resource.as_str(), first.resource.as_str()) {
                proof {
                    reveal_strlit("a second provisioning reused an id");
                }
                return Err(failure("a second provisioning reused an id"));
            }
            Ok(())
        },
        Err(_) => {
            proof {
                reveal_strlit("second create failed");
            }
            Err(failure("second create failed"))
        },
    }
}

/// The first expectation the canonical binding of a handle violates: it
/// binds, under the logical type of `class`, the handle's resource, for
/// the holder of `class`.
pub open spec fn binding_failure(handle: ResourceHandle, class: ResourceClass) -> Option<Seq<char>> {
    if !status_bindable(handle.status) {
        Some("canonical bind failed"@)
    } else if logical_type_name(handle.class) != logical_type_name(class) {
        Some("the binding names a non-canonical resource type"@)
    } else if holder_of(handle.class) != holder_of(class) {
        Some("the binding names the wrong holder"@)
    } else {
        None
    }
}

/// Judges the canonical binding of a provisioned handle of `class`.
pub fn judge_binding(handle: &ResourceHandle, class: ResourceClass) -> (r: Result<(), String>)
    ensures
        judged(binding_failure(*handle, class), r),
        r matches Err(m) ==> later_failure(m@),
{
    let binding = match bind(handle) {
        Ok(b) => b,
        Err(_) => {
            proof {
                reveal_strlit("canonical bind failed");
            }
            return Err(failure("canonical bind failed"));
        },
    };
    let expected_type = canonical_resource_type(class);
    if !strs_equal(binding.resource_type.as_str(), expected_type.as_str()) {
        proof {
            reveal_strlit("the binding names a non-canonical resource type");
        }
        return Err(failure("the binding names a non-canonical resource type"));
    }
    if !strs_equal(binding.resource.as_str(), handle.resource.as_str()) {
        proof {
            reveal_strlit("the binding names another resource");
        }
        return Err(failure("the binding names another resource"));
    }
    if binding.holder != holder_environment(class) {
        proof {
            reveal_strlit("the binding names the wrong holder");
        }
        return Err(failure("the binding names the wrong holder"));
    }
    Ok(())
}

/// The first expectation a pause answer violates: a declared pause pauses
/// the resource; an undeclared one is `Unsupported`, naming the provider
/// and the operation.
pub open spec fn pause_failure(
    lifecycle: ResourceLifecycleSupport,
    provider: Seq<char>,
    answer: Result<LifecycleOutcome, ResourceProviderError>,
) -> Option<Seq<char>> {
    match answer {
        Ok(LifecycleOutcome::Transitioned(h)) => if !lifecycle.pause_resume {
            Some("pause succeeded but was undeclared"@)
        } else if !(h.status is Paused) {
            Some("a paused handle is not paused"@)
        } else {
            None
        },
        Err(ResourceProviderError::Unsupported { provider: named, operation }) => if lifecycle.pause_resume {
            Some("pause was declared but rejected"@)
        } else if named.spec_str() != provider || operation != LifecycleOp::Pause {
            Some("an unsupported pause names another provider or operation"@)
        } else {
            None
        },
        _ => Some("pause produced an unexpected outcome"@),
    }
}

/// Judges a pause answer; a pass says whether the resource was paused.
pub fn judge_pause(
    lifecycle: ResourceLifecycleSupport,
    provider_id: &ProviderId,
    answer: &Result<LifecycleOutcome, ResourceProviderError>,
) -> (r: Result<bool, String>)
    ensures
        judged(pause_failure(lifecycle, provider_id.spec_str(), *answer), r),
        r matches Ok(paused) ==> (paused <==> answer is Ok),
        r matches Err(m) ==> later_failure(m@),
{
    match answer {
        Ok(LifecycleOutcome::Transitioned(paused)) => {
            if !lifecycle.pause_resume {
                proof {
                    reveal_strlit("pause succeeded but was undeclared");
                }
                return Err(failure("pause succeeded but was undeclared"));
            }
            if paused.status != ResourceStatus::Paused {
                proof {
                    reveal_strlit("a paused handle is not paused");
                }
                return Err(failure("a paused handle is not paused"));
            }
            Ok(true)
        },
        Err(ResourceProviderError::Unsupported { provider: named, operation }) => {
            if lifecycle.pause_resume {
                proof {
                    reveal_strlit("pause was declared but rejected");
                }
                return Err(failure("pause was declared but rejected"));
            }
            if !same_provider(named, provider_id) || *operation != LifecycleOp::Pause {
                proof {
                    reveal_strlit("an unsupported pause names another provider or operation");
                }
                return Err(failure("an unsupported pause names another provider or operation"));
            }
            Ok(false)
        },
        _ => {
            proof {
                reveal_strlit("pause produced an unexpected outcome");
            }
            Err(failure("pause produced an unexpected outcome"))
        },
    }
}

/// The first expectation a resume answer violates: the resource is
/// active again.
pub open spec fn resume_failure(answer: Result<LifecycleOutcome, ResourceProviderError>) -> Option<Seq<char>> {
    match answer {
        Ok(LifecycleOutcome::Transitioned(h)) => if h.status is Active {
            None
        } else {
            Some("a resumed handle is not active"@)
        },
        _ => Some("resume produced an unexpected outcome"@),
    }
}

/// Judges the resume answer after a pause.
pub fn judge_resume(answer: &Result<LifecycleOutcome, ResourceProviderError>) -> (r: Result<(), String>)
    ensures
        judged(resume_failure(*answer), r),
        r matches Err(m) ==> later_failure(m@),
{
    match answer {
        Ok(LifecycleOutcome::Transitioned(resumed)) => {
            if resumed.status != ResourceStatus::Active {
                proof {
                    reveal_strlit("a resumed handle is not active");
                }
                return Err(failure("a resumed handle is not active"));
            }
            Ok(())
        },
        _ => {
            proof {
                reveal_strlit("resume produced an unexpected outcome");
            }
            Err(failure("resume produced an unexpected outcome"))
        },
    }
}

/// The first expectation a snapshot answer violates: a declared snapshot
/// captures the resource under a valid artifact; an undeclared one is
/// `Unsupported`, naming the provider and the operation.
pub open spec fn snapshot_failure(
    lifecycle: ResourceLifecycleSupport,
    provider: Seq<char>,
    resource: Seq<char>,
    answer: Result<LifecycleOutcome, ResourceProviderError>,
) -> Option<Seq<char>> {
    match answer {
        Ok(LifecycleOutcome::Snapshotted(s)) => if !lifecycle.snapshot {
            Some("snapshot succeeded but was undeclared"@)
        } else if s.resource@ != resource {
            Some("a snapshot names another resource"@)
        } else if snapshot_error(s.artifact@) is Some {
            Some("a snapshot does not validate"@)
        } else {
            None
        },
        Err(ResourceProviderError::Unsupported { provider: named, operation }) => if lifecycle.snapshot {
            Some("snapshot was declared but rejected"@)
        } else if named.spec_str() != provider || operation != LifecycleOp::Snapshot {
            Some("an unsupported snapshot names another provider or operation"@)
        } else {
            None
        },
        _ => Some("snapshot produced an unexpected outcome"@),
    }
}

/// Judges a snapshot answer for the resource `handle` names.
pub fn judge_snapshot(
    lifecycle: ResourceLifecycleSupport,
    provider_id: &ProviderId,
    handle: &ResourceHandle,
    answer: &Result<LifecycleOutcome, ResourceProviderError>,
) -> (r: Result<(), String>)
    ensures
        judged(snapshot_failure(lifecycle, provider_id.spec_str(), handle.resource@, *answer), r),
        r matches Err(m) ==> later_failure(m@),
{
    match answer {
        Ok(LifecycleOutcome::Snapshotted(snapshot)) => {
            if !lifecycle.snapshot {
                proof {
                    reveal_strlit("snapshot succeeded but was undeclared");
                }
                return Err(failure("snapshot succeeded but was undeclared"));
            }
            if !strs_equal(snapshot.resource.as_str(), handle.resource.as_str()) {
                proof {
                    reveal_strlit("a snapshot names another resource");
                }
                return Err(failure("a snapshot names another resource"));
            }
            if snapshot.validate().is_err() {
                proof {
                    reveal_strlit("a snapshot does not validate");
                }
                return Err(failure("a snapshot does not validate"));
            }
            Ok(())
        },
        Err(ResourceProviderError::Unsupported { provider: named, operation }) => {
            if lifecycle.snapshot {
                proof {
                    reveal_strlit("snapshot was declared but rejected");
                }
                return Err(failure("snapshot was declared but rejected"));
            }
            if !same_provider(named, provider_id) || *operation != LifecycleOp::Snapshot {
                proof {
                    reveal_strlit("an unsupported snapshot names another provider or operation");
                }
                return Err(failure("an unsupported snapshot names another provider or operation"));
            }
            Ok(())
        },
        _ => {
            proof {
                reveal_strlit("snapshot produced an unexpected outcome");
            }
            Err(failure("snapshot produced an unexpected outcome"))
        },
    }
}

/// The first expectation a fork answer violates: a declared fork mints an
/// active resource of the class under a new id; an undeclared one is
/// `Unsupported`, naming the provider and the operation.
pub open spec fn fork_failure(
    lifecycle: ResourceLifecycleSupport,
    provider: Seq<char>,
    class: ResourceClass,
    resource: Seq<char>,
    answer: Result<LifecycleOutcome, ResourceProviderError>,
) -> Option<Seq<char>> {
    match answer {
        Ok(LifecycleOutcome::Transitioned(h)) => if !lifecycle.fork {
            Some("fork succeeded but was undeclared"@)
        } else if !(h.status is Active) || h.class != class {
            Some("a fork is not an active resource of the class"@)
        } else if h.resource@ == resource {
            Some("a fork reused the forked id"@)
        } else {
            None
        },
        Err(ResourceProviderError::Unsupported { provider: named, operation }) => if lifecycle.fork {
            Some("fork was declared but rejected"@)
        } else if named.spec_str() != provider || operation != LifecycleOp::Fork {
            Some("an unsupported fork names another provider or operation"@)
        } else {
            None
        },
        _ => Some("fork produced an unexpected outcome"@),
    }
}

/// Judges a fork answer for the resource `handle` names; a pass says
/// whether a fork was minted.
pub fn judge_fork(
    lifecycle: ResourceLifecycleSupport,
    provider_id: &ProviderId,
    class: ResourceClass,
    handle: &ResourceHandle,
    answer: &Result<LifecycleOutcome, ResourceProviderError>,
) -> (r: Result<bool, String>)
    ensures
        judged(fork_failure(lifecycle, provider_id.spec_str(), class, handle.resource@, *answer), r),
        r matches Ok(forked) ==> (forked <==> answer is Ok),
        r matches Err(m) ==> later_failure(m@),
{
    match answer {
        Ok(LifecycleOutcome::Transitioned(fork)) => {
            if !lifecycle.fork {
                proof {
                    reveal_strlit("fork succeeded but was undeclared");
                }
                return Err(failure("fork succeeded but was undeclared"));
            }
            if fork.status != ResourceStatus::Active || fork.class != class {
                proof {
                    reveal_strlit("a fork is not an active resource of the class");
                }
                return Err(failure("a fork is not an active resource of the class"));
            }
            if strs_equal(fork.resource.as_str(), handle.resource.as_str()) {
                proof {
                    reveal_strlit("a fork reused the forked id");
                }
                return Err(failure("a fork reused the forked id"));
            }
            Ok(true)
        },
        Err(ResourceProviderError::Unsupported { provider: named, operation }) => {
            if lifecycle.fork {
                proof {
                    reveal_strlit("fork was declared but rejected");
                }
                return Err(failure("fork was declared but rejected"));
            }
            if !same_provider(named, provider_id) || *operation != LifecycleOp::Fork {
                proof {
                    reveal_strlit("an unsupported fork names another provider or operation");
                }
                return Err(failure("an unsupported fork names another provider or operation"));
            }
            Ok(false)
        },
        _ => {
            proof {
                reveal_strlit("fork produced an unexpected outcome");
            }
            Err(failure("fork produced an unexpected outcome"))
        },
    }
}

/// The first expectation a resize answer violates: a declared resize
/// keeps the resource active under its id; an undeclared one is
/// `Unsupported`, naming the provider and the very request.
pub open spec fn resize_failure(
    lifecycle: ResourceLifecycleSupport,
    provider: Seq<char>,
    resource: Seq<char>,
    request: ResizeRequest,
    answer: Result<LifecycleOutcome, ResourceProviderError>,
) -> Option<Seq<char>> {
    match answer {
        Ok(LifecycleOutcome::Transitioned(h)) => if !lifecycle.resize {
            Some("resize succeeded but was undeclared"@)
        } else if !(h.status is Active) {
            Some("a resized handle is not active"@)
        } else if h.resource@ != resource {
            Some("a resize names another resource"@)
        } else {
            None
        },
        Err(ResourceProviderError::Unsupported { provider: named, operation }) => if lifecycle.resize {
            Some("resize was declared but rejected"@)
        } else if named.spec_str() != provider || operation != LifecycleOp::Resize(request) {
            Some("an unsupported resize names another provider or operation"@)
        } else {
            None
        },
        _ => Some("resize produced an unexpected outcome"@),
    }
}

/// Judges the answer to resizing the resource `handle` names by `request`.
pub fn judge_resize(
    lifecycle: ResourceLifecycleSupport,
    provider_id: &ProviderId,
    handle: &ResourceHandle,
    request: ResizeRequest,
    answer: &Result<LifecycleOutcome, ResourceProviderError>,
) -> (r: Result<(), String>)
    ensures
        judged(resize_failure(lifecycle, provider_id.spec_str(), handle.resource@, request, *answer), r),
        r matches Err(m) ==> later_failure(m@),
{
    match answer {
        Ok(LifecycleOutcome::Transitioned(resized)) => {
            if !lifecycle.resize {
                proof {
                    reveal_strlit("resize succeeded but was undeclared");
                }
                return Err(failure("resize succeeded but was undeclared"));
            }
            if resized.status != ResourceStatus::Active {
                proof {
                    reveal_strlit("a resized handle is not active");
                }
                return Err(failure("a resized handle is not active"));
            }
            if !strs_equal(resized.resource.as_str(), handle.resource.as_str()) {
                proof {
                    reveal_strlit("a resize names another resource");
                }
                return Err(failure("a resize names another resource"));
            }
            Ok(())
        },
        Err(ResourceProviderError::Unsupported { provider: named, operation }) => {
            if lifecycle.resize {
                proof {
                    reveal_strlit("resize was declared but rejected");
                }
                return Err(failure("resize was declared but rejected"));
            }
            if !same_provider(named, provider_id) || *operation != LifecycleOp::Resize(request) {
                proof {
                    reveal_strlit("an unsupported resize names another provider or operation");
                }
                return Err(failure("an unsupported resize names another provider or operation"));
            }
            Ok(())
        },
        _ => {
            proof {
                reveal_strlit("resize produced an unexpected outcome");
            }
            Err(failure("resize produced an unexpected outcome"))
        },
    }
}

/// The first expectation a lifecycle `Create` answer violates: a declared
/// create mints an active resource of the class under a new id; an
/// undeclared one is `Unsupported`, naming the provider and the operation.
pub open spec fn recreate_failure(
    lifecycle: ResourceLifecycleSupport,
    provider: Seq<char>,
    class: ResourceClass,
    resource: Seq<char>,
    answer: Result<LifecycleOutcome, ResourceProviderError>,
) -> Option<Seq<char>> {
    match answer {
        Ok(LifecycleOutcome::Transitioned(h)) => if !lifecycle.create {
            Some("lifecycle create succeeded but was undeclared"@)
        } else if !(h.status is Active) || h.class != class {
            Some("a recreation is not an active resource of the class"@)
        } else if h.resource@ == resource {
            Some("a recreation reused the id"@)
        } else {
            None
        },
        Err(ResourceProviderError::Unsupported { provider: named, operation }) => if lifecycle.create {
            Some("lifecycle create was declared but rejected"@)
        } else if named.spec_str() != provider || operation != LifecycleOp::Create {
            Some("an unsupported create names another provider or operation"@)
        } else {
            None
        },
        _ => Some("lifecycle create produced an unexpected outcome"@),
    }
}

/// Judges a lifecycle `Create` answer for the resource `handle` names; a
/// pass says whether a resource was minted.
pub fn judge_recreate(
    lifecycle: ResourceLifecycleSupport,
    provider_id: &ProviderId,
    class: ResourceClass,
    handle: &ResourceHandle,
    answer: &Result<LifecycleOutcome, ResourceProviderError>,
) -> (r: Result<bool, String>)
    ensures
        judged(recreate_failure(lifecycle, provider_id.spec_str(), class, handle.resource@, *answer), r),
        r matches Ok(minted) ==> (minted <==> answer is Ok),
        r matches Err(m) ==> later_failure(m@),
{
    match answer {
        Ok(LifecycleOutcome::Transitioned(recreated)) => {
            if !lifecycle.create {
                proof {
                    reveal_strlit("lifecycle create succeeded but was undeclared");
                }
                return Err(failure("lifecycle create succeeded but was undeclared"));
            }
            if recreated.status != ResourceStatus::Active || recreated.class != class {
                proof {
                    reveal_strlit("a recreation is not an active resource of the class");
                }
                return Err(failure("a recreation is not an active resource of the class"));
            }
            if strs_equal(recreated.resource.as_str(), handle.resource.as_str()) {
                proof {
                    reveal_strlit("a recreation reused the id");
                }
                return Err(failure("a recreation reused the id"));
            }
            Ok(true)
        },
        Err(ResourceProviderError::Unsupported { provider: named, operation }) => {
            if lifecycle.create {
                proof {
                    reveal_strlit("lifecycle create was declared but rejected");
                }
                return Err(failure("lifecycle create was declared but rejected"));
            }
            if !same_provider(named, provider_id) || *operation != LifecycleOp::Create {
                proof {
                    reveal_strlit("an unsupported create names another provider or operation");
                }
                return Err(failure("an unsupported create names another provider or operation"));
            }
            Ok(false)
        },
        _ => {
            proof {
                reveal_strlit("lifecycle create produced an unexpected outcome");
            }
            Err(failure("lifecycle create produced an unexpected outcome"))
        },
    }
}

/// The first expectation a release answer violates: the handle comes back
/// released.
pub open spec fn released_failure(answer: Result<ResourceHandle, ResourceProviderError>) -> Option<Seq<char>> {
    match answer {
        Err(_) => Some("release failed"@),
        Ok(h) => if h.status is Released {
            None
        } else {
            Some("a released handle is not released"@)
        },
    }
}

/// Judges the answer to releasing the provisioned resource.
pub fn judge_released(answer: &Result<ResourceHandle, ResourceProviderError>) -> (r: Result<(), String>)
    ensures
        judged(released_failure(*answer), r),
        r matches Err(m) ==> later_failure(m@),
{
    match answer {
        Ok(released) => {
            if released.status != ResourceStatus::Released {
                proof {
                    reveal_strlit("a released handle is not released");
                }
                return Err(failure("a released handle is not released"));
            }
            Ok(())
        },
        Err(_) => {
            proof {
                reveal_strlit("release failed");
            }
            Err(failure("release failed"))
        },
    }
}

/// The first expectation a `Create` answer after release violates: it
/// mints a new id, or is `Unsupported` where create is undeclared.
pub open spec fn post_release_failure(
    lifecycle: ResourceLifecycleSupport,
    resource: Seq<char>,
    answer: Result<LifecycleOutcome, ResourceProviderError>,
) -> Option<Seq<char>> {
    match answer {
        Ok(LifecycleOutcome::Transitioned(h)) => if h.resource@ == resource {
            Some("a post-release recreation reused the id"@)
        } else {
            None
        },
        Err(ResourceProviderError::Unsupported { .. }) => if lifecycle.create {
            Some("create was declared but rejected after release"@)
        } else {
            None
        },
        _ => Some("post-release create produced an unexpected outcome"@),
    }
}

/// Judges the `Create` answer on the released resource `released` names;
/// a pass says whether a resource was minted.
pub fn judge_post_release(
    lifecycle: ResourceLifecycleSupport,
    released: &ResourceHandle,
    answer: &Result<LifecycleOutcome, ResourceProviderError>,
) -> (r: Result<bool, String>)
    ensures
        judged(post_release_failure(lifecycle, released.resource@, *answer), r),
        r matches Ok(minted) ==> (minted <==> answer is Ok),
        r matches Err(m) ==> later_failure(m@),
{
    match answer {
        Ok(LifecycleOutcome::Transitioned(recreated)) => {
            if strs_equal(recreated.resource.as_str(), released.resource.as_str()) {
                proof {
                    reveal_strlit("a post-release recreation reused the id");
                }
                return Err(failure("a post-release recreation reused the id"));
            }
            Ok(true)
        },
        Err(ResourceProviderError::Unsupported { .. }) => {
            if lifecycle.create {
                proof {
                    reveal_strlit("create was declared but rejected after release");
                }
                return Err(failure("create was declared but rejected after release"));
            }
            Ok(false)
        },
        _ => {
            proof {
                reveal_strlit("post-release create produced an unexpected outcome");
            }
            Err(failure("post-release create produced an unexpected outcome"))
        },
    }
}

/// The first expectation binding a released handle violates: it is
/// refused.
pub open spec fn unbindable_failure(handle: ResourceHandle) -> Option<Seq<char>> {
    if status_bindable(handle.status) {
        Some("a released handle was bound"@)
    } else {
        None
    }
}

/// Judges binding the released handle.
pub fn judge_unbindable(handle: &ResourceHandle) -> (r: Result<(), String>)
    ensures
        judged(unbindable_failure(*handle), r),
        r matches Err(m) ==> later_failure(m@),
{
    match bind(handle) {
        Err(ResourceProviderError::ResourceNotBindable { .. }) => Ok(()),
        _ => {
            proof {
                reveal_strlit("a released handle was bound");
            }
            Err(failure("a released handle was bound"))
        },
    }
}

} // verus!
