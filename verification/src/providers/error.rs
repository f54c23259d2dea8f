//! Failures of the execution resource provider plane, and their mapping
//! onto the execution failure family that drives recovery.

use vstd::prelude::*;
use crate::providers::model::{ProviderId, ResourceStatus, status_name};
use crate::providers::provider::{LifecycleOp, op_name};
use crate::text::{byte_len, chars_of, str_byte_len};
use vstd::utf8::{encode_scalar, encode_utf8};

verus! {

/// The execution failure family a provider failure maps onto.
#[derive(Clone, Copy, Debug, PartialEq, Eq, Structural)]
pub enum FailureKind {
    /// A passing failure; recovery retries once.
    Transient,
    /// The resource or provider is unavailable; recovery rebinds.
    Unavailable,
    /// The operation timed out.
    Timeout,
    /// Policy denied the operation.
    PolicyDenied,
    /// The same request will not succeed unchanged.
    Permanent,
}

/// A failure produced while operating one execution resource provider.
#[derive(Clone, Debug, PartialEq, Eq)]
pub enum ResourceProviderError {
    /// The provider does not support the requested lifecycle operation.
    Unsupported {
        /// The provider that rejected the operation.
        provider: ProviderId,
        /// The unsupported operation.
        operation: LifecycleOp,
    },
    /// The resource is gone: never known to this provider, released, or
    /// lost.
    ResourceLost {
        /// The provider that no longer holds the resource.
        provider: ProviderId,
        /// The resource that is gone.
        resource: String,
    },
    /// The provider has no capacity left for a new resource.
    CapacityExhausted {
        /// The provider that is exhausted.
        provider: ProviderId,
        /// Bounded detail about the exhaustion.
        detail: String,
    },
    /// The provider endpoint cannot be reached at all.
    Unreachable {
        /// The provider that could not be reached.
        provider: ProviderId,
        /// Bounded detail about the outage.
        detail: String,
    },
    /// A resource spec, resize request, or record is structurally invalid.
    InvalidSpec {
        /// Why the record was rejected.
        reason: String,
    },
    /// A string identifier did not satisfy its format contract.
    InvalidIdentifier {
        /// The kind of identifier that failed validation.
        kind: &'static str,
        /// The rejected value.
        value: String,
        /// Why the value was rejected.
        reason: &'static str,
    },
    /// The resource is not in a state where the operation applies.
    ResourceNotBindable {
        /// The provider that owns the resource.
        provider: ProviderId,
        /// The resource whose status blocks the operation.
        resource: String,
        /// The blocking resource-plane status.
        status: ResourceStatus,
    },
}

/// The failure family of each provider failure: loss, exhaustion and
/// outages are `Unavailable`; everything else is `Permanent`.
pub open spec fn failure_kind_of(e: ResourceProviderError) -> FailureKind {
    match e {
        ResourceProviderError::ResourceLost { .. } => FailureKind::Unavailable,
        ResourceProviderError::CapacityExhausted { .. } => FailureKind::Unavailable,
        ResourceProviderError::Unreachable { .. } => FailureKind::Unavailable,
        _ => FailureKind::Permanent,
    }
}

/// The human-readable rendering of a provider failure.
pub open spec fn error_message(e: ResourceProviderError) -> Seq<char> {
    match e {
        ResourceProviderError::Unsupported { provider, operation } => "provider `"@ + provider.spec_str()
            + "` does not support operation `"@ + op_name(operation) + "`"@,
        ResourceProviderError::ResourceLost { provider, resource } => "provider `"@ + provider.spec_str() + "` lost resource `"@
            + resource@ + "`"@,
        ResourceProviderError::CapacityExhausted { provider, detail } => "provider `"@ + provider.spec_str()
            + "` has no capacity: "@ + detail@,
        ResourceProviderError::Unreachable { provider, detail } => "provider `"@ + provider.spec_str() + "` is unreachable: "@
            + detail@,
        ResourceProviderError::InvalidSpec { reason } => "invalid resource record: "@ + reason@,
        ResourceProviderError::InvalidIdentifier { kind, value, reason } => "invalid "@ + kind@ + " `"@ + value@ + "`: "@
            + reason@,
        ResourceProviderError::ResourceNotBindable { provider, resource, status } => "resource `"@ + resource@
            + "` of provider `"@ + provider.spec_str() + "` is "@ + status_name(status) + ", so the operation does not apply"@,
    }
}

fn joined(parts: &Vec<&str>) -> (r: String)
    ensures
        r@ == parts@.fold_left(Seq::<char>::empty(), |acc: Seq<char>, p: &str| acc + p@),
{
    let mut r = String::new();
    let mut i: usize = 0;
    while i < parts.len()
        invariant
            i <= parts@.len(),
            r@ == parts@.take(i as int).fold_left(Seq::<char>::empty(), |acc: Seq<char>, p: &str| acc + p@),
        decreases parts@.len() - i,
    {
        r.append(parts[i]);
        assert(parts@.take(i + 1).drop_last() =~= parts@.take(i as int));
        i += 1;
    }
    assert(parts@.take(i as int) =~= parts@);
    r
}

/// A failure in the execution failure family, with a bounded message.
#[derive(Clone, Debug, PartialEq, Eq)]
pub struct ExecutionFailure {
    /// The failure family.
    pub kind: FailureKind,
    /// The bounded, non-empty detail.
    pub message: String,
}

/// The marker a clamped failure message ends with.
pub const TRUNCATION_MARKER: &'static str = "...[truncated]";

/// The number of bytes `c` takes in UTF-8.
pub open spec fn char_width(c: char) -> nat {
    encode_scalar(c as u32).len()
}

/// How many leading characters of `m` fit, encoded, in `budget` bytes.
pub open spec fn fitting_prefix(m: Seq<char>, budget: int) -> nat
    decreases m.len(),
{
    if m.len() == 0 || char_width(m[0]) > budget {
        0
    } else {
        1 + fitting_prefix(m.drop_first(), budget - char_width(m[0]))
    }
}

/// A message bounded to `max` bytes: unchanged when it fits; otherwise
/// cut at the last character boundary that leaves room for the
/// truncation marker, and marked.
pub open spec fn clamped_message(m: Seq<char>, max: nat) -> Seq<char> {
    if byte_len(m) <= max {
        m
    } else {
        m.take(fitting_prefix(m, max - 14) as int) + "...[truncated]"@
    }
}

/// Encoding distributes over concatenation.
pub proof fn lemma_encode_concat(a: Seq<char>, b: Seq<char>)
    ensures
        encode_utf8(a + b) == encode_utf8(a) + encode_utf8(b),
    decreases a.len(),
{
    if a.len() > 0 {
        assert((a + b).drop_first() =~= a.drop_first() + b);
        lemma_encode_concat(a.drop_first(), b);
        assert(encode_utf8(a) + encode_utf8(b) =~= encode_scalar(a[0] as u32) + (encode_utf8(a.drop_first()) + encode_utf8(b)));
    } else {
        assert(a + b =~= b);
        assert(encode_utf8(a) + encode_utf8(b) =~= encode_utf8(b));
    }
}

proof fn lemma_fitting_prefix_fits(m: Seq<char>, budget: int)
    requires
        budget >= 0,
    ensures
        fitting_prefix(m, budget) <= m.len(),
        byte_len(m.take(fitting_prefix(m, budget) as int)) <= budget,
    decreases m.len(),
{
    let k = fitting_prefix(m, budget);
    reveal_with_fuel(encode_utf8, 2);
    if m.len() == 0 || char_width(m[0]) > budget {
        assert(m.take(0) =~= Seq::<char>::empty());
        assert(encode_utf8(Seq::<char>::empty()).len() == 0);
    } else {
        let rest = m.drop_first();
        lemma_fitting_prefix_fits(rest, budget - char_width(m[0]));
        assert(m.take(k as int) =~= seq![m[0]] + rest.take(k - 1));
        lemma_encode_concat(seq![m[0]], rest.take(k - 1));
        assert(seq![m[0]].drop_first() =~= Seq::<char>::empty());
        assert(encode_utf8(seq![m[0]]) =~= encode_scalar(m[0] as u32));
    }
}

pub fn width_of(c: char) -> (w: usize)
    ensures
        w == char_width(c),
        1 <= w <= 4,
{
    proof {
        vstd::utf8::char_is_scalar(c);
    }
    let u = c as u32;
    if u <= 0x7F {
        1
    } else if u <= 0x7FF {
        2
    } else if u <= 0xFFFF {
        3
    } else {
        4
    }
}

/// One more character adds its width, at least one byte, to a prefix.
pub proof fn lemma_byte_len_step(m: Seq<char>, i: int)
    requires
        0 <= i < m.len(),
    ensures
        byte_len(m.take(i + 1)) == byte_len(m.take(i)) + char_width(m[i]),
        char_width(m[i]) >= 1,
{
    assert(m.take(i + 1) =~= m.take(i) + seq![m[i]]);
    lemma_encode_concat(m.take(i), seq![m[i]]);
    assert(seq![m[i]].drop_first() =~= Seq::<char>::empty());
    assert(encode_utf8(seq![m[i]]) == encode_scalar(m[i] as u32) + encode_utf8(Seq::<char>::empty()));
}

/// Longer prefixes take strictly more bytes.
pub proof fn lemma_byte_len_grows(m: Seq<char>, i: int, j: int)
    requires
        0 <= i <= j <= m.len(),
    ensures
        byte_len(m.take(i)) + (j - i) <= byte_len(m.take(j)),
    decreases j - i,
{
    if i < j {
        lemma_byte_len_grows(m, i, j - 1);
        lemma_byte_len_step(m, j - 1);
    }
}

/// The bounded form of a message under a bound of at least the marker's
/// 14 bytes: a message that fits is kept unchanged; a longer one becomes a
/// prefix of its characters followed by the truncation marker, and never
/// exceeds the bound.
pub proof fn lemma_clamped_message_law(m: Seq<char>, max: nat)
    requires
        max >= 14,
    ensures
        byte_len(m) <= max ==> clamped_message(m, max) == m,
        byte_len(m) > max ==> exists|k: int| 0 <= k <= m.len() && clamped_message(m, max) == m.take(k) + "...[truncated]"@,
        byte_len(clamped_message(m, max)) <= max,
{
    if byte_len(m) > max {
        let k = fitting_prefix(m, max - 14);
        lemma_fitting_prefix_fits(m, max - 14);
        reveal_strlit("...[truncated]");
        reveal_with_fuel(encode_utf8, 15);
        assert(byte_len("...[truncated]"@) == 14);
        lemma_encode_concat(m.take(k as int), "...[truncated]"@);
        assert(0 <= k as int <= m.len() && clamped_message(m, max) == m.take(k as int) + "...[truncated]"@);
    }
}

/// Bounds a failure message to `max` bytes, cutting at a character
/// boundary and marking the cut.
pub fn clamp_message(message: &str, max: usize) -> (r: String)
    requires
        max >= 14,
    ensures
        r@ == clamped_message(message@, max as nat),
        byte_len(r@) <= max,
{
    if str_byte_len(message) <= max {
        return String::from_str(message);
    }
    let budget = max - 14;
    let cs = chars_of(message);
    let mut k: usize = 0;
    let mut used: usize = 0;
    assert(message@.skip(0) =~= message@);
    while k < cs.len()
        invariant_except_break
            cs@ == message@,
            k <= cs@.len(),
            used <= budget,
            fitting_prefix(message@, budget as int) == k + fitting_prefix(message@.skip(k as int), budget - used),
        ensures
            cs@ == message@,
            k <= cs@.len(),
            fitting_prefix(message@, budget as int) == k,
        decreases cs@.len() - k,
    {
        let w = width_of(cs[k]);
        let ghost rest = message@.skip(k as int);
        assert(rest[0] == message@[k as int]);
        if w > budget - used {
            break;
        }
        assert(rest.drop_first() =~= message@.skip(k + 1));
        used = used + w;
        k += 1;
    }
    proof {
        if k == cs@.len() {
            assert(message@.skip(k as int).len() == 0);
        }
        lemma_fitting_prefix_fits(message@, budget as int);
        reveal_strlit("...[truncated]");
        reveal_with_fuel(encode_utf8, 15);
        assert(byte_len("...[truncated]"@) == 14);
        lemma_encode_concat(message@.take(k as int), "...[truncated]"@);
    }
    let mut r = String::from_str(message.substring_char(0, k));
    r.append(TRUNCATION_MARKER);
    assert(r@ =~= message@.take(k as int) + "...[truncated]"@);
    r
}

impl ResourceProviderError {
    /// The failure as an execution failure: its family, and its rendering
    /// bounded to `max_message_bytes` bytes (the execution contracts'
    /// message bound).
    pub fn normalized_failure(&self, max_message_bytes: usize) -> (f: ExecutionFailure)
        requires
            max_message_bytes >= 14,
        ensures
            f.kind == failure_kind_of(*self),
            f.message@ == clamped_message(error_message(*self), max_message_bytes as nat),
            byte_len(f.message@) <= max_message_bytes,
    {
        let rendered = self.message();
        ExecutionFailure { kind: self.failure_kind(), message: clamp_message(rendered.as_str(), max_message_bytes) }
    }

    /// The failure rendered for people: it names the provider, and the
    /// operation, resource or reason concerned.
    pub fn message(&self) -> (r: String)
        ensures
            r@ == error_message(*self),
    {
        let mut parts: Vec<&str> = Vec::new();
        match self {
            ResourceProviderError::Unsupported { provider, operation } => {
                parts.push("provider `");
                parts.push(provider.as_str());
                parts.push("` does not support operation `");
                parts.push(operation.name());
                parts.push("`");
            },
            ResourceProviderError::ResourceLost { provider, resource } => {
                parts.push("provider `");
                parts.push(provider.as_str());
                parts.push("` lost resource `");
                parts.push(resource.as_str());
                parts.push("`");
            },
            ResourceProviderError::CapacityExhausted { provider, detail } => {
                parts.push("provider `");
                parts.push(provider.as_str());
                parts.push("` has no capacity: ");
                parts.push(detail.as_str());
            },
            ResourceProviderError::Unreachable { provider, detail } => {
                parts.push("provider `");
                parts.push(provider.as_str());
                parts.push("` is unreachable: ");
                parts.push(detail.as_str());
            },
            ResourceProviderError::InvalidSpec { reason } => {
                parts.push("invalid resource record: ");
                parts.push(reason.as_str());
            },
            ResourceProviderError::InvalidIdentifier { kind, value, reason } => {
                parts.push("invalid ");
                parts.push(*kind);
                parts.push(" `");
                parts.push(value.as_str());
                parts.push("`: ");
                parts.push(*reason);
            },
            ResourceProviderError::ResourceNotBindable { provider, resource, status } => {
                parts.push("resource `");
                parts.push(resource.as_str());
                parts.push("` of provider `");
                parts.push(provider.as_str());
                parts.push("` is ");
                parts.push(status.as_str());
                parts.push(", so the operation does not apply");
            },
        }
        let r = joined(&parts);
        proof {
            reveal_with_fuel(Seq::fold_left, 8);
        }
        r
    }

    /// Maps the failure onto the execution failure family.
    pub fn failure_kind(&self) -> (r: FailureKind)
        ensures
            r == failure_kind_of(*self),
    {
        match self {
            ResourceProviderError::ResourceLost { .. } => FailureKind::Unavailable,
            ResourceProviderError::CapacityExhausted { .. } => FailureKind::Unavailable,
            ResourceProviderError::Unreachable { .. } => FailureKind::Unavailable,
            ResourceProviderError::Unsupported { .. } => FailureKind::Permanent,
            ResourceProviderError::InvalidSpec { .. } => FailureKind::Permanent,
            ResourceProviderError::InvalidIdentifier { .. } => FailureKind::Permanent,
            ResourceProviderError::ResourceNotBindable { .. } => FailureKind::Permanent,
        }
    }

    /// Whether re-binding (a replacement resource or an alternate
    /// provider) is the recovery path this failure advises: exactly the
    /// `Unavailable` failures.
    pub fn rebind_advisable(&self) -> (r: bool)
        ensures
            r == (failure_kind_of(*self) is Unavailable),
    {
        match self.failure_kind() {
            FailureKind::Unavailable => true,
            _ => false,
        }
    }
}

} // verus!
