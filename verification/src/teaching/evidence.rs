//! Evidence references captured during teaching.
//!
//! Hosts attach digest-bearing references to externally stored evidence;
//! the compiler carries them through to the candidate and never fetches,
//! parses, or trusts the payloads.

use vstd::prelude::*;
use crate::text::{byte_len, str_byte_len};
use crate::teaching::error::TeachingCompilerError;

verus! {

/// Maximum byte length of an evidence label.
pub const MAX_LABEL_BYTES: usize = 128;
/// Maximum byte length of an evidence locator.
pub const MAX_LOCATOR_BYTES: usize = 512;
/// Length of a lowercase hex-encoded SHA-256 digest.
pub const SHA256_HEX_LEN: usize = 64;

/// A lowercase hexadecimal digit.
pub open spec fn is_lower_hex(c: char) -> bool {
    ('0' <= c && c <= '9') || ('a' <= c && c <= 'f')
}

/// Exactly 64 lowercase hexadecimal characters.
pub open spec fn is_sha256_hex(s: Seq<char>) -> bool {
    byte_len(s) == SHA256_HEX_LEN && forall|i: int| 0 <= i < s.len() ==> #[trigger] is_lower_hex(s[i])
}

/// The field bounds an evidence reference must satisfy.
pub open spec fn evidence_valid(label: Seq<char>, locator: Seq<char>, sha256: Seq<char>) -> bool {
    &&& 1 <= byte_len(label) <= MAX_LABEL_BYTES
    &&& 1 <= byte_len(locator) <= MAX_LOCATOR_BYTES
    &&& is_sha256_hex(sha256)
}

/// A digest-bearing pointer to externally stored teaching evidence.
#[derive(Clone, Debug, PartialEq, Eq)]
pub struct TeachingEvidence {
    label: String,
    locator: String,
    sha256: String,
}

/// Whether `value` is exactly 64 lowercase hex characters.
pub fn is_lowercase_sha256_hex(value: &str) -> (r: bool)
    ensures
        r == is_sha256_hex(value@),
{
    if str_byte_len(value) != SHA256_HEX_LEN {
        return false;
    }
    let mut bad = false;
    for c in it: value.chars()
        invariant
            it.seq() == value@,
            bad == (exists|i: int| 0 <= i < it.index() && !#[trigger] is_lower_hex(value@[i])),
    {
        if !char_is_lower_hex(c) {
            bad = true;
        }
    }
    !bad
}

fn char_is_lower_hex(c: char) -> (r: bool)
    ensures
        r == is_lower_hex(c),
{
    ('0' <= c && c <= '9') || ('a' <= c && c <= 'f')
}

impl TeachingEvidence {
    /// The label.
    pub closed spec fn spec_label(&self) -> Seq<char> {
        self.label@
    }

    /// The locator.
    pub closed spec fn spec_locator(&self) -> Seq<char> {
        self.locator@
    }

    /// The digest.
    pub closed spec fn spec_sha256(&self) -> Seq<char> {
        self.sha256@
    }

    /// Every evidence value satisfies the field bounds.
    pub closed spec fn inv(&self) -> bool {
        evidence_valid(self.label@, self.locator@, self.sha256@)
    }

    /// Validates and constructs an evidence reference: the label and
    /// locator are non-empty and within their byte bounds, and the digest
    /// is 64 lowercase hexadecimal characters.
    pub fn new(label: String, locator: String, sha256: String) -> (r: Result<Self, TeachingCompilerError>)
        ensures
            r is Ok <==> evidence_valid(label@, locator@, sha256@),
            r matches Ok(e) ==> e.spec_label() == label@ && e.spec_locator() == locator@ && e.spec_sha256() == sha256@ && e.inv(),
            r matches Err(e) ==> e is InvalidEvidence,
    {
        let label_len = str_byte_len(label.as_str());
        if label_len == 0 || label_len > MAX_LABEL_BYTES {
            return Err(TeachingCompilerError::InvalidEvidence {
                reason: String::from_str("label must be 1..=128 bytes"),
            });
        }
        let locator_len = str_byte_len(locator.as_str());
        if locator_len == 0 || locator_len > MAX_LOCATOR_BYTES {
            return Err(TeachingCompilerError::InvalidEvidence {
                reason: String::from_str("locator must be 1..=512 bytes"),
            });
        }
        if !is_lowercase_sha256_hex(sha256.as_str()) {
            return Err(TeachingCompilerError::InvalidEvidence {
                reason: String::from_str("sha256 must be 64 lowercase hexadecimal characters"),
            });
        }
        Ok(TeachingEvidence { label, locator, sha256 })
    }

    /// A short human-facing label for the evidence.
    pub fn label(&self) -> (r: &str)
        ensures
            r@ == self.spec_label(),
    {
        self.label.as_str()
    }

    /// Where the host stored the evidence payload; never dereferenced here.
    pub fn locator(&self) -> (r: &str)
        ensures
            r@ == self.spec_locator(),
    {
        self.locator.as_str()
    }

    /// The SHA-256 digest of the evidence payload, hex-encoded.
    pub fn sha256(&self) -> (r: &str)
        ensures
            r@ == self.spec_sha256(),
    {
        self.sha256.as_str()
    }

    /// A copy of this evidence reference.
    pub fn duplicate(&self) -> (r: Self)
        ensures
            r == *self,
    {
        TeachingEvidence { label: self.label.clone(), locator: self.locator.clone(), sha256: self.sha256.clone() }
    }
}

/// A copy of a list of evidence references.
pub fn clone_evidence(v: &Vec<TeachingEvidence>) -> (r: Vec<TeachingEvidence>)
    ensures
        r@ == v@,
{
    let mut r: Vec<TeachingEvidence> = Vec::new();
    let mut i: usize = 0;
    while i < v.len()
        invariant
            i <= v@.len(),
            r@ =~= v@.take(i as int),
        decreases v@.len() - i,
    {
        r.push(v[i].duplicate());
        assert(v@.take(i + 1) =~= v@.take(i as int).push(v@[i as int]));
        i += 1;
    }
    assert(v@.take(i as int) =~= v@);
    r
}

} // verus!
