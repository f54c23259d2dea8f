//! The provider-side evidence journal: every provider/resource fact is
//! journaled as a digest-bearing record. The digest input is the payload's
//! canonical serialization (produced by the caller), the locator is
//! deterministic (`codex-resource-providers/<provider>/<sequence>`), so the
//! same run always yields the same evidence identity.

use vstd::prelude::*;
use sha2::Digest;
use crate::text::decimal;

verus! {

/// The locator prefix every provider evidence record uses.
pub const EVIDENCE_LOCATOR_PREFIX: &'static str = "codex-resource-providers";

/// The SHA-256 digest of a byte string.
pub uninterp spec fn sha256(bytes: Seq<u8>) -> Seq<u8>;

/// Calls `sha2::Sha256::digest` (the `Digest` trait's one-shot hash). The
/// digest is a function of the input bytes alone, named [`sha256`]; the
/// crate's `Sha256` type fixes its output size to 32 bytes. Nothing else
/// is stated of the hash function.
#[verifier::external_body]
fn sha256_digest(bytes: &[u8]) -> (r: Vec<u8>)
    ensures
        r@ == sha256(bytes@),
        r@.len() == 32,
{
    sha2::Sha256::digest(bytes).to_vec()
}

/// The canonical JSON serialization of a flat object with the given
/// string-valued and integer-valued fields.
pub uninterp spec fn json_object(texts: Seq<(Seq<char>, Seq<char>)>, counts: Seq<(Seq<char>, u64)>) -> Seq<u8>;

/// String-valued payload fields as plain values.
pub open spec fn text_fields(v: Seq<(String, String)>) -> Seq<(Seq<char>, Seq<char>)> {
    v.map_values(|p: (String, String)| (p.0@, p.1@))
}

/// Integer-valued payload fields as plain values.
pub open spec fn count_fields(v: Seq<(String, u64)>) -> Seq<(Seq<char>, u64)> {
    v.map_values(|p: (String, u64)| (p.0@, p.1))
}

/// Calls `serde_json::to_vec` on a JSON object built from the given
/// string-valued and integer-valued fields (a `serde_json::Map`, which keeps
/// its keys sorted). The bytes are a function of the fields alone, named
/// [`json_object`]; nothing else is stated of the serialization.
#[verifier::external_body]
pub(crate) fn json_object_bytes(texts: &Vec<(String, String)>, counts: &Vec<(String, u64)>) -> (r: Vec<u8>)
    ensures
        r@ == json_object(text_fields(texts@), count_fields(counts@)),
{
    let mut map = serde_json::Map::new();
    for (key, value) in texts {
        map.insert(key.clone(), serde_json::Value::from(value.as_str()));
    }
    for (key, value) in counts {
        map.insert(key.clone(), serde_json::Value::from(*value));
    }
    serde_json::to_vec(&serde_json::Value::Object(map)).unwrap_or_default()
}

/// The lowercase hexadecimal digit for `d < 16`.
pub open spec fn hex_digit(d: nat) -> char {
    if d < 10 {
        crate::text::digit_char(d)
    } else if d == 10 {
        'a'
    } else if d == 11 {
        'b'
    } else if d == 12 {
        'c'
    } else if d == 13 {
        'd'
    } else if d == 14 {
        'e'
    } else {
        'f'
    }
}

/// Two lowercase hexadecimal digits per byte, in order.
pub open spec fn hex_encode(bytes: Seq<u8>) -> Seq<char>
    decreases bytes.len(),
{
    if bytes.len() == 0 {
        Seq::empty()
    } else {
        hex_encode(bytes.drop_last()) + seq![hex_digit((bytes.last() / 16) as nat), hex_digit((bytes.last() % 16) as nat)]
    }
}

fn hex_digit_str(d: u8) -> (r: &'static str)
    requires
        d < 16,
    ensures
        r@ == seq![hex_digit(d as nat)],
{
    proof {
        reveal_strlit("0"); reveal_strlit("1"); reveal_strlit("2"); reveal_strlit("3");
        reveal_strlit("4"); reveal_strlit("5"); reveal_strlit("6"); reveal_strlit("7");
        reveal_strlit("8"); reveal_strlit("9"); reveal_strlit("a"); reveal_strlit("b");
        reveal_strlit("c"); reveal_strlit("d"); reveal_strlit("e"); reveal_strlit("f");
    }
    if d == 0 { "0" } else if d == 1 { "1" } else if d == 2 { "2" } else if d == 3 { "3" }
    else if d == 4 { "4" } else if d == 5 { "5" } else if d == 6 { "6" } else if d == 7 { "7" }
    else if d == 8 { "8" } else if d == 9 { "9" } else if d == 10 { "a" } else if d == 11 { "b" }
    else if d == 12 { "c" } else if d == 13 { "d" } else if d == 14 { "e" } else { "f" }
}

/// Lowercase hexadecimal encoding of a byte string.
pub fn hex_string(bytes: &[u8]) -> (r: String)
    ensures
        r@ == hex_encode(bytes@),
{
    let mut out = String::new();
    let mut i: usize = 0;
    while i < bytes.len()
        invariant
            i <= bytes@.len(),
            out@ == hex_encode(bytes@.take(i as int)),
        decreases bytes@.len() - i,
    {
        let b = bytes[i];
        out.append(hex_digit_str(b / 16));
        out.append(hex_digit_str(b % 16));
        proof {
            let t = bytes@.take(i + 1);
            assert(t.drop_last() =~= bytes@.take(i as int));
            assert(t.last() == b);
        }
        i += 1;
    }
    assert(bytes@.take(bytes@.len() as int) =~= bytes@);
    out
}

/// The SHA-256 digest of `bytes`, as lowercase hexadecimal.
pub fn sha256_hex(bytes: &[u8]) -> (r: String)
    ensures
        r@ == hex_encode(sha256(bytes@)),
        r@.len() == 64,
{
    let digest = sha256_digest(bytes);
    let hex = hex_string(digest.as_slice());
    proof {
        lemma_hex_encode_len(sha256(bytes@));
    }
    hex
}

/// A lowercase hexadecimal digit.
pub open spec fn lower_hex(c: char) -> bool {
    ('0' <= c && c <= '9') || ('a' <= c && c <= 'f')
}

/// Hex encoding yields lowercase hexadecimal digits only.
pub proof fn lemma_hex_encode_lower(bytes: Seq<u8>)
    ensures
        forall|i: int| 0 <= i < hex_encode(bytes).len() ==> lower_hex(#[trigger] hex_encode(bytes)[i]),
    decreases bytes.len(),
{
    if bytes.len() > 0 {
        lemma_hex_encode_lower(bytes.drop_last());
        let hi = (bytes.last() / 16) as nat;
        let lo = (bytes.last() % 16) as nat;
        assert(lower_hex(hex_digit(hi)));
        assert(lower_hex(hex_digit(lo)));
        let e = hex_encode(bytes);
        let prev = hex_encode(bytes.drop_last());
        assert forall|i: int| 0 <= i < e.len() implies lower_hex(#[trigger] e[i]) by {
            if i < prev.len() {
                assert(e[i] == prev[i]);
            }
        }
    }
}

/// Hex encoding doubles the length.
pub proof fn lemma_hex_encode_len(bytes: Seq<u8>)
    ensures
        hex_encode(bytes).len() == 2 * bytes.len(),
    decreases bytes.len(),
{
    if bytes.len() > 0 {
        lemma_hex_encode_len(bytes.drop_last());
    }
}

/// The kind of evidence a record carries.
#[derive(Clone, Copy, Debug, PartialEq, Eq, Structural, Hash)]
pub enum EvidenceKind {
    /// A provider-produced artifact or lifecycle fact.
    Artifact,
    /// A recovery-relevant fact (loss, removal).
    Recovery,
    /// A trace fact (health probes).
    Trace,
}

/// One provider-emitted evidence record with digest identity.
#[derive(Clone, Debug, PartialEq, Eq, Hash)]
pub struct ResourceEvidenceRecord {
    /// Deterministic locator: `codex-resource-providers/<provider>/<sequence>`.
    pub locator: String,
    /// SHA-256 hex digest of the canonical payload serialization.
    pub digest_hex: String,
    /// The evidence kind this record carries.
    pub kind: EvidenceKind,
    /// The payload's canonical serialization.
    pub payload: Vec<u8>,
}

/// A record as plain values: locator, digest, kind, payload bytes.
pub open spec fn record_view(r: ResourceEvidenceRecord) -> (Seq<char>, Seq<char>, EvidenceKind, Seq<u8>) {
    (r.locator@, r.digest_hex@, r.kind, r.payload@)
}

/// The locator of record number `seq` of `provider`'s journal.
pub open spec fn evidence_locator(provider: Seq<char>, seq: nat) -> Seq<char> {
    "codex-resource-providers/"@ + provider + "/"@ + decimal(seq)
}

/// Every record of a journal of `provider` is identified by its position
/// and its payload: record `i` is located at `evidence_locator(provider, i)`
/// and its digest is the hex SHA-256 of its payload bytes.
pub open spec fn evidence_identified(provider: Seq<char>, records: Seq<(Seq<char>, Seq<char>, EvidenceKind, Seq<u8>)>) -> bool {
    forall|i: int| 0 <= i < records.len() ==> {
        &&& (#[trigger] records[i]).0 == evidence_locator(provider, i as nat)
        &&& records[i].1 == hex_encode(sha256(records[i].3))
        &&& records[i].1.len() == 64
    }
}

/// Append-only evidence journal for one provider instance.
#[derive(Clone, Debug)]
pub struct ResourceEvidenceJournal {
    provider: String,
    next: u64,
    records: Vec<ResourceEvidenceRecord>,
}

impl ResourceEvidenceJournal {
    /// The provider the journal belongs to.
    pub closed spec fn spec_provider(&self) -> Seq<char> {
        self.provider@
    }

    /// The records so far, as plain values, oldest first.
    pub closed spec fn spec_records(&self) -> Seq<(Seq<char>, Seq<char>, EvidenceKind, Seq<u8>)> {
        self.records@.map_values(|r: ResourceEvidenceRecord| record_view(r))
    }

    /// The next sequence number equals the number of records, and every
    /// record is identified by its position and its payload.
    pub closed spec fn wf(&self) -> bool {
        &&& self.next == self.records@.len()
        &&& evidence_identified(self.provider@, self.spec_records())
    }

    /// Creates an empty journal for the provider named `provider`.
    pub fn new(provider: String) -> (j: Self)
        ensures
            j.wf(),
            j.spec_provider() == provider@,
            j.spec_records().len() == 0,
    {
        let j = ResourceEvidenceJournal { provider, next: 0, records: Vec::new() };
        assert(j.spec_records() =~= Seq::empty());
        j
    }

    /// Records one payload (its canonical serialization) under `kind`: the
    /// record's locator names the provider and the journal position, its
    /// digest is the SHA-256 hex of the payload bytes.
    pub fn record(&mut self, kind: EvidenceKind, payload: Vec<u8>) -> (r: ResourceEvidenceRecord)
        requires
            old(self).wf(),
            old(self).spec_records().len() < u64::MAX,
        ensures
            final(self).wf(),
            final(self).spec_provider() == old(self).spec_provider(),
            r.locator@ == evidence_locator(old(self).spec_provider(), old(self).spec_records().len()),
            r.digest_hex@ == hex_encode(sha256(payload@)),
            r.kind == kind,
            r.payload@ == payload@,
            final(self).spec_records() == old(self).spec_records().push(record_view(r)),
    {
        let digest_hex = sha256_hex(payload.as_slice());
        let mut locator = String::from_str("codex-resource-providers/");
        locator.append(self.provider.as_str());
        locator.append("/");
        crate::text::push_decimal(&mut locator, self.next);
        proof {
            reveal_strlit("codex-resource-providers/");
            reveal_strlit("/");
        }
        self.next = self.next + 1;
        let stored = ResourceEvidenceRecord {
            locator: locator.clone(),
            digest_hex: digest_hex.clone(),
            kind,
            payload: clone_bytes(&payload),
        };
        let ghost before = self.records@;
        self.records.push(stored);
        proof {
            assert(self.records@.map_values(|r: ResourceEvidenceRecord| record_view(r)) =~= before.map_values(
                |r: ResourceEvidenceRecord| record_view(r),
            ).push(record_view(ResourceEvidenceRecord { locator, digest_hex, kind, payload })));
        }
        ResourceEvidenceRecord { locator, digest_hex, kind, payload }
    }

    /// The records recorded so far, oldest first.
    pub fn records(&self) -> (r: &Vec<ResourceEvidenceRecord>)
        ensures
            r@.map_values(|x: ResourceEvidenceRecord| record_view(x)) == self.spec_records(),
            self.wf() ==> evidence_identified(self.spec_provider(), self.spec_records()),
    {
        &self.records
    }

    /// Number of recorded records.
    pub fn len(&self) -> (r: usize)
        ensures
            r == self.spec_records().len(),
    {
        self.records.len()
    }

    /// Whether no record has been recorded.
    pub fn is_empty(&self) -> (r: bool)
        ensures
            r == (self.spec_records().len() == 0),
    {
        self.records.len() == 0
    }
}

fn clone_bytes(v: &Vec<u8>) -> (r: Vec<u8>)
    ensures
        r@ == v@,
{
    let mut r: Vec<u8> = Vec::new();
    let mut i: usize = 0;
    while i < v.len()
        invariant
            i <= v@.len(),
            r@ == v@.take(i as int),
        decreases v@.len() - i,
    {
        r.push(v[i]);
        assert(v@.take(i + 1) =~= v@.take(i as int).push(v@[i as int]));
        i += 1;
    }
    assert(v@.take(i as int) =~= v@);
    r
}

/// Evidence identity is reproducible: two journals of the same provider
/// that record the same payload at the same position produce the same
/// locator and the same digest.
pub proof fn lemma_evidence_identity_is_deterministic(
    a: ResourceEvidenceRecord,
    b: ResourceEvidenceRecord,
    provider: Seq<char>,
    seq: nat,
)
    requires
        a.locator@ == evidence_locator(provider, seq),
        b.locator@ == evidence_locator(provider, seq),
        a.digest_hex@ == hex_encode(sha256(a.payload@)),
        b.digest_hex@ == hex_encode(sha256(b.payload@)),
        a.payload@ == b.payload@,
    ensures
        a.locator@ == b.locator@,
        a.digest_hex@ == b.digest_hex@,
{
}

} // verus!
