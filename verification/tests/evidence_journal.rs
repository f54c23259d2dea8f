use codex_universal::providers::evidence::{EVIDENCE_LOCATOR_PREFIX, EvidenceKind, ResourceEvidenceJournal, hex_string, sha256_hex};
use serde_json::Value;

fn object(fields: &[(&str, Value)]) -> Value {
    let mut map = serde_json::Map::new();
    for (key, value) in fields {
        map.insert(key.to_string(), value.clone());
    }
    Value::Object(map)
}

fn bytes(value: &Value) -> Vec<u8> {
    serde_json::to_vec(value).expect("serialize")
}

#[test]
fn journal_locators_are_deterministic_and_provider_scoped() {
    let mut journal = ResourceEvidenceJournal::new("fixture-sandbox-cloud".to_string());
    let first = journal.record(EvidenceKind::Artifact, bytes(&object(&[("fact", Value::from("created"))])));
    let second = journal.record(EvidenceKind::Trace, bytes(&object(&[("fact", Value::from("probed"))])));
    assert_eq!(first.locator, "codex-resource-providers/fixture-sandbox-cloud/0");
    assert_eq!(second.locator, "codex-resource-providers/fixture-sandbox-cloud/1");
    assert!(first.locator.starts_with(EVIDENCE_LOCATOR_PREFIX));
    let mut replay = ResourceEvidenceJournal::new("fixture-sandbox-cloud".to_string());
    let replayed = replay.record(EvidenceKind::Artifact, bytes(&object(&[("fact", Value::from("created"))])));
    assert_eq!(replayed.locator, first.locator);
    assert_eq!(replayed.digest_hex, first.digest_hex);
}

#[test]
fn journal_digests_are_stable_and_discriminating() {
    let mut journal = ResourceEvidenceJournal::new("fixture-local-containers".to_string());
    let payload = object(&[
        ("provider", Value::from("fixture-local-containers")),
        ("fact", Value::from("resource_transition")),
        ("resource", Value::from("ws-0001")),
        ("op", Value::from("resized")),
    ]);
    let first = journal.record(EvidenceKind::Artifact, bytes(&payload));
    let again = journal.record(EvidenceKind::Artifact, bytes(&payload));
    assert_eq!(first.digest_hex, again.digest_hex);
    assert_eq!(first.kind, EvidenceKind::Artifact);
    let other = journal.record(
        EvidenceKind::Recovery,
        bytes(&object(&[
            ("provider", Value::from("fixture-local-containers")),
            ("fact", Value::from("container_removed")),
        ])),
    );
    assert_ne!(first.digest_hex, other.digest_hex);
    assert_eq!(other.kind, EvidenceKind::Recovery);
    assert_eq!(first.digest_hex.len(), 64);
    assert!(first.digest_hex.chars().all(|character| character.is_ascii_hexdigit() && !character.is_ascii_uppercase()));
}

#[test]
fn journal_returns_records_oldest_first() {
    let mut journal = ResourceEvidenceJournal::new("fixture-journal".to_string());
    assert!(journal.is_empty());
    assert_eq!(journal.len(), 0);
    for index in 0..3 {
        journal.record(EvidenceKind::Artifact, bytes(&object(&[("seq", Value::from(index))])));
    }
    let records = journal.records();
    assert_eq!(records.len(), 3);
    assert_eq!(journal.len(), 3);
    assert!(!journal.is_empty());
    assert_eq!(
        records.iter().map(|record| record.locator.clone()).collect::<Vec<_>>(),
        vec![
            "codex-resource-providers/fixture-journal/0".to_owned(),
            "codex-resource-providers/fixture-journal/1".to_owned(),
            "codex-resource-providers/fixture-journal/2".to_owned(),
        ]
    );
    let seqs: Vec<Option<Value>> = records
        .iter()
        .map(|record| {
            let value: Value = serde_json::from_slice(&record.payload).expect("payload");
            value.get("seq").cloned()
        })
        .collect();
    assert_eq!(seqs, vec![Some(Value::from(0)), Some(Value::from(1)), Some(Value::from(2))]);
}

#[test]
fn sha256_hex_matches_known_vectors() {
    assert_eq!(sha256_hex(b""), "e3b0c44298fc1c149afbf4c8996fb92427ae41e4649b934ca495991b7852b855");
    assert_eq!(sha256_hex(b"abc"), "ba7816bf8f01cfea414140de5dae2223b00361a396177a9cb410ff61f20015ad");
    assert_eq!(hex_string(&[0x00, 0x0f, 0xa0, 0xff]), "000fa0ff");
}
