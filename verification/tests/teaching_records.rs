use codex_universal::teaching::approval::{ApprovalDecision, ApprovalDecisionKind, MAX_REFERENCE_BYTES};
use codex_universal::teaching::blueprint::{StepOrigin, extract_blueprints};
use codex_universal::teaching::error::TeachingCompilerError;
use codex_universal::teaching::evidence::TeachingEvidence;
use codex_universal::teaching::mode::TeachingMode;
use codex_universal::teaching::session::{DEFAULT_MAX_RECORDS, SessionPolicy, TeachingSession};
use codex_universal::teaching::trajectory::{
    MAX_EVIDENCE_PER_RECORD, MAX_TEXT_BYTES, RecordOrigin, TrajectoryEvent, TrajectoryRecord,
};

fn s(v: &str) -> String {
    v.to_string()
}

fn evidence(label: &str) -> TeachingEvidence {
    TeachingEvidence::new(s(label), s("rollout://x"), "ab".repeat(32)).expect("evidence")
}

#[test]
fn accepts_valid_decisions() {
    let decision =
        ApprovalDecision::new(s("tech-lead"), s("review-1"), ApprovalDecisionKind::Approved).expect("decision");
    assert_eq!(decision.approver(), "tech-lead");
    assert_eq!(decision.kind(), ApprovalDecisionKind::Approved);
}

#[test]
fn rejects_bad_labels_and_references() {
    assert!(ApprovalDecision::new(s(""), s("review"), ApprovalDecisionKind::Approved).is_err());
    assert!(
        ApprovalDecision::new(s("tech-lead"), "r".repeat(MAX_REFERENCE_BYTES + 1), ApprovalDecisionKind::Approved)
            .is_err()
    );
    assert!(ApprovalDecision::new(s("tech-lead"), s("review"), ApprovalDecisionKind::Rejected).is_ok());
}

#[test]
fn approval_records_carry_the_epoch_and_decision() {
    let decision =
        ApprovalDecision::new(s("tech-lead"), s("ref-7"), ApprovalDecisionKind::Approved).expect("decision");
    assert_eq!(decision.reference(), "ref-7");
    let record = decision.into_record(3);
    assert_eq!(record.epoch, 3);
    assert_eq!(record.approver, "tech-lead");
    assert_eq!(record.reference, "ref-7");
    assert_eq!(record.kind, ApprovalDecisionKind::Approved);
    assert!(ApprovalDecision::new(s("tech-lead"), s(""), ApprovalDecisionKind::Approved).is_err());
    assert!(ApprovalDecision::new("a".repeat(129), s("ref"), ApprovalDecisionKind::Approved).is_err());
    assert!(ApprovalDecision::new("a".repeat(128), s("ref"), ApprovalDecisionKind::Approved).is_ok());
}

#[test]
fn accepts_valid_evidence() {
    let evidence = TeachingEvidence::new(s("open-list"), s("rollout://abc"), "ab".repeat(32)).expect("evidence");
    assert_eq!(evidence.label(), "open-list");
    assert_eq!(evidence.locator(), "rollout://abc");
    assert_eq!(evidence.sha256().len(), 64);
}

#[test]
fn rejects_bad_labels_and_locators() {
    assert!(TeachingEvidence::new(s(""), s("rollout://abc"), "ab".repeat(32)).is_err());
    assert!(TeachingEvidence::new("x".repeat(129), s("rollout://abc"), "ab".repeat(32)).is_err());
    assert!(TeachingEvidence::new(s("label"), s(""), "ab".repeat(32)).is_err());
}

#[test]
fn rejects_bad_digests() {
    assert!(TeachingEvidence::new(s("label"), s("rollout://abc"), "ab".repeat(31)).is_err());
    assert!(TeachingEvidence::new(s("label"), s("rollout://abc"), "AB".repeat(32)).is_err());
    assert!(TeachingEvidence::new(s("label"), s("rollout://abc"), "gg".repeat(32)).is_err());
}

#[test]
fn evidence_errors_name_the_violated_bound() {
    match TeachingEvidence::new(s(""), s("l"), "ab".repeat(32)) {
        Err(TeachingCompilerError::InvalidEvidence { reason }) => assert_eq!(reason, "label must be 1..=128 bytes"),
        other => panic!("unexpected {other:?}"),
    }
    match TeachingEvidence::new(s("x"), "l".repeat(513), "ab".repeat(32)) {
        Err(TeachingCompilerError::InvalidEvidence { reason }) => assert_eq!(reason, "locator must be 1..=512 bytes"),
        other => panic!("unexpected {other:?}"),
    }
    assert!(TeachingEvidence::new(s("x"), "l".repeat(512), "0123456789abcdef".repeat(4)).is_ok());
}

#[test]
fn modes_gate_record_origins() {
    assert!(TeachingMode::Demonstrate.accepts_demonstration());
    assert!(!TeachingMode::Demonstrate.accepts_instruction());
    assert!(!TeachingMode::Instruct.accepts_demonstration());
    assert!(TeachingMode::Instruct.accepts_instruction());
    assert!(TeachingMode::Hybrid.accepts_demonstration());
    assert!(TeachingMode::Hybrid.accepts_instruction());
    assert_eq!(TeachingMode::Hybrid.as_str(), "hybrid");
}

#[test]
fn rejects_empty_and_oversized_text() {
    let empty = TrajectoryEvent::Action { text: String::new() };
    assert!(TrajectoryRecord::new(0, RecordOrigin::Demonstration, empty, Vec::new()).is_err());
    let oversized = TrajectoryEvent::Instruction { text: "x".repeat(MAX_TEXT_BYTES + 1) };
    assert!(TrajectoryRecord::new(0, RecordOrigin::Instruction, oversized, Vec::new()).is_err());
}

#[test]
fn rejects_too_many_evidence_references() {
    let event = TrajectoryEvent::Action { text: s("Do a thing.") };
    let evidence: Vec<_> = (0..MAX_EVIDENCE_PER_RECORD + 1).map(|index| evidence(&format!("e{index}"))).collect();
    assert!(TrajectoryRecord::new(0, RecordOrigin::Demonstration, event, evidence).is_err());
}

#[test]
fn record_accessors_and_event_labels() {
    let record = TrajectoryRecord::new(
        7,
        RecordOrigin::Demonstration,
        TrajectoryEvent::Action { text: s("Open the list.") },
        vec![evidence("open")],
    )
    .expect("record");
    assert_eq!(record.sequence(), 7);
    assert_eq!(record.origin(), RecordOrigin::Demonstration);
    assert_eq!(record.event().kind_label(), "action");
    assert_eq!(record.event().text(), "Open the list.");
    assert_eq!(record.evidence().len(), 1);
    let max = TrajectoryRecord::new(
        0,
        RecordOrigin::Instruction,
        TrajectoryEvent::Instruction { text: "x".repeat(MAX_TEXT_BYTES) },
        Vec::new(),
    );
    assert!(max.is_ok());
    match TrajectoryRecord::new(0, RecordOrigin::Demonstration, TrajectoryEvent::Note { text: String::new() }, Vec::new()) {
        Err(TeachingCompilerError::InvalidEvent { reason }) => assert_eq!(reason, "note record text must be non-empty"),
        other => panic!("unexpected {other:?}"),
    }
}

#[test]
fn enforces_mode_and_origin_pairing() {
    let mut demonstrate = TeachingSession::new(TeachingMode::Demonstrate);
    assert!(matches!(
        demonstrate.record(RecordOrigin::Instruction, TrajectoryEvent::Instruction { text: s("Do it.") }, Vec::new()),
        Err(TeachingCompilerError::ModeOriginMismatch { .. })
    ));
    assert!(matches!(
        demonstrate.record(RecordOrigin::Demonstration, TrajectoryEvent::Instruction { text: s("Do it.") }, Vec::new()),
        Err(TeachingCompilerError::InvalidEvent { .. })
    ));
    let mut instruct = TeachingSession::new(TeachingMode::Instruct);
    assert!(matches!(
        instruct.record(RecordOrigin::Demonstration, TrajectoryEvent::Action { text: s("Click.") }, Vec::new()),
        Err(TeachingCompilerError::ModeOriginMismatch { .. })
    ));
    let mut hybrid = TeachingSession::new(TeachingMode::Hybrid);
    hybrid
        .record(RecordOrigin::Demonstration, TrajectoryEvent::Action { text: s("Click.") }, Vec::new())
        .expect("demonstration record");
    hybrid
        .record(RecordOrigin::Instruction, TrajectoryEvent::Instruction { text: s("Then save.") }, Vec::new())
        .expect("instruction record");
    assert_eq!(hybrid.len(), 2);
}

#[test]
fn enforces_the_trajectory_bound() {
    let mut session =
        TeachingSession::with_policy(TeachingMode::Demonstrate, SessionPolicy { allow_optimization: false, max_records: 2 });
    for index in 0..2 {
        session
            .record(RecordOrigin::Demonstration, TrajectoryEvent::Action { text: format!("Step {index}.") }, Vec::new())
            .expect("record");
    }
    assert!(matches!(
        session.record(RecordOrigin::Demonstration, TrajectoryEvent::Action { text: s("One too many.") }, Vec::new()),
        Err(TeachingCompilerError::TrajectoryBoundExceeded { limit: 2 })
    ));
}

#[test]
fn closed_sessions_reject_records_and_sequences_are_dense() {
    let mut session = TeachingSession::new(TeachingMode::Demonstrate);
    assert_eq!(
        session.record(RecordOrigin::Demonstration, TrajectoryEvent::Action { text: s("A.") }, Vec::new()).expect("record"),
        0
    );
    assert_eq!(
        session.record(RecordOrigin::Demonstration, TrajectoryEvent::Action { text: s("B.") }, Vec::new()).expect("record"),
        1
    );
    session.close();
    assert!(session.is_closed());
    session.close();
    assert!(matches!(
        session.record(RecordOrigin::Demonstration, TrajectoryEvent::Action { text: s("C.") }, Vec::new()),
        Err(TeachingCompilerError::InvalidState { .. })
    ));
    assert_eq!(DEFAULT_MAX_RECORDS, 256);
}

#[test]
fn default_policy_is_conservative() {
    let policy = SessionPolicy::default();
    assert!(!policy.allow_optimization);
    assert_eq!(policy.max_records, DEFAULT_MAX_RECORDS);
    let session = TeachingSession::new(TeachingMode::Instruct);
    assert_eq!(*session.policy(), policy);
    assert!(session.is_empty());
    assert_eq!(session.mode(), TeachingMode::Instruct);
}

#[test]
fn rejects_empty_open_and_accepts_closed_sessions() {
    let mut session = TeachingSession::new(TeachingMode::Instruct);
    assert!(matches!(extract_blueprints(&session), Err(TeachingCompilerError::EmptySession)));
    session
        .record(RecordOrigin::Instruction, TrajectoryEvent::Instruction { text: s("Do it.") }, Vec::new())
        .expect("record");
    assert!(matches!(extract_blueprints(&session), Err(TeachingCompilerError::SessionNotClosed)));
    session.close();
    let blueprints = extract_blueprints(&session).expect("blueprints");
    assert_eq!(blueprints.len(), 1);
    assert_eq!(blueprints[0].origin(), StepOrigin::Instructed);
    assert_eq!(blueprints[0].intent(), "Do it.");
}

#[test]
fn rejects_sessions_with_no_compilable_steps() {
    let mut session = TeachingSession::new(TeachingMode::Demonstrate);
    session
        .record(RecordOrigin::Demonstration, TrajectoryEvent::Note { text: s("Provenance only, never a step.") }, Vec::new())
        .expect("record");
    session.close();
    match extract_blueprints(&session) {
        Err(TeachingCompilerError::NoCompilableSteps { reason }) => assert_eq!(
            reason,
            "the demonstrate session contained no demonstration actions or instruction statements"
        ),
        other => panic!("unexpected {other:?}"),
    }
}

#[test]
fn rejects_outcome_records_before_any_demonstrated_action() {
    let mut session = TeachingSession::new(TeachingMode::Demonstrate);
    session
        .record(RecordOrigin::Demonstration, TrajectoryEvent::Result { text: s("An outcome with no preceding action.") }, Vec::new())
        .expect("record");
    session.close();
    assert!(matches!(extract_blueprints(&session), Err(TeachingCompilerError::InvalidEvent { .. })));
}

#[test]
fn blueprints_merge_observations_and_annotate_outcomes() {
    let mut session = TeachingSession::new(TeachingMode::Hybrid);
    session
        .record(RecordOrigin::Demonstration, TrajectoryEvent::Observation { text: s("the list view is open") }, Vec::new())
        .expect("record");
    session
        .record(RecordOrigin::Demonstration, TrajectoryEvent::Action { text: s("open the details pane") }, vec![evidence("d")])
        .expect("record");
    session
        .record(RecordOrigin::Demonstration, TrajectoryEvent::Result { text: s("the pane shows the summary") }, Vec::new())
        .expect("record");
    session
        .record(RecordOrigin::Demonstration, TrajectoryEvent::Recovery { text: s("retried once") }, Vec::new())
        .expect("record");
    session
        .record(RecordOrigin::Instruction, TrajectoryEvent::Instruction { text: s("archive it") }, Vec::new())
        .expect("record");
    session.close();
    let blueprints = extract_blueprints(&session).expect("blueprints");
    assert_eq!(blueprints.len(), 2);
    assert_eq!(
        blueprints[0].intent(),
        "Observed context: the list view is open. Action: open the details pane. Outcome: the pane shows the summary. Recovery: retried once"
    );
    assert_eq!(blueprints[0].origin(), StepOrigin::Observed);
    assert_eq!(blueprints[0].evidence().len(), 1);
    assert_eq!(blueprints[1].intent(), "archive it");
    assert_eq!(blueprints[1].origin(), StepOrigin::Instructed);
}

#[test]
fn refused_records_name_the_reason() {
    let mut session = TeachingSession::new(TeachingMode::Demonstrate);
    session.close();
    match session.record(RecordOrigin::Demonstration, TrajectoryEvent::Action { text: s("A.") }, Vec::new()) {
        Err(TeachingCompilerError::InvalidState { current, required }) => {
            assert_eq!(current, "closed");
            assert_eq!(required, "open");
        },
        other => panic!("expected a closed session refusal, got {other:?}"),
    }
    assert!(session.is_empty());
}
