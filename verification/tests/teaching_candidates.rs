use codex_universal::ir::{SequenceNode, StepNode, WorkflowIr, WorkflowIrNode};
use codex_universal::keyed_map::KeyedMap;
use codex_universal::teaching::approval::{ApprovalDecision, ApprovalDecisionKind};
use codex_universal::teaching::blueprint::StepOrigin;
use codex_universal::teaching::candidate::{CandidateOrigin, CandidateStatus, WorkflowCandidate};
use codex_universal::teaching::compiler::{compile, step_node_id, verb_of};
use codex_universal::teaching::error::TeachingCompilerError;
use codex_universal::teaching::evidence::TeachingEvidence;
use codex_universal::teaching::mode::TeachingMode;
use codex_universal::teaching::optimization::{OptimizationKind, apply_optimization, propose_optimizations};
use codex_universal::teaching::proposal::BindingKind;
use codex_universal::teaching::session::{DEFAULT_MAX_RECORDS, SessionPolicy, TeachingSession};
use codex_universal::teaching::simulation::SimulationConfig;
use codex_universal::teaching::trajectory::{RecordOrigin, TrajectoryEvent};
use codex_universal::teaching::validation::{FindingCode, Severity};

fn s(v: &str) -> String {
    v.to_string()
}

fn evidence(label: &str) -> TeachingEvidence {
    TeachingEvidence::new(s(label), s("rollout://step"), "ab".repeat(32)).expect("evidence")
}

fn graph(entry: &str, entries: Vec<(&str, WorkflowIrNode)>) -> WorkflowIr {
    let mut nodes = KeyedMap::new();
    for (id, node) in entries {
        nodes.insert(s(id), node);
    }
    WorkflowIr { entry: s(entry), nodes }
}

fn step(next: Option<&str>) -> WorkflowIrNode {
    WorkflowIrNode::Step(StepNode {
        capabilities: Vec::new(),
        roles: Vec::new(),
        description: Some(s("authored step")),
        next: next.map(s),
    })
}

fn graph_with_single_child_sequence() -> WorkflowIr {
    graph(
        "sequence-root",
        vec![
            ("step-a", step(Some("step-b"))),
            ("step-b", step(None)),
            ("sequence-root", WorkflowIrNode::Sequence(SequenceNode { steps: vec![s("step-a")] })),
        ],
    )
}

fn graph_with_unreachable() -> WorkflowIr {
    graph("step-a", vec![("step-a", step(None)), ("step-orphan", step(None))])
}

fn allowed_policy() -> SessionPolicy {
    SessionPolicy { allow_optimization: true, max_records: DEFAULT_MAX_RECORDS }
}

fn taught_candidate() -> WorkflowCandidate {
    let mut session = TeachingSession::new(TeachingMode::Demonstrate);
    session
        .record(RecordOrigin::Demonstration, TrajectoryEvent::Action { text: s("Open the list.") }, Vec::new())
        .expect("record");
    session.close();
    compile(&session).expect("compile")
}

fn taught(actions: &[(&str, bool)]) -> WorkflowCandidate {
    let mut session = TeachingSession::new(TeachingMode::Demonstrate);
    for (text, with_evidence) in actions {
        let ev = if *with_evidence { vec![evidence("step-evidence")] } else { Vec::new() };
        session.record(RecordOrigin::Demonstration, TrajectoryEvent::Action { text: s(text) }, ev).expect("record");
    }
    session.close();
    compile(&session).expect("compile")
}

fn decision(reference: &str) -> ApprovalDecision {
    ApprovalDecision::new(s("tech-lead"), s(reference), ApprovalDecisionKind::Approved).expect("decision")
}

fn step_of(candidate: &WorkflowCandidate, id: &str) -> StepNode {
    match candidate.ir().nodes.get(&s(id)) {
        Some(WorkflowIrNode::Step(node)) => node.clone(),
        other => panic!("expected a step node, got {other:?}"),
    }
}

#[test]
fn enforces_the_lifecycle_transitions() {
    let mut candidate = taught_candidate();
    assert_eq!(candidate.origin(), CandidateOrigin::Taught(TeachingMode::Demonstrate));
    assert!(matches!(
        candidate.simulate(SimulationConfig::default()),
        Err(TeachingCompilerError::InvalidState { .. })
    ));
    candidate.validate().expect("validate");
    assert_eq!(candidate.status(), CandidateStatus::Validated);
    candidate.simulate(SimulationConfig::default()).expect("simulate");
    candidate.validate().expect("revalidate");
    candidate.approve(decision("review")).expect("approve");
    assert_eq!(candidate.status(), CandidateStatus::Approved);
    assert!(candidate.approval().is_some());
    assert_eq!(candidate.epoch(), 0);
}

#[test]
fn demonstration_compiles_to_annotated_observed_steps() {
    let mut session = TeachingSession::new(TeachingMode::Demonstrate);
    session
        .record(RecordOrigin::Demonstration, TrajectoryEvent::Observation { text: s("the list view is open") }, Vec::new())
        .expect("record");
    session
        .record(RecordOrigin::Demonstration, TrajectoryEvent::Action { text: s("open the details pane") }, vec![evidence("open-details")])
        .expect("record");
    session
        .record(RecordOrigin::Demonstration, TrajectoryEvent::Result { text: s("the pane shows the summary") }, Vec::new())
        .expect("record");
    session.close();
    let candidate = compile(&session).expect("compile");
    assert_eq!(candidate.origin(), CandidateOrigin::Taught(TeachingMode::Demonstrate));
    let node = step_of(&candidate, "step-001");
    let description = node.description.expect("intent");
    assert!(description.contains("Observed context: the list view is open"));
    assert!(description.contains("Action: open the details pane"));
    assert!(description.contains("Outcome: the pane shows the summary"));
    assert_eq!(candidate.ir().entry, "step-001");
    assert_eq!(candidate.node_origin(&s("step-001")), Some(StepOrigin::Observed));
    assert_eq!(candidate.node_evidence(&s("step-001")).map(|v| v.len()), Some(1));
}

#[test]
fn instruction_compiles_to_instructed_steps_and_trigger_intents() {
    let mut session = TeachingSession::new(TeachingMode::Instruct);
    session
        .record(
            RecordOrigin::Instruction,
            TrajectoryEvent::Instruction { text: s("When the build fails, page the on-call engineer.") },
            Vec::new(),
        )
        .expect("record");
    session.close();
    let candidate = compile(&session).expect("compile");
    assert_eq!(candidate.node_origin(&s("step-001")), Some(StepOrigin::Instructed));
    assert_eq!(candidate.trigger_intents().len(), 1);
    assert_eq!(candidate.trigger_intents()[0].class_hint, "unresolved");
    assert!(candidate.trigger_intents()[0].description.to_lowercase().starts_with("when"));
}

#[test]
fn hybrid_interleaves_observed_and_instructed_steps() {
    let mut session = TeachingSession::new(TeachingMode::Hybrid);
    session
        .record(RecordOrigin::Demonstration, TrajectoryEvent::Action { text: s("open the list") }, vec![evidence("hybrid-1")])
        .expect("record");
    session
        .record(RecordOrigin::Instruction, TrajectoryEvent::Instruction { text: s("then archive the item") }, Vec::new())
        .expect("record");
    session
        .record(RecordOrigin::Demonstration, TrajectoryEvent::Action { text: s("confirm the archive") }, vec![evidence("hybrid-3")])
        .expect("record");
    session.close();
    let candidate = compile(&session).expect("compile");
    assert_eq!(candidate.node_origin(&s("step-001")), Some(StepOrigin::Observed));
    assert_eq!(candidate.node_origin(&s("step-002")), Some(StepOrigin::Instructed));
    assert_eq!(candidate.node_origin(&s("step-003")), Some(StepOrigin::Observed));
    for (current, expected_next) in [("step-001", "step-002"), ("step-002", "step-003")] {
        assert_eq!(step_of(&candidate, current).next, Some(s(expected_next)));
    }
    assert!(step_of(&candidate, "step-003").next.is_none());
}

#[test]
fn emits_neutral_inferences_and_binding_proposals_per_step() {
    let mut session = TeachingSession::new(TeachingMode::Demonstrate);
    session
        .record(RecordOrigin::Demonstration, TrajectoryEvent::Action { text: s("Open the list.") }, vec![evidence("open-list")])
        .expect("record");
    session.close();
    let candidate = compile(&session).expect("compile");
    assert_eq!(candidate.capability_inferences().len(), 1);
    let hint = &candidate.capability_inferences()[0];
    assert_eq!(hint.node_id, "step-001");
    assert_eq!(hint.requirement_hint, "verb:open");
    assert!(!hint.rationale.is_empty());
    assert_eq!(candidate.binding_proposals().len(), 1);
    let proposal = &candidate.binding_proposals()[0];
    assert_eq!(proposal.node_id, "step-001");
    assert_eq!(proposal.kind, BindingKind::Capability);
    assert_eq!(proposal.proposed_reference, "unresolved:verb:open");
    assert!(proposal.requires_approval);
    assert!(candidate.binding_proposals().iter().all(|binding| binding.proposed_reference.starts_with("unresolved:")));
}

#[test]
fn compiled_candidates_carry_exact_inference_text() {
    let mut session = TeachingSession::new(TeachingMode::Hybrid);
    session
        .record(RecordOrigin::Instruction, TrajectoryEvent::Instruction { text: s("  Archive; the item") }, Vec::new())
        .expect("record");
    session
        .record(RecordOrigin::Instruction, TrajectoryEvent::Instruction { text: s("  when idle, sweep  ") }, Vec::new())
        .expect("record");
    session.close();
    let candidate = compile(&session).expect("compile");
    assert_eq!(candidate.description().as_deref(), Some("taught workflow (2 step(s), mode hybrid)"));
    assert_eq!(candidate.capability_inferences()[0].requirement_hint, "verb:archive");
    assert_eq!(
        candidate.capability_inferences()[0].rationale,
        "lexical hint from the instructed step's recorded intent"
    );
    assert_eq!(candidate.binding_proposals()[1].proposed_reference, "unresolved:verb:when");
    assert_eq!(
        candidate.binding_proposals()[0].rationale,
        "derived from the taught step intent; binding is the execution plane's decision"
    );
    assert_eq!(candidate.trigger_intents().len(), 1);
    assert_eq!(candidate.trigger_intents()[0].description, "when idle, sweep");
    assert_eq!(candidate.ir().nodes.size(), 2);
    assert_eq!(candidate.policy(), &SessionPolicy::default());
}

#[test]
fn step_ids_are_zero_padded_and_verbs_are_normalized() {
    assert_eq!(step_node_id(1), "step-001");
    assert_eq!(step_node_id(42), "step-042");
    assert_eq!(step_node_id(999), "step-999");
    assert_eq!(step_node_id(1000), "step-1000");
    assert_eq!(verb_of("Open the list."), "open");
    assert_eq!(verb_of("  Deploy:; now"), "deploy");
    assert_eq!(verb_of("   "), "unspecified");
    assert_eq!(verb_of(""), "unspecified");
    assert_eq!(verb_of("...."), "");
}

#[test]
fn taught_candidate_with_evidence_validates_clean() {
    let mut candidate = taught(&[("Do a.", true), ("Do b.", true)]);
    let summary = candidate.validate().expect("validate");
    assert!(summary.is_clean());
    assert_eq!(summary.warning_count(), 0);
    assert_eq!(candidate.status(), CandidateStatus::Validated);
}

#[test]
fn observed_step_without_evidence_is_a_warning_not_an_error() {
    let mut candidate = taught(&[("Do a.", false)]);
    let summary = candidate.validate().expect("validate");
    assert!(summary.is_clean());
    assert_eq!(summary.warning_count(), 1);
    assert_eq!(summary.findings()[0].code, FindingCode::ObservedStepWithoutEvidence);
    assert_eq!(summary.findings()[0].severity, Severity::Warning);
    assert_eq!(candidate.status(), CandidateStatus::Validated);
    assert_eq!(candidate.node_origin(&s("step-001")), Some(StepOrigin::Observed));
}

#[test]
fn unreachable_nodes_are_errors_and_block_validation() {
    let mut candidate = WorkflowCandidate::from_ir(graph_with_unreachable(), None).expect("candidate");
    let summary = candidate.validate().expect("validate");
    assert!(!summary.is_clean());
    assert_eq!(summary.error_count(), 1);
    assert_eq!(summary.findings()[0].code, FindingCode::UnreachableNode);
    assert_eq!(candidate.status(), CandidateStatus::Compiled);
    assert!(matches!(candidate.approve(decision("review")), Err(TeachingCompilerError::InvalidState { .. })));
}

#[test]
fn authored_step_without_intent_or_capability_is_flagged() {
    let ir = graph(
        "step-a",
        vec![(
            "step-a",
            WorkflowIrNode::Step(StepNode { capabilities: Vec::new(), roles: Vec::new(), description: None, next: None }),
        )],
    );
    let mut candidate = WorkflowCandidate::from_ir(ir, None).expect("candidate");
    let summary = candidate.validate().expect("validate");
    assert!(summary.is_clean());
    assert_eq!(summary.warning_count(), 2);
    let codes: Vec<_> = summary.findings().iter().map(|finding| finding.code).collect();
    assert!(codes.contains(&FindingCode::StepWithoutIntent));
    assert!(codes.contains(&FindingCode::StepWithoutCapability));
}

#[test]
fn default_policy_forbids_optimization() {
    let mut candidate = WorkflowCandidate::from_ir(graph_with_unreachable(), None).expect("candidate");
    let proposals = propose_optimizations(&candidate);
    assert_eq!(proposals.len(), 1);
    assert_eq!(proposals[0].kind(), OptimizationKind::RemoveUnreachableNodes);
    let result = apply_optimization(&mut candidate, &proposals[0]);
    assert!(matches!(result, Err(TeachingCompilerError::OptimizationForbidden { .. })));
}

#[test]
fn removes_unreachable_nodes_deterministically() {
    let mut candidate = WorkflowCandidate::from_ir(graph_with_unreachable(), None).expect("candidate");
    candidate.set_policy(allowed_policy());
    let proposals = propose_optimizations(&candidate);
    assert_eq!(proposals.len(), 1);
    assert_eq!(proposals[0].description(), "remove 1 node(s) that are unreachable from the entry node");
    assert_eq!(proposals[0].affected_nodes(), &vec![s("step-orphan")]);
    apply_optimization(&mut candidate, &proposals[0]).expect("apply");
    assert_eq!(candidate.ir().nodes.size(), 1);
    assert!(candidate.ir().nodes.contains_key(&s("step-a")));
    assert_eq!(candidate.status(), CandidateStatus::Compiled);
    let summary = candidate.validate().expect("validate");
    assert!(summary.is_clean());
    assert_eq!(candidate.status(), CandidateStatus::Validated);
    assert!(propose_optimizations(&candidate).is_empty());
}

#[test]
fn collapses_single_child_sequences_preserving_step_content() {
    let mut candidate = WorkflowCandidate::from_ir(graph_with_single_child_sequence(), None).expect("candidate");
    candidate.set_policy(allowed_policy());
    let proposals = propose_optimizations(&candidate);
    assert_eq!(proposals.len(), 1);
    assert_eq!(proposals[0].kind(), OptimizationKind::CollapseSingleChildSequence);
    assert_eq!(proposals[0].description(), "collapse single-child sequence `sequence-root` into its only child");
    apply_optimization(&mut candidate, &proposals[0]).expect("apply");
    assert_eq!(candidate.ir().entry, "step-a");
    assert_eq!(candidate.ir().nodes.size(), 2);
    assert!(!candidate.ir().nodes.contains_key(&s("sequence-root")));
    candidate.validate().expect("validate");
    let report = candidate.simulate(SimulationConfig::default()).expect("simulate");
    assert_eq!(report.path().len(), 2);
}

#[test]
fn stale_proposals_are_rejected() {
    let mut candidate = WorkflowCandidate::from_ir(graph_with_unreachable(), None).expect("candidate");
    candidate.set_policy(allowed_policy());
    let proposals = propose_optimizations(&candidate);
    assert_eq!(proposals[0].epoch(), 1);
    candidate.set_policy(allowed_policy());
    assert_eq!(candidate.epoch(), 2);
    assert!(matches!(
        apply_optimization(&mut candidate, &proposals[0]),
        Err(TeachingCompilerError::StaleOptimizationProposal { .. })
    ));
}

#[test]
fn teaching_output_has_nothing_to_optimize() {
    let mut session = TeachingSession::new(TeachingMode::Demonstrate);
    session
        .record(RecordOrigin::Demonstration, TrajectoryEvent::Action { text: s("Open the list.") }, Vec::new())
        .expect("record");
    session
        .record(RecordOrigin::Demonstration, TrajectoryEvent::Action { text: s("Filter the list.") }, Vec::new())
        .expect("record");
    session.close();
    let candidate = compile(&session).expect("compile");
    assert!(propose_optimizations(&candidate).is_empty());
}

#[test]
fn optimization_after_approval_clears_the_approval() {
    let mut candidate = WorkflowCandidate::from_ir(graph_with_single_child_sequence(), None).expect("candidate");
    candidate.set_policy(allowed_policy());
    candidate.validate().expect("validate");
    candidate.simulate(SimulationConfig::default()).expect("simulate");
    candidate.approve(decision("review")).expect("approve");
    let proposals = propose_optimizations(&candidate);
    assert_eq!(proposals.len(), 1);
    apply_optimization(&mut candidate, &proposals[0]).expect("apply");
    assert_eq!(candidate.status(), CandidateStatus::Compiled);
    assert!(candidate.approval().is_none());
}

#[test]
fn collapse_of_an_observed_child_without_evidence_is_forbidden() {
    let mut candidate = taught(&[("Do a.", false)]);
    candidate.set_policy(allowed_policy());
    let mut nodes_candidate = candidate.clone();
    nodes_candidate.ir_mut().nodes.insert(s("seq"), WorkflowIrNode::Sequence(SequenceNode { steps: vec![s("step-001")] }));
    nodes_candidate.ir_mut().entry = s("seq");
    nodes_candidate.after_content_change();
    let proposals = propose_optimizations(&nodes_candidate);
    assert_eq!(proposals.len(), 1);
    let before_epoch = nodes_candidate.epoch();
    match apply_optimization(&mut nodes_candidate, &proposals[0]) {
        Err(TeachingCompilerError::OptimizationForbidden { reason }) => assert_eq!(
            reason,
            "observed step `step-001` carries no evidence; optimization requires evidence for observed steps"
        ),
        other => panic!("unexpected {other:?}"),
    }
    assert_eq!(nodes_candidate.epoch(), before_epoch);
    assert!(nodes_candidate.ir().nodes.contains_key(&s("seq")));
}

#[test]
fn happy_path_reaches_an_approved_workflow() {
    let mut candidate = taught_candidate();
    candidate.validate().expect("validate");
    candidate.simulate(SimulationConfig::default()).expect("simulate");
    candidate.approve(decision("review-approval")).expect("approve");
    let approved = candidate.finalize(s("wo-008/teaching-pipeline")).expect("finalize");
    assert_eq!(approved.definition.id, "wo-008/teaching-pipeline");
    assert!(candidate.approval().is_some());
    assert_eq!(candidate.status(), CandidateStatus::PublicationReady);
    assert!(approved.simulation.allows_publication());
    assert!(matches!(candidate.validate(), Err(TeachingCompilerError::InvalidState { .. })));
    assert!(matches!(candidate.approve(decision("again")), Err(TeachingCompilerError::InvalidState { .. })));
    assert!(matches!(candidate.finalize(s("again")), Err(TeachingCompilerError::InvalidState { .. })));
}

#[test]
fn finalization_requires_a_current_simulation() {
    let mut candidate = taught_candidate();
    candidate.validate().expect("validate");
    candidate.approve(decision("review-8")).expect("approve");
    assert!(matches!(candidate.finalize(s("wo-008/teaching-pipeline")), Err(TeachingCompilerError::MissingSimulation)));
}

#[test]
fn approval_is_bound_to_exact_candidate_content() {
    let mut candidate = taught_candidate();
    candidate.validate().expect("validate");
    candidate.approve(decision("review-9")).expect("approve");
    candidate.set_policy(SessionPolicy { allow_optimization: false, max_records: 4 });
    assert_eq!(candidate.status(), CandidateStatus::Compiled);
    assert!(candidate.approval().is_none());
    assert!(matches!(candidate.approve(decision("review-10")), Err(TeachingCompilerError::InvalidState { .. })));
}

#[test]
fn compilation_is_stable_across_definition_assembly() {
    let first = taught_candidate();
    let second = taught_candidate();
    let definition_a = first.to_definition(s("wo-008/teaching-pipeline")).expect("definition");
    let definition_b = second.to_definition(s("wo-008/teaching-pipeline")).expect("definition");
    assert_eq!(definition_a, definition_b);
}

#[test]
fn rejected_decisions_are_not_approvals() {
    let mut candidate = taught_candidate();
    candidate.validate().expect("validate");
    let rejected = ApprovalDecision::new(s("tech-lead"), s("review-11"), ApprovalDecisionKind::Rejected).expect("decision");
    assert!(matches!(candidate.approve(rejected), Err(TeachingCompilerError::InvalidApproval { .. })));
    assert_eq!(candidate.status(), CandidateStatus::Validated);
}

#[test]
fn candidate_status_names_are_stable() {
    assert_eq!(CandidateStatus::Compiled.as_str(), "compiled");
    assert_eq!(CandidateStatus::Validated.as_str(), "validated");
    assert_eq!(CandidateStatus::Approved.as_str(), "approved");
    assert_eq!(CandidateStatus::PublicationReady.as_str(), "publication-ready");
}
