use codex_universal::instantiation::{
    InstantiationAction, InstantiationEvent, InstantiationPhase, instantiation_start, instantiation_step,
};
use codex_universal::ir::{SequenceNode, StepNode, WaitNode, WorkflowIr, WorkflowIrNode};
use codex_universal::keyed_map::KeyedMap;
use codex_universal::plan::{BindingChoice, distinct_bindings, distinct_decision_bindings};
use codex_universal::providers::bind::ExecutionEnvironment;
use codex_universal::providers::error::FailureKind;
use codex_universal::publish::apply_bindings;
use codex_universal::recovery::{
    EscalationRecord, RecoveryAction, RecoveryContext, RecoveryEvent, RecoveryState, RecoveryStrategyKind, recovery_step,
};

fn ctx(kind: FailureKind) -> RecoveryContext {
    RecoveryContext {
        kind,
        binding: "terminal-1".to_owned(),
        capability: "run_shell".to_owned(),
        message: "exit 1".to_owned(),
    }
}

fn escalation(action: &RecoveryAction) -> (String, Option<EscalationRecord>) {
    match action {
        RecoveryAction::Escalate { reason, record } => (reason.clone(), *record),
        other => panic!("expected an escalation, got {other:?}"),
    }
}

#[test]
fn transient_failures_retry_once_on_the_same_binding() {
    for kind in [FailureKind::Transient, FailureKind::Timeout] {
        let c = ctx(kind);
        let (state, act) = recovery_step(&c, &RecoveryState::Failed, &RecoveryEvent::Begin);
        assert_eq!((state.clone(), act), (RecoveryState::Retrying, RecoveryAction::RetrySameBinding));
        let (done, recovered) = recovery_step(&c, &state, &RecoveryEvent::DispatchSucceeded);
        assert_eq!(done, RecoveryState::Settled);
        assert_eq!(
            recovered,
            RecoveryAction::Recovered { strategy: RecoveryStrategyKind::Retry, binding: "terminal-1".to_owned() }
        );
        let (done, failed) = recovery_step(&c, &state, &RecoveryEvent::DispatchFailed { detail: Some("exit 2".to_owned()) });
        assert_eq!(done, RecoveryState::Settled);
        assert_eq!(
            escalation(&failed),
            ("retry of binding `terminal-1` failed: exit 2".to_owned(), Some(EscalationRecord::RetryNotRecovered))
        );
        let (_, silent) = recovery_step(&c, &state, &RecoveryEvent::DispatchFailed { detail: None });
        assert_eq!(escalation(&silent).0, "retry of binding `terminal-1` failed: no failure record");
    }
}

#[test]
fn unavailable_bindings_rebind_to_a_different_binding() {
    let c = ctx(FailureKind::Unavailable);
    let (state, act) = recovery_step(&c, &RecoveryState::Failed, &RecoveryEvent::Begin);
    assert_eq!((state.clone(), act), (RecoveryState::Resolving, RecoveryAction::ResolveAlternate));

    let (rebinding, dispatch) = recovery_step(&c, &state, &RecoveryEvent::Resolved { binding: "terminal-2".to_owned() });
    assert_eq!(rebinding, RecoveryState::Rebinding { binding: "terminal-2".to_owned() });
    assert_eq!(dispatch, RecoveryAction::DispatchOnAlternate { binding: "terminal-2".to_owned() });
    let (_, recovered) = recovery_step(&c, &rebinding, &RecoveryEvent::DispatchSucceeded);
    assert_eq!(
        recovered,
        RecoveryAction::Recovered { strategy: RecoveryStrategyKind::Rebind, binding: "terminal-2".to_owned() }
    );
    let (_, failed) = recovery_step(&c, &rebinding, &RecoveryEvent::DispatchFailed { detail: Some("timeout".to_owned()) });
    assert_eq!(
        escalation(&failed),
        ("rebound action on binding `terminal-2` failed: timeout".to_owned(), Some(EscalationRecord::RebindFailed))
    );

    let (settled, same) = recovery_step(&c, &state, &RecoveryEvent::Resolved { binding: "terminal-1".to_owned() });
    assert_eq!(settled, RecoveryState::Settled);
    assert_eq!(escalation(&same), ("rebind for binding `terminal-1` selected the same binding".to_owned(), None));

    let (_, unresolved) = recovery_step(
        &c,
        &state,
        &RecoveryEvent::ResolveFailed { code: "NoCompatibleBinding".to_owned(), message: "none left".to_owned() },
    );
    assert_eq!(
        escalation(&unresolved),
        ("rebind for capability `run_shell` failed: NoCompatibleBinding: none left".to_owned(), None)
    );
}

#[test]
fn permanent_and_policy_failures_escalate_at_once() {
    for kind in [FailureKind::Permanent, FailureKind::PolicyDenied] {
        let (state, act) = recovery_step(&ctx(kind), &RecoveryState::Failed, &RecoveryEvent::Begin);
        assert_eq!(state, RecoveryState::Settled);
        assert_eq!(escalation(&act), ("binding `terminal-1` failed permanently: exit 1".to_owned(), None));
    }
}

fn choice(binding: &str, environment: ExecutionEnvironment, capability: &str) -> BindingChoice {
    BindingChoice { binding: binding.to_owned(), environment, capability: capability.to_owned() }
}

#[test]
fn distinct_bindings_keep_the_first_decision_in_identity_order() {
    let steps = vec![
        vec![choice("terminal-b", ExecutionEnvironment::Terminal, "run_shell")],
        vec![
            choice("browser-a", ExecutionEnvironment::Browser, "navigate_web"),
            choice("terminal-b", ExecutionEnvironment::Terminal, "edit_files"),
        ],
        vec![],
        vec![choice("computer-c", ExecutionEnvironment::Computer, "control_desktop_app")],
    ];
    assert_eq!(
        distinct_bindings(&steps),
        vec![
            choice("browser-a", ExecutionEnvironment::Browser, "navigate_web"),
            choice("computer-c", ExecutionEnvironment::Computer, "control_desktop_app"),
            choice("terminal-b", ExecutionEnvironment::Terminal, "run_shell"),
        ]
    );
    assert!(distinct_bindings(&vec![]).is_empty());

    let mut decisions: KeyedMap<Vec<BindingChoice>> = KeyedMap::new();
    decisions.insert("step-2".to_owned(), vec![choice("api-z", ExecutionEnvironment::Api, "call_api")]);
    decisions.insert(
        "step-1".to_owned(),
        vec![choice("api-z", ExecutionEnvironment::Api, "fetch"), choice("terminal-b", ExecutionEnvironment::Terminal, "run_shell")],
    );
    // Nodes are visited in node order, so step-1's decision for api-z wins.
    assert_eq!(
        distinct_decision_bindings(&decisions),
        vec![
            choice("api-z", ExecutionEnvironment::Api, "fetch"),
            choice("terminal-b", ExecutionEnvironment::Terminal, "run_shell"),
        ]
    );
}

fn step(capabilities: &[&str], next: Option<&str>) -> WorkflowIrNode {
    WorkflowIrNode::Step(StepNode {
        capabilities: capabilities.iter().map(|c| c.to_string()).collect(),
        roles: vec!["operator".to_owned()],
        description: Some("work".to_owned()),
        next: next.map(|n| n.to_owned()),
    })
}

fn graph() -> WorkflowIr {
    let mut nodes: KeyedMap<WorkflowIrNode> = KeyedMap::new();
    nodes.insert("seq".to_owned(), WorkflowIrNode::Sequence(SequenceNode { steps: vec!["a".to_owned(), "b".to_owned()] }));
    nodes.insert("a".to_owned(), step(&["proposed"], Some("wait")));
    nodes.insert("b".to_owned(), step(&[], None));
    nodes.insert("wait".to_owned(), WorkflowIrNode::Wait(WaitNode { next: None }));
    WorkflowIr { entry: "seq".to_owned(), nodes }
}

#[test]
fn binding_resolution_declares_requirements_on_steps_only() {
    let ir = graph();
    let mut bindings: KeyedMap<Vec<String>> = KeyedMap::new();
    bindings.insert("a".to_owned(), vec!["run_shell".to_owned(), "edit_files".to_owned()]);
    bindings.insert("b".to_owned(), vec![]);
    let bound = apply_bindings(&ir, &bindings).expect("bindings apply");
    assert_eq!(bound.entry, "seq");
    assert_eq!(bound.nodes.get(&"a".to_owned()), Some(&step(&["run_shell", "edit_files"], Some("wait"))));
    assert_eq!(bound.nodes.get(&"b".to_owned()), Some(&step(&[], None)));
    assert_eq!(bound.nodes.get(&"wait".to_owned()), ir.nodes.get(&"wait".to_owned()));
    assert_eq!(bound.nodes.size(), ir.nodes.size());
    // The approved graph is untouched.
    assert_eq!(ir.nodes.get(&"a".to_owned()), Some(&step(&["proposed"], Some("wait"))));

    let mut wrong: KeyedMap<Vec<String>> = KeyedMap::new();
    wrong.insert("wait".to_owned(), vec!["run_shell".to_owned()]);
    wrong.insert("zz".to_owned(), vec![]);
    assert_eq!(
        apply_bindings(&ir, &wrong),
        Err("binding resolution targets node `wait`, which is not a step node".to_owned())
    );
    let mut missing: KeyedMap<Vec<String>> = KeyedMap::new();
    missing.insert("ghost".to_owned(), vec![]);
    missing.insert("wait".to_owned(), vec![]);
    assert_eq!(
        apply_bindings(&ir, &missing),
        Err("binding resolution targets node `ghost`, which does not exist".to_owned())
    );
}

#[test]
fn instantiation_runs_its_phases_in_order_and_stops_at_a_failure() {
    let (mut state, action) = instantiation_start(1);
    assert_eq!(action, InstantiationAction::VerifyIntegrity);
    let mut actions = vec![action];
    let events = [
        InstantiationEvent::Succeeded,
        InstantiationEvent::Succeeded,
        InstantiationEvent::Succeeded,
        InstantiationEvent::Planned(2),
        InstantiationEvent::Succeeded,
        InstantiationEvent::Succeeded,
        InstantiationEvent::Succeeded,
        InstantiationEvent::Succeeded,
        InstantiationEvent::Succeeded,
    ];
    for event in events {
        let (next, action) = instantiation_step(state, event);
        state = next;
        actions.push(action);
    }
    assert_eq!(
        actions,
        vec![
            InstantiationAction::VerifyIntegrity,
            InstantiationAction::RefreshReadiness,
            InstantiationAction::BindResource(0),
            InstantiationAction::PlanBindings,
            InstantiationAction::AuthorizeBinding(0),
            InstantiationAction::AuthorizeBinding(1),
            InstantiationAction::AttachResources(0),
            InstantiationAction::AttachResources(1),
            InstantiationAction::StartRun,
            InstantiationAction::Done,
        ]
    );
    assert_eq!(state.phase, InstantiationPhase::Running);

    let (state, _) = instantiation_start(0);
    let (state, action) = instantiation_step(state, InstantiationEvent::Succeeded);
    assert_eq!(action, InstantiationAction::RefreshReadiness);
    let (state, action) = instantiation_step(state, InstantiationEvent::Succeeded);
    assert_eq!(action, InstantiationAction::PlanBindings);
    let (state, action) = instantiation_step(state, InstantiationEvent::Failed);
    assert_eq!(action, InstantiationAction::FailInstance);
    assert_eq!(state.phase, InstantiationPhase::Failed);
}
