use codex_universal::ir::{
    ConditionalBranchArm, ConditionalBranchNode, HumanGateNode, LoopNode, ParallelForkNode, ParallelJoinNode,
    SequenceNode, StepNode, WaitNode, WorkflowIr, WorkflowIrNode,
};
use codex_universal::keyed_map::KeyedMap;
use codex_universal::teaching::error::TeachingCompilerError;
use codex_universal::teaching::simulation::{BranchPolicy, SimulationConfig, SimulationOutcome, simulate_ir};
use codex_universal::walk::{Walk, WalkConfig, WalkStep, WalkTerminal};

fn s(v: &str) -> String {
    v.to_string()
}

fn ids(v: &[&str]) -> Vec<String> {
    v.iter().map(|x| s(x)).collect()
}

fn graph(entry: &str, entries: Vec<(&str, WorkflowIrNode)>) -> WorkflowIr {
    let mut nodes = KeyedMap::new();
    for (id, node) in entries {
        nodes.insert(s(id), node);
    }
    WorkflowIr { entry: s(entry), nodes }
}

fn step(next: Option<&str>) -> WorkflowIrNode {
    WorkflowIrNode::Step(StepNode { capabilities: Vec::new(), roles: Vec::new(), description: None, next: next.map(s) })
}

fn walk_path(ir: &WorkflowIr) -> (Vec<String>, WalkTerminal) {
    let mut walk = Walk::new(ir);
    loop {
        match walk.next(ir, WalkConfig::default()).expect("next") {
            WalkStep::Visit(_) => {},
            WalkStep::Terminal(terminal) => return (walk.path().to_vec(), terminal),
        }
    }
}

#[test]
fn linear_graph_completes_in_order() {
    let ir = graph("step-001", vec![("step-001", step(Some("step-002"))), ("step-002", step(None))]);
    let report = simulate_ir(&ir, SimulationConfig::default()).expect("simulate");
    assert_eq!(*report.outcome(), SimulationOutcome::Completed);
    assert_eq!(report.path(), &ids(&["step-001", "step-002"]));
    assert!(report.allows_publication());
    assert_eq!(report.steps_taken(), 2);
    assert_eq!(report.epoch(), 0);
    assert_eq!(report.branch_policy(), None);
}

#[test]
fn wait_pauses_as_a_valid_terminal_state() {
    let ir = graph(
        "step-001",
        vec![("step-001", step(Some("wait-deploy"))), ("wait-deploy", WorkflowIrNode::Wait(WaitNode { next: None }))],
    );
    let report = simulate_ir(&ir, SimulationConfig::default()).expect("simulate");
    match report.outcome() {
        SimulationOutcome::Paused { at } => assert_eq!(at, "wait-deploy"),
        other => panic!("unexpected outcome {other:?}"),
    }
    assert!(report.allows_publication());
}

#[test]
fn conditional_branch_follows_the_declared_default_arm() {
    let ir = graph(
        "branch",
        vec![
            (
                "branch",
                WorkflowIrNode::ConditionalBranch(ConditionalBranchNode {
                    arms: vec![ConditionalBranchArm { condition: s("cond-green"), target: s("step-fast-path") }],
                    default: Some(s("step-safe-path")),
                }),
            ),
            ("step-fast-path", step(None)),
            ("step-safe-path", step(None)),
        ],
    );
    let report = simulate_ir(&ir, SimulationConfig::default()).expect("simulate");
    assert_eq!(*report.outcome(), SimulationOutcome::Completed);
    assert_eq!(report.branch_policy(), Some(BranchPolicy::DefaultArm));
    assert!(report.path().contains(&s("step-safe-path")));
    assert!(!report.path().contains(&s("step-fast-path")));
}

#[test]
fn branch_without_default_or_arms_is_indeterminate() {
    let ir = graph(
        "branch",
        vec![("branch", WorkflowIrNode::ConditionalBranch(ConditionalBranchNode { arms: Vec::new(), default: None }))],
    );
    let report = simulate_ir(&ir, SimulationConfig::default()).expect("simulate");
    match report.outcome() {
        SimulationOutcome::Indeterminate { at, .. } => assert_eq!(at, "branch"),
        other => panic!("unexpected outcome {other:?}"),
    }
    assert!(!report.allows_publication());
}

#[test]
fn cycles_are_caught_by_the_step_budget() {
    let ir = graph("step-001", vec![("step-001", step(Some("step-002"))), ("step-002", step(Some("step-001")))]);
    let result = simulate_ir(&ir, SimulationConfig { max_steps: 8 });
    assert!(matches!(result, Err(TeachingCompilerError::SimulationStepBudgetExceeded { budget: 8 })));
}

#[test]
fn loop_enters_body_once_then_exits() {
    let ir = graph(
        "loop",
        vec![
            ("loop", WorkflowIrNode::Loop(LoopNode { body: s("step-body"), next: Some(s("step-after")) })),
            ("step-body", step(None)),
            ("step-after", step(None)),
        ],
    );
    let report = simulate_ir(&ir, SimulationConfig::default()).expect("simulate");
    assert_eq!(*report.outcome(), SimulationOutcome::Completed);
    assert_eq!(report.path(), &ids(&["loop", "step-body", "step-after"]));
}

#[test]
fn fork_is_replayed_sequentially_through_the_join() {
    let ir = graph(
        "fork",
        vec![
            ("fork", WorkflowIrNode::ParallelFork(ParallelForkNode { branches: ids(&["step-a", "step-b"]) })),
            ("step-a", step(Some("join"))),
            ("step-b", step(Some("join"))),
            ("join", WorkflowIrNode::ParallelJoin(ParallelJoinNode { next: Some(s("step-end")) })),
            ("step-end", step(None)),
        ],
    );
    let report = simulate_ir(&ir, SimulationConfig::default()).expect("simulate");
    assert_eq!(*report.outcome(), SimulationOutcome::Completed);
    assert_eq!(report.path(), &ids(&["fork", "step-a", "join", "step-end", "step-b", "join", "step-end"]));
    assert_eq!(report.steps_taken(), 7);
}

#[test]
fn dangling_references_are_invalid_node_ids() {
    let ir = graph("step-001", vec![("step-001", step(Some("missing")))]);
    assert!(matches!(
        simulate_ir(&ir, SimulationConfig::default()),
        Err(TeachingCompilerError::InvalidNodeId { .. })
    ));
    let gate = graph("gate", vec![("gate", WorkflowIrNode::HumanGate(HumanGateNode { next: None }))]);
    let report = simulate_ir(&gate, SimulationConfig::default()).expect("simulate");
    assert!(matches!(report.outcome(), SimulationOutcome::Paused { .. }));
}

fn mixed_graph() -> WorkflowIr {
    graph(
        "seq",
        vec![
            ("seq", WorkflowIrNode::Sequence(SequenceNode { steps: ids(&["step-001", "fork"]) })),
            ("step-001", step(None)),
            ("fork", WorkflowIrNode::ParallelFork(ParallelForkNode { branches: ids(&["step-002", "step-003"]) })),
            ("step-002", step(Some("join"))),
            ("step-003", step(Some("join"))),
            ("join", WorkflowIrNode::ParallelJoin(ParallelJoinNode { next: Some(s("loop")) })),
            ("loop", WorkflowIrNode::Loop(LoopNode { body: s("step-004"), next: Some(s("wait")) })),
            ("step-004", step(None)),
            ("wait", WorkflowIrNode::Wait(WaitNode { next: None })),
        ],
    )
}

#[test]
fn walk_path_matches_the_compiler_simulation_on_a_mixed_graph() {
    let graph = mixed_graph();
    let simulation = simulate_ir(&graph, SimulationConfig::default()).expect("simulation");
    let (path, terminal) = walk_path(&graph);
    assert_eq!(path, simulation.path().to_vec());
    assert!(matches!(terminal, WalkTerminal::Paused { .. }));
    assert_eq!(simulation.outcome(), &SimulationOutcome::Paused { at: s("wait") });
}

#[test]
fn conditional_branch_takes_the_default_arm_then_the_first_arm() {
    let with_default = graph(
        "branch-1",
        vec![
            (
                "branch-1",
                WorkflowIrNode::ConditionalBranch(ConditionalBranchNode {
                    arms: vec![ConditionalBranchArm { condition: s("cond"), target: s("arm-step") }],
                    default: Some(s("default-step")),
                }),
            ),
            ("default-step", step(None)),
            ("arm-step", step(None)),
        ],
    );
    let (path, terminal) = walk_path(&with_default);
    assert_eq!(path, ids(&["branch-1", "default-step"]));
    assert_eq!(terminal, WalkTerminal::Completed);
    let without_default = graph(
        "branch-2",
        vec![
            (
                "branch-2",
                WorkflowIrNode::ConditionalBranch(ConditionalBranchNode {
                    arms: vec![ConditionalBranchArm { condition: s("cond"), target: s("arm-step") }],
                    default: None,
                }),
            ),
            ("arm-step", step(None)),
        ],
    );
    let (path, terminal) = walk_path(&without_default);
    assert_eq!(path, ids(&["branch-2", "arm-step"]));
    assert_eq!(terminal, WalkTerminal::Completed);
}

#[test]
fn budget_exceeded_aborts_the_walk() {
    let graph = graph(
        "step-001",
        vec![("step-001", step(Some("step-002"))), ("step-002", step(Some("step-003"))), ("step-003", step(None))],
    );
    let mut walk = Walk::new(&graph);
    let config = WalkConfig { max_steps: 2 };
    assert!(walk.next(&graph, config).is_ok());
    assert!(walk.next(&graph, config).is_ok());
    assert!(walk.next(&graph, config).is_err());
}

#[test]
fn a_paused_walk_resumes_at_the_wait_nodes_successor() {
    let graph = graph(
        "step-001",
        vec![
            ("step-001", step(Some("wait"))),
            ("wait", WorkflowIrNode::Wait(WaitNode { next: Some(s("step-002")) })),
            ("step-002", step(None)),
        ],
    );
    let mut walk = Walk::new(&graph);
    let config = WalkConfig::default();
    assert_eq!(walk.next(&graph, config).expect("step"), WalkStep::Visit(s("step-001")));
    let WalkStep::Terminal(WalkTerminal::Paused { node, .. }) = walk.next(&graph, config).expect("pause") else {
        panic!("expected the walk to pause at the wait node");
    };
    assert_eq!(node, "wait");
    let position = walk.position();
    assert_eq!(position.current, Some(s("step-002")));
    assert_eq!(position.path, ids(&["step-001", "wait"]));
    assert_eq!(position.steps_taken, 2);
    assert_eq!(walk.next(&graph, config).expect("resume step"), WalkStep::Visit(s("step-002")));
    assert_eq!(walk.next(&graph, config).expect("terminal"), WalkStep::Terminal(WalkTerminal::Completed));
}

#[test]
fn a_paused_walk_without_a_successor_completes_on_resume() {
    let graph = graph(
        "step-001",
        vec![("step-001", step(Some("wait"))), ("wait", WorkflowIrNode::Wait(WaitNode { next: None }))],
    );
    let mut walk = Walk::new(&graph);
    let config = WalkConfig::default();
    assert_eq!(walk.next(&graph, config).expect("step"), WalkStep::Visit(s("step-001")));
    let WalkStep::Terminal(WalkTerminal::Paused { .. }) = walk.next(&graph, config).expect("pause") else {
        panic!("expected the walk to pause at the wait node");
    };
    assert_eq!(walk.position().current, None);
    assert_eq!(walk.next(&graph, config).expect("terminal"), WalkStep::Terminal(WalkTerminal::Completed));
}

#[test]
fn a_position_round_trips_through_a_fresh_walk() {
    let graph = graph(
        "step-001",
        vec![
            ("step-001", step(Some("wait"))),
            ("wait", WorkflowIrNode::Wait(WaitNode { next: Some(s("step-002")) })),
            ("step-002", step(Some("step-003"))),
            ("step-003", step(None)),
        ],
    );
    let mut walk = Walk::new(&graph);
    let config = WalkConfig { max_steps: 3 };
    assert_eq!(walk.next(&graph, config).expect("step"), WalkStep::Visit(s("step-001")));
    let WalkStep::Terminal(WalkTerminal::Paused { .. }) = walk.next(&graph, config).expect("pause") else {
        panic!("expected the walk to pause at the wait node");
    };
    let position = walk.position();
    let mut restored = Walk::resume(&graph, position.clone());
    assert_eq!(restored.position(), position);
    assert_eq!(restored.next(&graph, config).expect("resume step"), WalkStep::Visit(s("step-002")));
    assert!(restored.next(&graph, config).is_err(), "the restored walk inherits the consumed budget, not a fresh one");
}

#[test]
fn pruning_unreachable_nodes_keeps_the_simulation() {
    let full = graph(
        "step-001",
        vec![("step-001", step(Some("step-002"))), ("step-002", step(None)), ("orphan", step(Some("step-001")))],
    );
    let pruned = graph("step-001", vec![("step-001", step(Some("step-002"))), ("step-002", step(None))]);
    let a = simulate_ir(&full, SimulationConfig::default()).expect("simulate");
    let b = simulate_ir(&pruned, SimulationConfig::default()).expect("simulate");
    assert_eq!(a.path(), b.path());
    assert_eq!(a.outcome(), b.outcome());
    assert_eq!(a.steps_taken(), b.steps_taken());
}

#[test]
fn every_stop_names_its_reason() {
    let dangling = graph("step-001", vec![("step-001", step(Some("missing")))]);
    match simulate_ir(&dangling, SimulationConfig::default()) {
        Err(TeachingCompilerError::InvalidNodeId { node_id, reason }) => {
            assert_eq!(node_id, "missing");
            assert_eq!(reason, "simulation encountered a node id that is not in the graph");
        },
        other => panic!("expected an invalid node id, got {other:?}"),
    }
    let mut walk = Walk::new(&dangling);
    assert!(matches!(walk.next(&dangling, WalkConfig::default()), Ok(WalkStep::Visit(_))));
    match walk.next(&dangling, WalkConfig::default()) {
        Err(codex_universal::walk::WalkError::InvalidRecord { reason }) => {
            assert_eq!(reason, "walk encountered node `missing` missing from the graph");
        },
        other => panic!("expected a missing node, got {other:?}"),
    }

    let chain = graph("step-001", vec![("step-001", step(Some("step-002"))), ("step-002", step(None))]);
    let mut walk = Walk::new(&chain);
    let config = WalkConfig { max_steps: 1 };
    assert!(walk.next(&chain, config).is_ok());
    match walk.next(&chain, config) {
        Err(codex_universal::walk::WalkError::InvalidRecord { reason }) => {
            assert_eq!(reason, "workflow run exceeded its node budget of 1");
        },
        other => panic!("expected an exhausted budget, got {other:?}"),
    }

    let bare = graph(
        "branch",
        vec![("branch", WorkflowIrNode::ConditionalBranch(ConditionalBranchNode { arms: Vec::new(), default: None }))],
    );
    match simulate_ir(&bare, SimulationConfig::default()).expect("simulate").outcome() {
        SimulationOutcome::Indeterminate { at, reason } => {
            assert_eq!(at, "branch");
            assert_eq!(reason, "conditional branch has no arms and no default");
        },
        other => panic!("expected an indeterminate stop, got {other:?}"),
    }
}
