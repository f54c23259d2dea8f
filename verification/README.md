# codex_universal

A Verus-verified library for a workflow platform that learns workflows from
demonstrations and runs them on interchangeable execution resources.

## Layout

- `src/` — the verified library.
  - `teaching/` — teaching sessions, trajectories, evidence, blueprints,
    proposals, the compiler from a session to a workflow graph, graph
    simulation, optimization proposals, and candidate approval.
  - `ir.rs`, `graph.rs`, `keyed_map.rs`, `text.rs` — the workflow graph
    model, graph rewrites, an ordered string-keyed map, and text helpers.
  - `walk.rs`, `replay.rs` — walking a graph at run time and replaying
    paths.
  - `providers/` — the execution resource provider plane: resource model,
    capability declarations, the `ExecutionResourceProvider` port, two
    in-process fixture providers proved against the port's contract, the
    conformance harness, the registry, evidence journals and binding.
  - `plan.rs`, `publish.rs`, `recovery.rs`, `approval.rs`, `environment/` —
    the workflow application's own decisions: distinct bindings of a plan,
    binding resolution onto step nodes, failure recovery as a state
    machine, approval verdicts, and the desktop and browser action
    vocabularies read from an action's JSON wire form.
- `tests/` — tests run against the compiled library.
- `app/` — host-side glue: JSON wire forms of the provider records, reading
  JSON into the library's JSON model, a lock-shared provider, error display.
