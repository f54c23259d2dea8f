//! The teaching compiler entry point: a closed teaching session becomes a
//! workflow candidate.
//!
//! 1. ordered step blueprints are extracted from the trajectory;
//! 2. each blueprint becomes one step node (`step-001`, `step-002`, ...)
//!    chained through `next`, all reachable from the entry step;
//! 3. evidence and extraction origins are attached per node;
//! 4. one lexical capability hint and one unresolved capability binding
//!    proposal are emitted per step (the compiler never declares
//!    capability requirements itself);
//! 5. instructions beginning with `when` surface as unresolved trigger
//!    intents awaiting approval.
//!
//! Compilation is a pure function of the closed session.

use vstd::prelude::*;
use crate::ir::{NodeView, StepNode, WorkflowIr, WorkflowIrNode, ids};
use crate::keyed_map::KeyedMap;
use crate::text::{
    decimal, decimal_pad3, first_word, first_word_of, has_prefix, lemma_decimal_pad3_value, lowercase,
    push_decimal, push_decimal_pad3, starts_with, to_lowercase, trim, trim_end_punct, trim_end_punct_str,
    trim_str, digits_value,
};
use crate::teaching::blueprint::{BlueprintSpec, StepBlueprint, StepOrigin, blueprint_views, extract, extract_blueprints, extraction_result, step_origin_name};
use crate::teaching::candidate::{CandidateInputs, CandidateOrigin, WorkflowCandidate};
use crate::teaching::error::TeachingCompilerError;
use crate::teaching::evidence::{TeachingEvidence, clone_evidence};
use crate::teaching::mode::{TeachingMode, mode_name};
use crate::teaching::proposal::{BindingKind, BindingProposal, CapabilityInference, TriggerIntent};
use crate::teaching::session::TeachingSession;
use crate::teaching::trajectory::{RecordOrigin, TrajectoryEvent, TrajectoryRecord};

verus! {

/// The id of the step node at 1-based position `index`: `step-` and the
/// index zero-padded to three digits.
pub open spec fn step_key(index: int) -> Seq<char> {
    seq!['s', 't', 'e', 'p', '-'] + decimal_pad3(index as nat)
}

/// Distinct positions get distinct step ids.
pub proof fn lemma_step_key_injective(a: int, b: int)
    requires
        0 <= a,
        0 <= b,
        step_key(a) == step_key(b),
    ensures
        a == b,
{
    lemma_decimal_pad3_value(a as nat);
    lemma_decimal_pad3_value(b as nat);
    assert(step_key(a).subrange(5, step_key(a).len() as int) =~= decimal_pad3(a as nat));
    assert(step_key(b).subrange(5, step_key(b).len() as int) =~= decimal_pad3(b as nat));
}

/// Deterministic step node id: `step-001`, `step-002`, ...
pub fn step_node_id(index: u64) -> (r: String)
    ensures
        r@ == step_key(index as int),
{
    proof {
        reveal_strlit("step-");
    }
    let mut s = String::from_str("step-");
    push_decimal_pad3(&mut s, index);
    s
}

/// The first word of an intent without trailing `.`, `,`, `;`, `:`
/// (`unspecified` when the intent has no word).
pub open spec fn verb_word(intent: Seq<char>) -> Seq<char> {
    trim_end_punct(
        match first_word(intent) {
            Some(w) => w,
            None => "unspecified"@,
        },
    )
}

/// The first word of a step intent, lowercased, as a neutral hint label.
pub fn verb_of(intent: &str) -> (r: String)
    ensures
        r@ == lowercase(verb_word(intent@)),
{
    let word = match first_word_of(intent) {
        Some(w) => w,
        None => String::from_str("unspecified"),
    };
    let trimmed = trim_end_punct_str(word.as_str());
    to_lowercase(trimmed.as_str())
}

/// The rationale attached to every binding proposal.
pub open spec fn binding_rationale() -> Seq<char> {
    "derived from the taught step intent; binding is the execution plane's decision"@
}

/// The capability hint emitted for the step `node_id` with this origin and
/// verb.
pub open spec fn inference_for(ci: CapabilityInference, node_id: Seq<char>, origin: StepOrigin, verb: Seq<char>) -> bool {
    &&& ci.node_id@ == node_id
    &&& ci.requirement_hint@ == "verb:"@ + verb
    &&& ci.rationale@ == "lexical hint from the "@ + step_origin_name(origin) + " step's recorded intent"@
}

/// The binding proposal emitted for the step `node_id` with this verb.
pub open spec fn proposal_for(p: BindingProposal, node_id: Seq<char>, verb: Seq<char>) -> bool {
    &&& p.node_id@ == node_id
    &&& p.kind is Capability
    &&& p.proposed_reference@ == "unresolved:verb:"@ + verb
    &&& p.rationale@ == binding_rationale()
    &&& p.requires_approval
}

/// The hint and the proposal for one step, given its lowercased verb.
pub fn step_inferences(node_id: &String, origin: StepOrigin, verb: &String) -> (r: (CapabilityInference, BindingProposal))
    ensures
        inference_for(r.0, node_id@, origin, verb@),
        proposal_for(r.1, node_id@, verb@),
{
    let mut hint = String::from_str("verb:");
    hint.append(verb.as_str());
    let mut rationale = String::from_str("lexical hint from the ");
    rationale.append(origin.as_str());
    rationale.append(" step's recorded intent");
    let mut reference = String::from_str("unresolved:verb:");
    reference.append(verb.as_str());
    let inference = CapabilityInference { node_id: node_id.clone(), requirement_hint: hint, rationale };
    let proposal = BindingProposal {
        node_id: node_id.clone(),
        kind: BindingKind::Capability,
        proposed_reference: reference,
        rationale: String::from_str("derived from the taught step intent; binding is the execution plane's decision"),
        requires_approval: true,
    };
    (inference, proposal)
}

/// Whether a record is an instruction whose trimmed, lowercased text
/// begins with `when`.
pub open spec fn is_when_instruction(rec: TrajectoryRecord) -> bool {
    match rec.spec_event() {
        TrajectoryEvent::Instruction { text } => rec.spec_origin() is Instruction
            && has_prefix(lowercase(trim(text@)), "when"@),
        _ => false,
    }
}

/// The trimmed texts of the `when` instructions among `records`, in order.
pub open spec fn trigger_descriptions(records: Seq<TrajectoryRecord>) -> Seq<Seq<char>>
    decreases records.len(),
{
    if records.len() == 0 {
        Seq::empty()
    } else {
        let prev = trigger_descriptions(records.drop_last());
        let rec = records.last();
        match rec.spec_event() {
            TrajectoryEvent::Instruction { text } => if is_when_instruction(rec) {
                prev.push(trim(text@))
            } else {
                prev
            },
            _ => prev,
        }
    }
}

/// The descriptions of a list of trigger intents.
pub open spec fn intent_descriptions(v: Seq<TriggerIntent>) -> Seq<Seq<char>> {
    v.map_values(|t: TriggerIntent| t.description@)
}

/// The step node compiled for 1-based position `j` of `bps`.
pub open spec fn step_view(bps: Seq<BlueprintSpec>, j: int) -> NodeView {
    NodeView::Step {
        capabilities: Seq::empty(),
        roles: Seq::empty(),
        description: Some(bps[j - 1].intent),
        next: if j < bps.len() { Some(step_key(j + 1)) } else { None },
    }
}

/// The candidate description for `n` steps in `mode`.
pub open spec fn taught_description(n: nat, mode: TeachingMode) -> Seq<char> {
    "taught workflow ("@ + decimal(n) + " step(s), mode "@ + mode_name(mode) + ")"@
}

/// Whether a session with these records compiles.
pub open spec fn compilable(records: Seq<TrajectoryRecord>, closed: bool) -> bool {
    &&& records.len() > 0
    &&& closed
    &&& extract(records) matches Some(acc)
    &&& acc.0.len() > 0
}

/// The first `count` compiled nodes, evidence lists and origins are in
/// the three maps, which hold nothing else.
pub open spec fn maps_hold_steps(
    nodes: KeyedMap<WorkflowIrNode>,
    evidence: KeyedMap<Vec<TeachingEvidence>>,
    origins: KeyedMap<StepOrigin>,
    bps: Seq<BlueprintSpec>,
    count: int,
) -> bool {
    &&& nodes.wf() && evidence.wf() && origins.wf()
    &&& nodes.len() == count && evidence.len() == count && origins.len() == count
    &&& forall|j: int| 1 <= j <= count ==> {
        &&& #[trigger] nodes.lookup(step_key(j)) is Some
        &&& nodes.lookup(step_key(j)).unwrap().node_view() == step_view(bps, j)
        &&& evidence.lookup(step_key(j)) is Some
        &&& evidence.lookup(step_key(j)).unwrap()@ == bps[j - 1].evidence
        &&& origins.lookup(step_key(j)) == Some(bps[j - 1].origin)
    }
    &&& forall|k: Seq<char>| #[trigger] nodes.contains(k) ==> exists|j: int| 1 <= j <= count && k == step_key(j)
    &&& forall|k: Seq<char>| #[trigger] evidence.contains(k) ==> nodes.contains(k)
    &&& forall|k: Seq<char>| #[trigger] origins.contains(k) ==> nodes.contains(k)
}

/// The hints and proposals for the first `count` steps.
pub open spec fn inferences_hold_steps(
    inferences: Seq<CapabilityInference>,
    proposals: Seq<BindingProposal>,
    bps: Seq<BlueprintSpec>,
    count: int,
) -> bool {
    &&& inferences.len() == count && proposals.len() == count
    &&& forall|j: int| 0 <= j < count ==> inference_for(#[trigger] inferences[j], step_key(j + 1), bps[j].origin, lowercase(verb_word(bps[j].intent)))
    &&& forall|j: int| 0 <= j < count ==> proposal_for(#[trigger] proposals[j], step_key(j + 1), lowercase(verb_word(bps[j].intent)))
}

/// What `compile` builds from a compilable session.
pub open spec fn compiled_from(c: WorkflowCandidate, session: TeachingSession) -> bool {
    let records = session.spec_records();
    let bps = extract(records).unwrap().0;
    let n = bps.len();
    &&& c.wf()
    &&& c.spec_status() is Compiled
    &&& c.spec_epoch() == 0
    &&& c.spec_origin() == CandidateOrigin::Taught(session.spec_mode())
    &&& c.spec_policy() == session.spec_policy()
    &&& c.spec_description() matches Some(d) && d@ == taught_description(n, session.spec_mode())
    &&& c.spec_ir().entry@ == step_key(1)
    &&& maps_hold_steps(c.spec_ir().nodes, c.spec_node_evidence(), c.spec_node_origins(), bps, n as int)
    &&& inferences_hold_steps(c.spec_capability_inferences(), c.spec_binding_proposals(), bps, n as int)
    &&& intent_descriptions(c.spec_trigger_intents()) == trigger_descriptions(records)
    &&& forall|j: int| 0 <= j < c.spec_trigger_intents().len() ==> (#[trigger] c.spec_trigger_intents()[j]).class_hint@ == "unresolved"@
    &&& c.spec_last_validation() is None
    &&& c.spec_last_simulation() is None
    &&& c.spec_approval() is None
}

/// Compilation turns the extracted blueprints into the step chain: when
/// extraction of a session yields `blueprints` (k of them), the session
/// compiles, and the compiled candidate has entry `step-001`, exactly the
/// nodes `step-001` .. `step-k`, node `i` a step with no capabilities or
/// roles, the `i`-th intent as description and `step-(i+1)` as successor
/// (none for the last), the `i`-th origin as the node's origin, status
/// `Compiled` and epoch 0.
pub proof fn lemma_compile_follows_blueprints(session: TeachingSession, blueprints: Vec<StepBlueprint>, c: WorkflowCandidate)
    requires
        extraction_result(
            session.spec_records(),
            session.spec_closed(),
            Ok::<Vec<StepBlueprint>, TeachingCompilerError>(blueprints),
        ),
        compiled_from(c, session),
    ensures
        compilable(session.spec_records(), session.spec_closed()),
        blueprint_views(blueprints@).len() >= 1,
        c.spec_status() is Compiled,
        c.spec_epoch() == 0,
        c.spec_ir().entry@ == step_key(1),
        forall|key: Seq<char>| #[trigger] c.spec_ir().nodes.contains(key)
            <==> exists|i: int| 1 <= i <= blueprint_views(blueprints@).len() && key == step_key(i),
        forall|i: int| 1 <= i <= blueprint_views(blueprints@).len() ==> {
            &&& #[trigger] c.spec_ir().nodes.lookup(step_key(i)) is Some
            &&& c.spec_ir().nodes.lookup(step_key(i)).unwrap().node_view() == (NodeView::Step {
                capabilities: Seq::empty(),
                roles: Seq::empty(),
                description: Some(blueprint_views(blueprints@)[i - 1].intent),
                next: if i < blueprint_views(blueprints@).len() { Some(step_key(i + 1)) } else { None },
            })
            &&& c.spec_node_origins().lookup(step_key(i)) == Some(blueprint_views(blueprints@)[i - 1].origin)
        },
{
    let bps = blueprint_views(blueprints@);
    let k = bps.len();
    assert forall|key: Seq<char>| #[trigger] c.spec_ir().nodes.contains(key)
        <==> exists|i: int| 1 <= i <= k && key == step_key(i) by {
        if exists|i: int| 1 <= i <= k && key == step_key(i) {
            let i = choose|i: int| 1 <= i <= k && key == step_key(i);
            assert(c.spec_ir().nodes.lookup(step_key(i)) is Some);
        }
    }
}

/// The trigger intents of the `when` instructions among `records`.
fn collect_trigger_intents(records: &Vec<TrajectoryRecord>) -> (r: Vec<TriggerIntent>)
    ensures
        intent_descriptions(r@) == trigger_descriptions(records@),
        forall|j: int| 0 <= j < r@.len() ==> (#[trigger] r@[j]).class_hint@ == "unresolved"@,
{
    let mut out: Vec<TriggerIntent> = Vec::new();
    let mut i: usize = 0;
    while i < records.len()
        invariant
            i <= records@.len(),
            intent_descriptions(out@) == trigger_descriptions(records@.take(i as int)),
            forall|j: int| 0 <= j < out@.len() ==> (#[trigger] out@[j]).class_hint@ == "unresolved"@,
        decreases records@.len() - i,
    {
        let rec = &records[i];
        let ghost before = out@;
        proof {
            assert(records@.take(i + 1).drop_last() =~= records@.take(i as int));
            assert(records@.take(i + 1).last() == records@[i as int]);
        }
        match rec.event() {
            TrajectoryEvent::Instruction { text } => {
                let trimmed = trim_str(text.as_str());
                let lowered = to_lowercase(trimmed.as_str());
                proof {
                    reveal_strlit("when");
                }
                let is_instruction = match rec.origin() {
                    RecordOrigin::Instruction => true,
                    RecordOrigin::Demonstration => false,
                };
                if is_instruction && starts_with(lowered.as_str(), "when") {
                    out.push(TriggerIntent { class_hint: String::from_str("unresolved"), description: trimmed });
                    assert(intent_descriptions(out@) =~= intent_descriptions(before).push(trim(text@)));
                }
            },
            _ => {},
        }
        i += 1;
    }
    assert(records@.take(records@.len() as int) =~= records@);
    out
}

/// Compiles a closed teaching session into a workflow candidate.
///
/// The session must be closed and non-empty; otherwise
/// `SessionNotClosed` or `EmptySession` is returned (both surfaced by
/// blueprint extraction).
pub fn compile(session: &TeachingSession) -> (r: Result<WorkflowCandidate, TeachingCompilerError>)
    ensures
        r is Ok <==> compilable(session.spec_records(), session.spec_closed()),
        r matches Err(e) ==> extraction_result(session.spec_records(), session.spec_closed(), Err(e)),
        r matches Ok(c) ==> compiled_from(c, *session),
{
    let blueprints = match extract_blueprints(session) {
        Ok(b) => b,
        Err(e) => {
            return Err(e);
        },
    };
    let ghost bps = blueprint_views(blueprints@);
    let n = blueprints.len();
    let mut nodes: KeyedMap<WorkflowIrNode> = KeyedMap::new();
    let mut node_evidence: KeyedMap<Vec<TeachingEvidence>> = KeyedMap::new();
    let mut node_origins: KeyedMap<StepOrigin> = KeyedMap::new();
    let mut capability_inferences: Vec<CapabilityInference> = Vec::new();
    let mut binding_proposals: Vec<BindingProposal> = Vec::new();
    let mut index: usize = 0;
    while index < n
        invariant
            n == blueprints@.len(),
            bps == blueprint_views(blueprints@),
            index <= n,
            maps_hold_steps(nodes, node_evidence, node_origins, bps, index as int),
            inferences_hold_steps(capability_inferences@, binding_proposals@, bps, index as int),
        decreases n - index,
    {
        let bp = &blueprints[index];
        let node_id = step_node_id((index + 1) as u64);
        let next = if index + 1 < n {
            Some(step_node_id((index + 2) as u64))
        } else {
            None
        };
        let node = WorkflowIrNode::Step(StepNode {
            capabilities: Vec::new(),
            roles: Vec::new(),
            description: Some(String::from_str(bp.intent())),
            next,
        });
        let ghost j1 = index + 1;
        proof {
            assert(bps[index as int] == blueprints@[index as int].spec_view());
            assert(ids(Seq::<String>::empty()) =~= Seq::<Seq<char>>::empty());
            assert(node.node_view() == step_view(bps, j1));
            if nodes.contains(step_key(j1)) {
                let j = choose|j: int| 1 <= j <= index && step_key(j1) == #[trigger] step_key(j);
                lemma_step_key_injective(j, j1);
            }
        }
        let ghost old_nodes = nodes;
        let ghost old_evidence = node_evidence;
        let ghost old_origins = node_origins;
        nodes.insert(node_id.clone(), node);
        node_evidence.insert(node_id.clone(), clone_evidence(bp.evidence()));
        node_origins.insert(node_id.clone(), bp.origin());
        let verb = verb_of(bp.intent());
        let (inference, proposal) = step_inferences(&node_id, bp.origin(), &verb);
        capability_inferences.push(inference);
        binding_proposals.push(proposal);
        proof {
            assert forall|j: int| 1 <= j <= j1 implies {
                &&& #[trigger] nodes.lookup(step_key(j)) is Some
                &&& nodes.lookup(step_key(j)).unwrap().node_view() == step_view(bps, j)
                &&& node_evidence.lookup(step_key(j)) is Some
                &&& node_evidence.lookup(step_key(j)).unwrap()@ == bps[j - 1].evidence
                &&& node_origins.lookup(step_key(j)) == Some(bps[j - 1].origin)
            } by {
                if j < j1 {
                    if step_key(j) == step_key(j1) {
                        lemma_step_key_injective(j, j1);
                    }
                }
            }
            assert forall|k: Seq<char>| #[trigger] nodes.contains(k) implies exists|j: int| 1 <= j <= j1 && k == step_key(j) by {
                if k != step_key(j1) {
                    assert(old_nodes.contains(k));
                }
            }
            assert forall|k: Seq<char>| #[trigger] node_evidence.contains(k) implies nodes.contains(k) by {
                if k != step_key(j1) {
                    assert(old_evidence.contains(k));
                }
            }
            assert forall|k: Seq<char>| #[trigger] node_origins.contains(k) implies nodes.contains(k) by {
                if k != step_key(j1) {
                    assert(old_origins.contains(k));
                }
            }
            assert(!old_evidence.contains(step_key(j1)));
            assert(!old_origins.contains(step_key(j1)));
        }
        index += 1;
    }
    let trigger_intents = collect_trigger_intents(session.records());
    let mode = session.mode();
    let mut description = String::from_str("taught workflow (");
    push_decimal(&mut description, n as u64);
    description.append(" step(s), mode ");
    description.append(mode.as_str());
    description.append(")");
    let ir = WorkflowIr { entry: step_node_id(1), nodes };
    let inputs = CandidateInputs {
        origin: CandidateOrigin::Taught(mode),
        description: Some(description),
        ir,
        policy: *session.policy(),
        node_evidence,
        node_origins,
        capability_inferences,
        binding_proposals,
        trigger_intents,
    };
    Ok(WorkflowCandidate::new(inputs))
}

} // verus!
