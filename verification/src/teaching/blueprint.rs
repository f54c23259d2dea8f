//! Deterministic extraction of step blueprints from a closed teaching
//! session.
//!
//! Demonstration records: an `Action` opens a step; a preceding
//! `Observation` prefixes its description; a following `Result` or
//! `Recovery` annotates the most recent step. Instruction records each
//! become one step. `Note` records are provenance only. Extraction never
//! reorders or merges records.

use vstd::prelude::*;
use crate::teaching::error::TeachingCompilerError;
use crate::teaching::evidence::{TeachingEvidence, clone_evidence};
use crate::teaching::session::TeachingSession;
use crate::teaching::trajectory::{TrajectoryEvent, TrajectoryRecord};

verus! {

/// Where a compiled step came from.
#[derive(Clone, Copy, Debug, PartialEq, Eq, Structural)]
pub enum StepOrigin {
    /// Derived from a demonstrated action.
    Observed,
    /// Derived from an instruction statement.
    Instructed,
}

/// The stable lowercase name of a step origin.
pub open spec fn step_origin_name(o: StepOrigin) -> Seq<char> {
    match o {
        StepOrigin::Observed => "observed"@,
        StepOrigin::Instructed => "instructed"@,
    }
}

impl StepOrigin {
    /// Stable lowercase name for diagnostics.
    pub fn as_str(self) -> (r: &'static str)
        ensures
            r@ == step_origin_name(self),
    {
        proof {
            reveal_strlit("observed");
            reveal_strlit("instructed");
        }
        match self {
            StepOrigin::Observed => "observed",
            StepOrigin::Instructed => "instructed",
        }
    }
}

/// One ordered step intent extracted from a teaching trajectory.
#[derive(Clone, Debug, PartialEq, Eq)]
pub struct StepBlueprint {
    intent: String,
    origin: StepOrigin,
    evidence: Vec<TeachingEvidence>,
}

/// A blueprint as plain values: intent, origin, evidence.
pub struct BlueprintSpec {
    /// The step's intent text.
    pub intent: Seq<char>,
    /// Where the step came from.
    pub origin: StepOrigin,
    /// Evidence supporting the step.
    pub evidence: Seq<TeachingEvidence>,
}

impl StepBlueprint {
    /// The blueprint as plain values.
    pub closed spec fn spec_view(&self) -> BlueprintSpec {
        BlueprintSpec { intent: self.intent@, origin: self.origin, evidence: self.evidence@ }
    }

    /// The step's human-facing intent.
    pub fn intent(&self) -> (r: &str)
        ensures
            r@ == self.spec_view().intent,
    {
        self.intent.as_str()
    }

    /// Where the step came from.
    pub fn origin(&self) -> (r: StepOrigin)
        ensures
            r == self.spec_view().origin,
    {
        self.origin
    }

    /// Evidence supporting the step.
    pub fn evidence(&self) -> (r: &Vec<TeachingEvidence>)
        ensures
            r@ == self.spec_view().evidence,
    {
        &self.evidence
    }
}

/// The blueprints of a list, as plain values.
pub open spec fn blueprint_views(v: Seq<StepBlueprint>) -> Seq<BlueprintSpec> {
    v.map_values(|b: StepBlueprint| b.spec_view())
}

/// Extraction progress: the blueprints so far and a pending observation.
pub type Extraction = (Seq<BlueprintSpec>, Option<Seq<char>>);

/// The last blueprint with `annotation` appended to its intent after ". ".
pub open spec fn annotate(bps: Seq<BlueprintSpec>, annotation: Seq<char>) -> Option<Seq<BlueprintSpec>> {
    if bps.len() == 0 {
        None
    } else {
        let last = bps.last();
        Some(bps.update(bps.len() - 1, BlueprintSpec { intent: last.intent + ". "@ + annotation, ..last }))
    }
}

/// The effect of one record on the extraction; `None` when a result or
/// recovery record comes before any step.
pub open spec fn extract_record(acc: Extraction, rec: TrajectoryRecord) -> Option<Extraction> {
    match rec.spec_event() {
        TrajectoryEvent::Observation { text } => Some((acc.0, Some(text@))),
        TrajectoryEvent::Action { text } => {
            let intent = match acc.1 {
                Some(obs) => "Observed context: "@ + obs + ". Action: "@ + text@,
                None => text@,
            };
            Some((acc.0.push(BlueprintSpec { intent, origin: StepOrigin::Observed, evidence: rec.spec_evidence() }), None))
        },
        TrajectoryEvent::Result { text } => match annotate(acc.0, "Outcome: "@ + text@) {
            Some(bps) => Some((bps, acc.1)),
            None => None,
        },
        TrajectoryEvent::Recovery { text } => match annotate(acc.0, "Recovery: "@ + text@) {
            Some(bps) => Some((bps, acc.1)),
            None => None,
        },
        TrajectoryEvent::Instruction { text } => Some((
            acc.0.push(BlueprintSpec { intent: text@, origin: StepOrigin::Instructed, evidence: rec.spec_evidence() }),
            None,
        )),
        TrajectoryEvent::Note { .. } => Some(acc),
    }
}

/// The extraction over a list of records, in order.
pub open spec fn extract(records: Seq<TrajectoryRecord>) -> Option<Extraction>
    decreases records.len(),
{
    if records.len() == 0 {
        Some((Seq::empty(), None))
    } else {
        match extract(records.drop_last()) {
            Some(acc) => extract_record(acc, records.last()),
            None => None,
        }
    }
}

/// What blueprint extraction returns for a session with these records.
pub open spec fn extraction_result(
    records: Seq<TrajectoryRecord>,
    closed: bool,
    r: Result<Vec<StepBlueprint>, TeachingCompilerError>,
) -> bool {
    if records.len() == 0 {
        r matches Err(TeachingCompilerError::EmptySession)
    } else if !closed {
        r matches Err(TeachingCompilerError::SessionNotClosed)
    } else {
        match extract(records) {
            None => r matches Err(TeachingCompilerError::InvalidEvent { .. }),
            Some(acc) => if acc.0.len() == 0 {
                r matches Err(TeachingCompilerError::NoCompilableSteps { .. })
            } else {
                r matches Ok(v) && blueprint_views(v@) == acc.0
            },
        }
    }
}

/// Appends `annotation` after ". " to the most recent blueprint.
fn annotate_last(blueprints: &mut Vec<StepBlueprint>, annotation: String) -> (r: Result<(), TeachingCompilerError>)
    ensures
        match annotate(blueprint_views(old(blueprints)@), annotation@) {
            None => r is Err && r->Err_0 is InvalidEvent && final(blueprints)@ == old(blueprints)@,
            Some(bps) => r is Ok && blueprint_views(final(blueprints)@) == bps,
        },
{
    let n = blueprints.len();
    if n == 0 {
        return Err(TeachingCompilerError::InvalidEvent {
            reason: String::from_str("a result or recovery record appeared before any demonstrated action"),
        });
    }
    let ghost before = blueprint_views(blueprints@);
    let last = blueprints.pop().unwrap();
    let mut intent = last.intent;
    intent.append(". ");
    intent.append(annotation.as_str());
    blueprints.push(StepBlueprint { intent, origin: last.origin, evidence: last.evidence });
    proof {
        let lastv = before.last();
        assert(blueprint_views(blueprints@) =~= before.update(before.len() - 1, BlueprintSpec { intent: lastv.intent + ". "@ + annotation@, ..lastv }));
    }
    Ok(())
}

/// Extracts ordered step blueprints from a closed, non-empty session.
pub fn extract_blueprints(session: &TeachingSession) -> (r: Result<Vec<StepBlueprint>, TeachingCompilerError>)
    ensures
        extraction_result(session.spec_records(), session.spec_closed(), r),
{
    if session.is_empty() {
        return Err(TeachingCompilerError::EmptySession);
    }
    if !session.is_closed() {
        return Err(TeachingCompilerError::SessionNotClosed);
    }
    let records = session.records();
    let mut blueprints: Vec<StepBlueprint> = Vec::new();
    let mut pending_observation: Option<String> = None;
    let mut i: usize = 0;
    while i < records.len()
        invariant
            i <= records@.len(),
            records@ == session.spec_records(),
            records@.len() > 0,
            session.spec_closed(),
            extract(records@.take(i as int)) == Some((blueprint_views(blueprints@), match pending_observation {
                Some(o) => Some(o@),
                None => None::<Seq<char>>,
            })),
        decreases records@.len() - i,
    {
        let record = &records[i];
        proof {
            assert(records@.take(i + 1).drop_last() =~= records@.take(i as int));
            assert(records@.take(i + 1).last() == records@[i as int]);
        }
        let ghost before = blueprint_views(blueprints@);
        match record.event() {
            TrajectoryEvent::Observation { text } => {
                pending_observation = Some(text.clone());
            },
            TrajectoryEvent::Action { text } => {
                let intent = match pending_observation {
                    Some(observation) => {
                        let mut s = String::from_str("Observed context: ");
                        s.append(observation.as_str());
                        s.append(". Action: ");
                        s.append(text.as_str());
                        s
                    },
                    None => text.clone(),
                };
                pending_observation = None;
                blueprints.push(StepBlueprint {
                    intent,
                    origin: StepOrigin::Observed,
                    evidence: clone_evidence(record.evidence()),
                });
                assert(blueprint_views(blueprints@) =~= before.push(blueprints@.last().spec_view()));
            },
            TrajectoryEvent::Result { text } => {
                let mut annotation = String::from_str("Outcome: ");
                annotation.append(text.as_str());
                let ghost pend = pending_observation;
                match annotate_last(&mut blueprints, annotation) {
                    Ok(()) => {},
                    Err(e) => {
                        proof {
                            assert(extract(records@.take(i + 1)) is None);
                            lemma_extract_none_stays(records@, i as int + 1);
                        }
                        return Err(e);
                    },
                }
            },
            TrajectoryEvent::Recovery { text } => {
                let mut annotation = String::from_str("Recovery: ");
                annotation.append(text.as_str());
                match annotate_last(&mut blueprints, annotation) {
                    Ok(()) => {},
                    Err(e) => {
                        proof {
                            assert(extract(records@.take(i + 1)) is None);
                            lemma_extract_none_stays(records@, i as int + 1);
                        }
                        return Err(e);
                    },
                }
            },
            TrajectoryEvent::Instruction { text } => {
                pending_observation = None;
                blueprints.push(StepBlueprint {
                    intent: text.clone(),
                    origin: StepOrigin::Instructed,
                    evidence: clone_evidence(record.evidence()),
                });
                assert(blueprint_views(blueprints@) =~= before.push(blueprints@.last().spec_view()));
            },
            TrajectoryEvent::Note { .. } => {},
        }
        i += 1;
    }
    proof {
        assert(records@.take(i as int) =~= records@);
    }
    if blueprints.len() == 0 {
        let mut reason = String::from_str("the ");
        reason.append(session.mode().as_str());
        reason.append(" session contained no demonstration actions or instruction statements");
        return Err(TeachingCompilerError::NoCompilableSteps { reason });
    }
    Ok(blueprints)
}

/// Every observation in `records` is followed, later in `records`, by an
/// action or an instruction record.
pub open spec fn observations_consumed(records: Seq<TrajectoryRecord>) -> bool {
    forall|i: int|
        0 <= i < records.len() && (#[trigger] records[i].spec_event()) is Observation ==> exists|j: int|
            i < j < records.len() && (records[j].spec_event() is Action || records[j].spec_event() is Instruction)
}

/// After an action or instruction record, and before the next observation,
/// no observation is pending.
pub proof fn lemma_no_pending_observation(records: Seq<TrajectoryRecord>)
    requires
        observations_consumed(records),
    ensures
        extract(records) matches Some(acc) ==> acc.1 is None,
    decreases records.len(),
{
    if records.len() > 0 {
        let n = records.len() - 1;
        let prefix = records.drop_last();
        let last = records.last();
        match last.spec_event() {
            TrajectoryEvent::Observation { .. } => {
                assert(records[n].spec_event() is Observation);
            },
            TrajectoryEvent::Action { .. } => {},
            TrajectoryEvent::Instruction { .. } => {},
            _ => {
                assert forall|i: int|
                    0 <= i < prefix.len() && (#[trigger] prefix[i].spec_event()) is Observation implies exists|j: int|
                        i < j < prefix.len() && (prefix[j].spec_event() is Action || prefix[j].spec_event() is Instruction) by {
                    assert(records[i].spec_event() is Observation);
                    let j = choose|j: int|
                        i < j < records.len() && (records[j].spec_event() is Action || records[j].spec_event() is Instruction);
                    assert(j != n);
                    assert(prefix[j] == records[j]);
                }
                lemma_no_pending_observation(prefix);
            },
        }
    }
}

/// An observation prefixes only the action that directly follows it: an
/// action record that comes after every observation has been consumed by a
/// later action or instruction becomes a step whose intent is exactly the
/// action's text, whatever was observed earlier in the session.
pub proof fn lemma_unprefixed_action_keeps_its_text(
    records: Seq<TrajectoryRecord>,
    action: TrajectoryRecord,
    r: Result<Vec<StepBlueprint>, TeachingCompilerError>,
)
    requires
        observations_consumed(records),
        action.spec_event() is Action,
        extraction_result(records.push(action), true, r),
    ensures
        extract(records) is Some ==> r is Ok,
        r matches Ok(v) ==> v@.len() > 0 && v@.last().spec_view().intent == action.spec_event()->Action_text@
            && v@.last().spec_view().origin == StepOrigin::Observed,
{
    let all = records.push(action);
    assert(all.drop_last() =~= records);
    assert(all.last() == action);
    lemma_no_pending_observation(records);
    if extract(records) is None {
        assert(extract(all) is None);
    }
    if let Ok(v) = r {
        let views = blueprint_views(v@);
        assert(views.len() == v@.len());
        assert(views[views.len() - 1] == v@[v@.len() - 1].spec_view());
    }
}

/// The number of action and instruction records.
pub open spec fn step_record_count(records: Seq<TrajectoryRecord>) -> nat
    decreases records.len(),
{
    if records.len() == 0 {
        0
    } else {
        step_record_count(records.drop_last()) + match records.last().spec_event() {
            TrajectoryEvent::Action { .. } => 1nat,
            TrajectoryEvent::Instruction { .. } => 1nat,
            _ => 0nat,
        }
    }
}

/// Extraction never merges or drops steps: each action and each
/// instruction record opens exactly one step, and no other record does.
pub proof fn lemma_one_step_per_action_or_instruction(records: Seq<TrajectoryRecord>)
    ensures
        extract(records) matches Some(acc) ==> acc.0.len() == step_record_count(records),
    decreases records.len(),
{
    if records.len() > 0 {
        lemma_one_step_per_action_or_instruction(records.drop_last());
    }
}

/// An observation prefixes the action that directly follows it: the step
/// reads `Observed context: <observation>. Action: <action>`.
pub proof fn lemma_observation_prefixes_next_action(
    records: Seq<TrajectoryRecord>,
    observation: TrajectoryRecord,
    action: TrajectoryRecord,
    r: Result<Vec<StepBlueprint>, TeachingCompilerError>,
)
    requires
        observation.spec_event() is Observation,
        action.spec_event() is Action,
        extraction_result(records.push(observation).push(action), true, r),
    ensures
        extract(records) is Some ==> r is Ok,
        r matches Ok(v) ==> v@.len() > 0 && v@.last().spec_view().intent == "Observed context: "@
            + observation.spec_event()->Observation_text@ + ". Action: "@ + action.spec_event()->Action_text@
            && v@.last().spec_view().origin == StepOrigin::Observed,
{
    let with_obs = records.push(observation);
    let all = with_obs.push(action);
    assert(all.drop_last() =~= with_obs);
    assert(with_obs.drop_last() =~= records);
    if extract(records) is None {
        assert(extract(with_obs) is None);
        assert(extract(all) is None);
    }
    if let Ok(v) = r {
        let views = blueprint_views(v@);
        assert(views.len() == v@.len());
        assert(views[views.len() - 1] == v@[v@.len() - 1].spec_view());
    }
}

/// A result record annotates the most recent step and only it: the step
/// count and every earlier step are unchanged, the last step's intent gains
/// `. Outcome: <result>`, and a pending observation stays pending. Before
/// any step, a result record fails the extraction.
pub proof fn lemma_result_annotates_last_step(records: Seq<TrajectoryRecord>, result: TrajectoryRecord)
    requires
        result.spec_event() is Result,
        extract(records) is Some,
    ensures
        ({
            let acc = extract(records).unwrap();
            let text = result.spec_event()->Result_text@;
            if acc.0.len() == 0 {
                extract(records.push(result)) is None
            } else {
                extract(records.push(result)) matches Some(next) && {
                    &&& next.0.len() == acc.0.len()
                    &&& next.1 == acc.1
                    &&& forall|i: int| 0 <= i < acc.0.len() - 1 ==> #[trigger] next.0[i] == acc.0[i]
                    &&& next.0.last().intent == acc.0.last().intent + ". Outcome: "@ + text
                    &&& next.0.last().origin == acc.0.last().origin
                    &&& next.0.last().evidence == acc.0.last().evidence
                }
            }
        }),
{
    let all = records.push(result);
    assert(all.drop_last() =~= records);
    let acc = extract(records).unwrap();
    if acc.0.len() > 0 {
        let text = result.spec_event()->Result_text@;
        let last = acc.0.last().intent;
        reveal_strlit(". ");
        reveal_strlit("Outcome: ");
        reveal_strlit(". Outcome: ");
        assert(last + ". "@ + ("Outcome: "@ + text) =~= last + ". Outcome: "@ + text);
    }
}

/// Once extraction fails on a prefix, it fails on every longer prefix.
proof fn lemma_extract_none_stays(records: Seq<TrajectoryRecord>, k: int)
    requires
        0 <= k <= records.len(),
        extract(records.take(k)) is None,
    ensures
        extract(records) is None,
    decreases records.len() - k,
{
    if k < records.len() {
        assert(records.take(k + 1).drop_last() =~= records.take(k));
        lemma_extract_none_stays(records, k + 1);
    } else {
        assert(records.take(k) =~= records);
    }
}

} // verus!
