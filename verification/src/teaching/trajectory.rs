//! Bounded teaching trajectory events.
//!
//! A trajectory is an append-only, size-bounded sequence of structured
//! records. Records are provenance and evidence, never semantic authority.

use vstd::prelude::*;
use crate::text::{byte_len, str_byte_len};
use crate::teaching::error::TeachingCompilerError;
use crate::teaching::evidence::TeachingEvidence;

verus! {

/// Maximum byte length of a record's text payload.
pub const MAX_TEXT_BYTES: usize = 4096;
/// Maximum number of evidence references attached to one record.
pub const MAX_EVIDENCE_PER_RECORD: usize = 8;

/// The origin plane of a trajectory record.
#[derive(Clone, Copy, Debug, PartialEq, Eq, Structural)]
pub enum RecordOrigin {
    /// Recorded from a demonstration.
    Demonstration,
    /// Recorded from an instruction statement.
    Instruction,
}

/// The stable lowercase name of an origin.
pub open spec fn origin_name(o: RecordOrigin) -> Seq<char> {
    match o {
        RecordOrigin::Demonstration => "demonstration"@,
        RecordOrigin::Instruction => "instruction"@,
    }
}

impl RecordOrigin {
    /// Stable lowercase name for diagnostics.
    pub fn as_str(self) -> (r: &'static str)
        ensures
            r@ == origin_name(self),
    {
        proof {
            reveal_strlit("demonstration");
            reveal_strlit("instruction");
        }
        match self {
            RecordOrigin::Demonstration => "demonstration",
            RecordOrigin::Instruction => "instruction",
        }
    }
}

/// One structured, bounded teaching event.
#[derive(Clone, Debug, PartialEq, Eq)]
pub enum TrajectoryEvent {
    /// Observed environment state during a demonstration.
    Observation {
        /// Text describing the observation.
        text: String,
    },
    /// A concrete action performed during a demonstration.
    Action {
        /// Text describing the action.
        text: String,
    },
    /// The observed outcome of a demonstration action.
    Result {
        /// Text describing the outcome.
        text: String,
    },
    /// A recovery from failure observed during a demonstration.
    Recovery {
        /// Text describing the recovery.
        text: String,
    },
    /// A structured instruction statement.
    Instruction {
        /// The instruction text.
        text: String,
    },
    /// A clarifying note; provenance only.
    Note {
        /// The note text.
        text: String,
    },
}

/// The text payload of an event.
pub open spec fn event_text(e: TrajectoryEvent) -> Seq<char> {
    match e {
        TrajectoryEvent::Observation { text } => text@,
        TrajectoryEvent::Action { text } => text@,
        TrajectoryEvent::Result { text } => text@,
        TrajectoryEvent::Recovery { text } => text@,
        TrajectoryEvent::Instruction { text } => text@,
        TrajectoryEvent::Note { text } => text@,
    }
}

/// The stable lowercase kind label of an event.
pub open spec fn event_kind_label(e: TrajectoryEvent) -> Seq<char> {
    match e {
        TrajectoryEvent::Observation { .. } => "observation"@,
        TrajectoryEvent::Action { .. } => "action"@,
        TrajectoryEvent::Result { .. } => "result"@,
        TrajectoryEvent::Recovery { .. } => "recovery"@,
        TrajectoryEvent::Instruction { .. } => "instruction"@,
        TrajectoryEvent::Note { .. } => "note"@,
    }
}

/// An event's text is non-empty and at most [`MAX_TEXT_BYTES`] bytes.
pub open spec fn event_valid(e: TrajectoryEvent) -> bool {
    event_text(e).len() > 0 && byte_len(event_text(e)) <= MAX_TEXT_BYTES
}

impl TrajectoryEvent {
    /// The record's bounded text payload.
    pub fn text(&self) -> (r: &str)
        ensures
            r@ == event_text(*self),
    {
        match self {
            TrajectoryEvent::Observation { text } => text.as_str(),
            TrajectoryEvent::Action { text } => text.as_str(),
            TrajectoryEvent::Result { text } => text.as_str(),
            TrajectoryEvent::Recovery { text } => text.as_str(),
            TrajectoryEvent::Instruction { text } => text.as_str(),
            TrajectoryEvent::Note { text } => text.as_str(),
        }
    }

    /// A stable lowercase kind label for diagnostics.
    pub fn kind_label(&self) -> (r: &'static str)
        ensures
            r@ == event_kind_label(*self),
    {
        proof {
            reveal_strlit("observation");
            reveal_strlit("action");
            reveal_strlit("result");
            reveal_strlit("recovery");
            reveal_strlit("instruction");
            reveal_strlit("note");
        }
        match self {
            TrajectoryEvent::Observation { .. } => "observation",
            TrajectoryEvent::Action { .. } => "action",
            TrajectoryEvent::Result { .. } => "result",
            TrajectoryEvent::Recovery { .. } => "recovery",
            TrajectoryEvent::Instruction { .. } => "instruction",
            TrajectoryEvent::Note { .. } => "note",
        }
    }

    /// Checks the text bounds: non-empty and at most 4096 bytes.
    pub fn validate(&self) -> (r: Result<(), TeachingCompilerError>)
        ensures
            r is Ok <==> event_valid(*self),
            r matches Err(e) ==> e is InvalidEvent,
    {
        let text = self.text();
        let len = str_byte_len(text);
        if text.is_empty() {
            let mut reason = String::from_str(self.kind_label());
            reason.append(" record text must be non-empty");
            return Err(TeachingCompilerError::InvalidEvent { reason });
        }
        if len > MAX_TEXT_BYTES {
            let mut reason = String::from_str(self.kind_label());
            reason.append(" record text exceeds 4096 bytes");
            return Err(TeachingCompilerError::InvalidEvent { reason });
        }
        Ok(())
    }

    /// A copy of this event.
    pub fn duplicate(&self) -> (r: Self)
        ensures
            r == *self,
    {
        match self {
            TrajectoryEvent::Observation { text } => TrajectoryEvent::Observation { text: text.clone() },
            TrajectoryEvent::Action { text } => TrajectoryEvent::Action { text: text.clone() },
            TrajectoryEvent::Result { text } => TrajectoryEvent::Result { text: text.clone() },
            TrajectoryEvent::Recovery { text } => TrajectoryEvent::Recovery { text: text.clone() },
            TrajectoryEvent::Instruction { text } => TrajectoryEvent::Instruction { text: text.clone() },
            TrajectoryEvent::Note { text } => TrajectoryEvent::Note { text: text.clone() },
        }
    }
}

/// One append-only trajectory entry: a validated event with origin,
/// sequence number, and attached evidence references.
#[derive(Clone, Debug, PartialEq, Eq)]
pub struct TrajectoryRecord {
    sequence: u64,
    origin: RecordOrigin,
    event: TrajectoryEvent,
    evidence: Vec<TeachingEvidence>,
}

impl TrajectoryRecord {
    /// The record's position in the trajectory.
    pub closed spec fn spec_sequence(&self) -> u64 {
        self.sequence
    }

    /// The record's origin plane.
    pub closed spec fn spec_origin(&self) -> RecordOrigin {
        self.origin
    }

    /// The record's event.
    pub closed spec fn spec_event(&self) -> TrajectoryEvent {
        self.event
    }

    /// The record's evidence references.
    pub closed spec fn spec_evidence(&self) -> Seq<TeachingEvidence> {
        self.evidence@
    }

    /// Builds a record: the event must satisfy its text bounds and at most
    /// [`MAX_EVIDENCE_PER_RECORD`] evidence references may be attached.
    pub fn new(sequence: u64, origin: RecordOrigin, event: TrajectoryEvent, evidence: Vec<TeachingEvidence>) -> (r: Result<Self, TeachingCompilerError>)
        ensures
            r is Ok <==> event_valid(event) && evidence@.len() <= MAX_EVIDENCE_PER_RECORD,
            r matches Ok(rec) ==> rec.spec_sequence() == sequence && rec.spec_origin() == origin && rec.spec_event() == event
                && rec.spec_evidence() == evidence@,
            r matches Err(e) ==> e is InvalidEvent,
    {
        event.validate()?;
        if evidence.len() > MAX_EVIDENCE_PER_RECORD {
            return Err(TeachingCompilerError::InvalidEvent {
                reason: String::from_str("a record carries at most 8 evidence references"),
            });
        }
        Ok(TrajectoryRecord { sequence, origin, event, evidence })
    }

    /// The record's position in the trajectory, starting at zero.
    pub fn sequence(&self) -> (r: u64)
        ensures
            r == self.spec_sequence(),
    {
        self.sequence
    }

    /// The record's origin plane.
    pub fn origin(&self) -> (r: RecordOrigin)
        ensures
            r == self.spec_origin(),
    {
        self.origin
    }

    /// The record's event.
    pub fn event(&self) -> (r: &TrajectoryEvent)
        ensures
            *r == self.spec_event(),
    {
        &self.event
    }

    /// Evidence references attached to the record.
    pub fn evidence(&self) -> (r: &Vec<TeachingEvidence>)
        ensures
            r@ == self.spec_evidence(),
    {
        &self.evidence
    }
}

} // verus!
