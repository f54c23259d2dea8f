//! The teaching session: a bounded, append-only trajectory recorder.

use vstd::prelude::*;
use crate::teaching::error::TeachingCompilerError;
use crate::teaching::evidence::TeachingEvidence;
use crate::teaching::mode::{TeachingMode, mode_name};
use crate::teaching::trajectory::{RecordOrigin, TrajectoryEvent, TrajectoryRecord, event_kind_label, event_valid, origin_name, MAX_EVIDENCE_PER_RECORD};

verus! {

/// Default maximum number of records a session accepts.
pub const DEFAULT_MAX_RECORDS: usize = 256;

/// Policy governing a teaching session and the candidate it produces.
#[derive(Clone, Copy, Debug, PartialEq, Eq, Structural)]
pub struct SessionPolicy {
    /// Whether provably equivalence-preserving optimization proposals may
    /// be applied to the candidate.
    pub allow_optimization: bool,
    /// Maximum number of trajectory records the session accepts.
    pub max_records: usize,
}

impl SessionPolicy {
    /// The default policy: no optimization, [`DEFAULT_MAX_RECORDS`] records.
    pub fn default_policy() -> (p: Self)
        ensures
            !p.allow_optimization,
            p.max_records == DEFAULT_MAX_RECORDS,
    {
        SessionPolicy { allow_optimization: false, max_records: DEFAULT_MAX_RECORDS }
    }
}

impl Default for SessionPolicy {
    /// The default policy: no optimization, [`DEFAULT_MAX_RECORDS`] records.
    fn default() -> (p: Self)
        ensures
            !p.allow_optimization,
            p.max_records == DEFAULT_MAX_RECORDS,
    {
        SessionPolicy::default_policy()
    }
}

/// A bounded teaching session in one of the three teaching modes.
#[derive(Clone, Debug, PartialEq, Eq)]
pub struct TeachingSession {
    mode: TeachingMode,
    policy: SessionPolicy,
    records: Vec<TrajectoryRecord>,
    next_sequence: u64,
    closed: bool,
}

/// Whether a mode accepts records of an origin.
pub open spec fn origin_allowed(mode: TeachingMode, origin: RecordOrigin) -> bool {
    match origin {
        RecordOrigin::Demonstration => mode.spec_accepts_demonstration(),
        RecordOrigin::Instruction => mode.spec_accepts_instruction(),
    }
}

/// Instruction records carry instruction events, and only they do.
pub open spec fn origin_matches_event(origin: RecordOrigin, event: TrajectoryEvent) -> bool {
    (origin is Instruction) == (event is Instruction)
}

impl TeachingSession {
    /// The session's teaching mode.
    pub closed spec fn spec_mode(&self) -> TeachingMode {
        self.mode
    }

    /// The session's policy.
    pub closed spec fn spec_policy(&self) -> SessionPolicy {
        self.policy
    }

    /// The recorded trajectory.
    pub closed spec fn spec_records(&self) -> Seq<TrajectoryRecord> {
        self.records@
    }

    /// Whether the session is closed.
    pub closed spec fn spec_closed(&self) -> bool {
        self.closed
    }

    /// Records are numbered densely from zero and bounded by the policy.
    pub closed spec fn wf(&self) -> bool {
        &&& self.next_sequence == self.records@.len()
        &&& self.records@.len() <= self.policy.max_records
        &&& forall|i: int| 0 <= i < self.records@.len() ==> #[trigger] self.records@[i].spec_sequence() == i
    }

    /// Opens a session with the default policy.
    pub fn new(mode: TeachingMode) -> (s: Self)
        ensures
            s.wf(),
            s.spec_mode() == mode,
            s.spec_policy() == SessionPolicy::default_policy_spec(),
            s.spec_records().len() == 0,
            !s.spec_closed(),
    {
        Self::with_policy(mode, SessionPolicy::default_policy())
    }

    /// Opens a session with an explicit policy.
    pub fn with_policy(mode: TeachingMode, policy: SessionPolicy) -> (s: Self)
        ensures
            s.wf(),
            s.spec_mode() == mode,
            s.spec_policy() == policy,
            s.spec_records().len() == 0,
            !s.spec_closed(),
    {
        TeachingSession { mode, policy, records: Vec::new(), next_sequence: 0, closed: false }
    }

    /// The session's teaching mode.
    pub fn mode(&self) -> (r: TeachingMode)
        ensures
            r == self.spec_mode(),
    {
        self.mode
    }

    /// The session's policy.
    pub fn policy(&self) -> (r: &SessionPolicy)
        ensures
            *r == self.spec_policy(),
    {
        &self.policy
    }

    /// The recorded trajectory.
    pub fn records(&self) -> (r: &Vec<TrajectoryRecord>)
        ensures
            r@ == self.spec_records(),
    {
        &self.records
    }

    /// Number of recorded records.
    pub fn len(&self) -> (r: usize)
        ensures
            r == self.spec_records().len(),
    {
        self.records.len()
    }

    /// Whether no records have been recorded.
    pub fn is_empty(&self) -> (r: bool)
        ensures
            r == (self.spec_records().len() == 0),
    {
        self.records.len() == 0
    }

    /// Whether the session is closed for recording.
    pub fn is_closed(&self) -> (r: bool)
        ensures
            r == self.spec_closed(),
    {
        self.closed
    }

    /// Records one event with attached evidence and returns its sequence
    /// number.
    ///
    /// Recording fails, in this order of checks, if the session is closed,
    /// the mode does not accept the origin, the origin and the event kind
    /// disagree, the trajectory bound is reached, or the event text or the
    /// evidence count is out of bounds. On success the record is appended
    /// with the next sequence number; on failure nothing changes.
    pub fn record(&mut self, origin: RecordOrigin, event: TrajectoryEvent, evidence: Vec<TeachingEvidence>) -> (r: Result<u64, TeachingCompilerError>)
        requires
            old(self).wf(),
        ensures
            final(self).wf(),
            final(self).spec_mode() == old(self).spec_mode(),
            final(self).spec_policy() == old(self).spec_policy(),
            final(self).spec_closed() == old(self).spec_closed(),
            old(self).spec_closed() ==> (r matches Err(TeachingCompilerError::InvalidState { current, required })
                && current@ == "closed"@ && required@ == "open"@),
            !old(self).spec_closed() && !origin_allowed(old(self).spec_mode(), origin)
                ==> (r matches Err(TeachingCompilerError::ModeOriginMismatch { mode, origin: o })
                && mode@ == mode_name(old(self).spec_mode()) && o@ == origin_name(origin)),
            !old(self).spec_closed() && origin_allowed(old(self).spec_mode(), origin) && !origin_matches_event(origin, event)
                ==> (r matches Err(TeachingCompilerError::InvalidEvent { reason })
                && reason@ == "a "@ + origin_name(origin) + " record cannot carry a "@ + event_kind_label(event) + " event"@),
            !old(self).spec_closed() && origin_allowed(old(self).spec_mode(), origin) && origin_matches_event(origin, event)
                && old(self).spec_records().len() >= old(self).spec_policy().max_records
                ==> (r matches Err(TeachingCompilerError::TrajectoryBoundExceeded { limit }) && limit == old(self).spec_policy().max_records),
            !old(self).spec_closed() && origin_allowed(old(self).spec_mode(), origin) && origin_matches_event(origin, event)
                && old(self).spec_records().len() < old(self).spec_policy().max_records
                && !(event_valid(event) && evidence@.len() <= MAX_EVIDENCE_PER_RECORD)
                ==> r matches Err(TeachingCompilerError::InvalidEvent { .. }),
            r is Ok <==> (!old(self).spec_closed() && origin_allowed(old(self).spec_mode(), origin)
                && origin_matches_event(origin, event) && old(self).spec_records().len() < old(self).spec_policy().max_records
                && event_valid(event) && evidence@.len() <= MAX_EVIDENCE_PER_RECORD),
            r matches Ok(seq) ==> seq == old(self).spec_records().len()
                && final(self).spec_records().len() == old(self).spec_records().len() + 1
                && final(self).spec_records().drop_last() == old(self).spec_records()
                && final(self).spec_records().last().spec_sequence() == seq
                && final(self).spec_records().last().spec_origin() == origin
                && final(self).spec_records().last().spec_event() == event
                && final(self).spec_records().last().spec_evidence() == evidence@,
            r is Err ==> final(self).spec_records() == old(self).spec_records(),
    {
        if self.closed {
            return Err(TeachingCompilerError::InvalidState {
                current: String::from_str("closed"),
                required: String::from_str("open"),
            });
        }
        let origin_allowed = match origin {
            RecordOrigin::Demonstration => self.mode.accepts_demonstration(),
            RecordOrigin::Instruction => self.mode.accepts_instruction(),
        };
        if !origin_allowed {
            return Err(TeachingCompilerError::ModeOriginMismatch {
                mode: String::from_str(self.mode.as_str()),
                origin: String::from_str(origin.as_str()),
            });
        }
        let origin_is_instruction = match origin {
            RecordOrigin::Instruction => true,
            RecordOrigin::Demonstration => false,
        };
        let event_is_instruction = match &event {
            TrajectoryEvent::Instruction { .. } => true,
            _ => false,
        };
        if origin_is_instruction != event_is_instruction {
            let mut reason = String::from_str("a ");
            reason.append(origin.as_str());
            reason.append(" record cannot carry a ");
            reason.append(event.kind_label());
            reason.append(" event");
            return Err(TeachingCompilerError::InvalidEvent { reason });
        }
        if self.records.len() >= self.policy.max_records {
            return Err(TeachingCompilerError::TrajectoryBoundExceeded { limit: self.policy.max_records });
        }
        let sequence = self.next_sequence;
        let record = TrajectoryRecord::new(sequence, origin, event, evidence)?;
        let ghost old_records = self.records@;
        self.records.push(record);
        self.next_sequence = self.next_sequence + 1;
        proof {
            assert(self.records@.drop_last() =~= old_records);
            assert forall|i: int| 0 <= i < self.records@.len() implies #[trigger] self.records@[i].spec_sequence() == i by {
                if i < old_records.len() {
                    assert(self.records@[i] == old_records[i]);
                }
            }
        }
        Ok(sequence)
    }

    /// Closes the session; a closed session can be compiled and can no
    /// longer record events. Closing is idempotent.
    pub fn close(&mut self)
        requires
            old(self).wf(),
        ensures
            final(self).wf(),
            final(self).spec_closed(),
            final(self).spec_mode() == old(self).spec_mode(),
            final(self).spec_policy() == old(self).spec_policy(),
            final(self).spec_records() == old(self).spec_records(),
    {
        self.closed = true;
    }
}

impl SessionPolicy {
    /// The default policy as a value.
    pub open spec fn default_policy_spec() -> SessionPolicy {
        SessionPolicy { allow_optimization: false, max_records: DEFAULT_MAX_RECORDS }
    }
}

/// Every record of a session is numbered by its position.
pub proof fn lemma_sequences_are_dense(s: TeachingSession)
    requires
        s.wf(),
    ensures
        forall|i: int| 0 <= i < s.spec_records().len() ==> #[trigger] s.spec_records()[i].spec_sequence() == i,
        s.spec_records().len() <= s.spec_policy().max_records,
{
}

} // verus!
