//! The workflow candidate: the compiler's validated, approval-gated
//! precursor to an immutable workflow version.
//!
//! Legal transitions, all enforced here:
//! `Compiled -> Validated -> Approved -> PublicationReady`. Any content or
//! policy change clears the approval and the simulation and returns the
//! candidate to `Compiled` with a new content epoch.

use vstd::prelude::*;
use crate::ir::{WorkflowIr, WorkflowIrNode, clone_opt};
use crate::keyed_map::KeyedMap;
use crate::teaching::approval::{ApprovalDecision, ApprovalDecisionKind, ApprovalRecord};
use crate::teaching::blueprint::StepOrigin;
use crate::teaching::error::TeachingCompilerError;
use crate::teaching::evidence::TeachingEvidence;
use crate::teaching::mode::TeachingMode;
use crate::teaching::proposal::{BindingProposal, CapabilityInference, TriggerIntent};
use crate::teaching::session::SessionPolicy;
use crate::teaching::simulation::{SimulationConfig, SimulationReport, simulate_with_epoch, simulation_result};
use crate::teaching::validation::{
    ValidationSummary, candidate_findings, findings_view, ir_findings, count_severity, Severity, validate_candidate_parts,
    lemma_clean_iff_every_node_reachable,
};
use crate::graph::reachable;

verus! {

/// Where a candidate's graph came from.
#[derive(Clone, Copy, Debug, PartialEq, Eq, Structural)]
pub enum CandidateOrigin {
    /// Compiled from a teaching session in the carried mode.
    Taught(TeachingMode),
    /// Supplied directly as a graph by the control plane.
    AuthoredIr,
}

/// Lifecycle state of a candidate.
#[derive(Clone, Copy, Debug, PartialEq, Eq, Structural)]
pub enum CandidateStatus {
    /// Built but not yet validated.
    Compiled,
    /// Validation passed with no error findings.
    Validated,
    /// An approval decision has been recorded for the current epoch.
    Approved,
    /// Finalized into an approved, publication-ready definition.
    PublicationReady,
}

/// The stable lowercase name of a status.
pub open spec fn status_name(s: CandidateStatus) -> Seq<char> {
    match s {
        CandidateStatus::Compiled => "compiled"@,
        CandidateStatus::Validated => "validated"@,
        CandidateStatus::Approved => "approved"@,
        CandidateStatus::PublicationReady => "publication-ready"@,
    }
}

impl CandidateStatus {
    /// Stable lowercase name for diagnostics.
    pub fn as_str(self) -> (r: &'static str)
        ensures
            r@ == status_name(self),
    {
        proof {
            reveal_strlit("compiled");
            reveal_strlit("validated");
            reveal_strlit("approved");
            reveal_strlit("publication-ready");
        }
        match self {
            CandidateStatus::Compiled => "compiled",
            CandidateStatus::Validated => "validated",
            CandidateStatus::Approved => "approved",
            CandidateStatus::PublicationReady => "publication-ready",
        }
    }
}

/// Inputs assembled by the compiler for a new candidate.
#[derive(Clone, Debug)]
pub struct CandidateInputs {
    /// Where the graph came from.
    pub origin: CandidateOrigin,
    /// Human-facing description carried into the definition.
    pub description: Option<String>,
    /// The compiled graph.
    pub ir: WorkflowIr,
    /// The policy carried from the session.
    pub policy: SessionPolicy,
    /// Evidence per step node.
    pub node_evidence: KeyedMap<Vec<TeachingEvidence>>,
    /// Extraction origin per step node.
    pub node_origins: KeyedMap<StepOrigin>,
    /// Capability hints produced by inference.
    pub capability_inferences: Vec<CapabilityInference>,
    /// Binding proposals produced by inference.
    pub binding_proposals: Vec<BindingProposal>,
    /// Trigger intents produced by inference.
    pub trigger_intents: Vec<TriggerIntent>,
}

/// A workflow definition assembled from a candidate: an opaque definition
/// id, the description, and the graph. Teaching never invents triggers,
/// roles or dependencies.
#[derive(Clone, Debug, PartialEq, Eq)]
pub struct WorkflowDefinition {
    /// The control-plane-supplied definition id.
    pub id: String,
    /// Human-facing description.
    pub description: Option<String>,
    /// The workflow graph.
    pub ir: WorkflowIr,
}

/// The approved output of the compiler: the frozen definition, the
/// approval, the simulation evidence, and the origin.
///
/// It carries no content digest, and finalization does not check that the
/// definition serializes byte-stably: the canonical serialized form of a
/// workflow definition and its digest belong to the workflow contracts
/// crate, which this library does not depend on, so neither can be
/// computed or stated here. Pinning the definition to a digest is left to
/// the host that publishes it.
#[derive(Clone, Debug)]
pub struct ApprovedWorkflow {
    /// The approved workflow definition.
    pub definition: WorkflowDefinition,
    /// The approval record covering this exact content epoch.
    pub approval: ApprovalRecord,
    /// The simulation evidence gathered before approval.
    pub simulation: SimulationReport,
    /// Where the candidate's graph came from.
    pub origin: CandidateOrigin,
}

/// A compiled, not-yet-published workflow candidate.
#[derive(Clone, Debug)]
pub struct WorkflowCandidate {
    origin: CandidateOrigin,
    description: Option<String>,
    ir: WorkflowIr,
    policy: SessionPolicy,
    status: CandidateStatus,
    epoch: u64,
    node_evidence: KeyedMap<Vec<TeachingEvidence>>,
    node_origins: KeyedMap<StepOrigin>,
    capability_inferences: Vec<CapabilityInference>,
    binding_proposals: Vec<BindingProposal>,
    trigger_intents: Vec<TriggerIntent>,
    last_validation: Option<ValidationSummary>,
    last_simulation: Option<SimulationReport>,
    approval: Option<ApprovalRecord>,
}

/// Two graphs hold the same entry and the same nodes under the same ids.
pub open spec fn ir_equiv(a: WorkflowIr, b: WorkflowIr) -> bool {
    &&& a.entry@ == b.entry@
    &&& a.nodes.len() == b.nodes.len()
    &&& forall|i: int| 0 <= i < a.nodes.len() ==> #[trigger] a.nodes.key(i) == b.nodes.key(i)
        && a.nodes.value(i).node_view() == b.nodes.value(i).node_view()
}

/// Two reports agree on everything they state.
pub open spec fn same_report(a: SimulationReport, b: SimulationReport) -> bool {
    &&& a.spec_outcome() == b.spec_outcome()
    &&& a.spec_path() == b.spec_path()
    &&& a.spec_steps_taken() == b.spec_steps_taken()
    &&& a.spec_branch_policy() == b.spec_branch_policy()
    &&& a.spec_epoch() == b.spec_epoch()
}

/// The next content epoch (saturating).
pub open spec fn next_epoch(e: u64) -> u64 {
    if e == u64::MAX { e } else { (e + 1) as u64 }
}

impl WorkflowCandidate {
    /// Where the graph came from.
    pub closed spec fn spec_origin(&self) -> CandidateOrigin { self.origin }
    /// The description.
    pub closed spec fn spec_description(&self) -> Option<String> { self.description }
    /// The graph.
    pub closed spec fn spec_ir(&self) -> WorkflowIr { self.ir }
    /// The policy.
    pub closed spec fn spec_policy(&self) -> SessionPolicy { self.policy }
    /// The lifecycle state.
    pub closed spec fn spec_status(&self) -> CandidateStatus { self.status }
    /// The content epoch.
    pub closed spec fn spec_epoch(&self) -> u64 { self.epoch }
    /// Evidence per step node.
    pub closed spec fn spec_node_evidence(&self) -> KeyedMap<Vec<TeachingEvidence>> { self.node_evidence }
    /// Extraction origin per step node.
    pub closed spec fn spec_node_origins(&self) -> KeyedMap<StepOrigin> { self.node_origins }
    /// Capability hints.
    pub closed spec fn spec_capability_inferences(&self) -> Seq<CapabilityInference> { self.capability_inferences@ }
    /// Binding proposals.
    pub closed spec fn spec_binding_proposals(&self) -> Seq<BindingProposal> { self.binding_proposals@ }
    /// Trigger intents.
    pub closed spec fn spec_trigger_intents(&self) -> Seq<TriggerIntent> { self.trigger_intents@ }
    /// The last validation summary.
    pub closed spec fn spec_last_validation(&self) -> Option<ValidationSummary> { self.last_validation }
    /// The last simulation report.
    pub closed spec fn spec_last_simulation(&self) -> Option<SimulationReport> { self.last_simulation }
    /// The recorded approval.
    pub closed spec fn spec_approval(&self) -> Option<ApprovalRecord> { self.approval }

    /// The maps are ordered, an approval exists only in the `Approved`
    /// and `PublicationReady` states and always covers the current epoch,
    /// and a publication-ready candidate holds a simulation of its current
    /// epoch that completed or paused.
    pub open spec fn wf(&self) -> bool {
        &&& self.spec_ir().nodes.wf()
        &&& self.spec_node_evidence().wf()
        &&& self.spec_node_origins().wf()
        &&& (self.spec_approval() is Some <==> (self.spec_status() is Approved || self.spec_status() is PublicationReady))
        &&& self.spec_approval() matches Some(a) ==> a.epoch == self.spec_epoch() && a.kind is Approved
        &&& self.spec_status() is PublicationReady ==> (self.spec_last_simulation() matches Some(s)
            && s.spec_epoch() == self.spec_epoch()
            && (s.spec_outcome() is Completed || s.spec_outcome() is Paused))
    }

    /// Every part of the candidate other than status, validation,
    /// simulation and approval is the same in both.
    pub open spec fn same_content(&self, other: &Self) -> bool {
        &&& self.spec_origin() == other.spec_origin()
        &&& self.spec_description() == other.spec_description()
        &&& self.spec_ir() == other.spec_ir()
        &&& self.spec_policy() == other.spec_policy()
        &&& self.spec_epoch() == other.spec_epoch()
        &&& self.spec_node_evidence() == other.spec_node_evidence()
        &&& self.spec_node_origins() == other.spec_node_origins()
        &&& self.spec_capability_inferences() == other.spec_capability_inferences()
        &&& self.spec_binding_proposals() == other.spec_binding_proposals()
        &&& self.spec_trigger_intents() == other.spec_trigger_intents()
    }

    /// `self` is `old` after a content or policy change: the epoch
    /// advances, the candidate is back to `Compiled`, the approval and the
    /// simulation are gone, and per-node bookkeeping is kept only for nodes
    /// still in the graph.
    pub open spec fn content_changed_from(&self, prev: &Self) -> bool {
        &&& self.spec_epoch() == next_epoch(prev.spec_epoch())
        &&& self.spec_status() is Compiled
        &&& self.spec_approval() is None
        &&& self.spec_last_simulation() is None
        &&& self.spec_last_validation() == prev.spec_last_validation()
        &&& self.spec_origin() == prev.spec_origin()
        &&& self.spec_description() == prev.spec_description()
        &&& forall|k: Seq<char>| #[trigger] self.spec_node_evidence().lookup(k)
            == if self.spec_ir().nodes.contains(k) { prev.spec_node_evidence().lookup(k) } else { None }
        &&& forall|k: Seq<char>| #[trigger] self.spec_node_origins().lookup(k)
            == if self.spec_ir().nodes.contains(k) { prev.spec_node_origins().lookup(k) } else { None }
        &&& self.spec_capability_inferences() == prev.spec_capability_inferences()
        &&& self.spec_binding_proposals() == prev.spec_binding_proposals()
        &&& self.spec_trigger_intents() == prev.spec_trigger_intents()
    }

    /// Finalization succeeds exactly when the candidate is approved for
    /// its current epoch and holds a simulation of that epoch whose outcome
    /// allows publication.
    pub open spec fn finalize_ready(&self) -> bool {
        &&& self.spec_status() is Approved
        &&& self.spec_approval() matches Some(a) && a.epoch == self.spec_epoch()
        &&& self.spec_last_simulation() matches Some(s) && s.spec_epoch() == self.spec_epoch() && s.spec_allows_publication()
    }

    /// The findings validation reports for this candidate.
    pub open spec fn expected_findings(&self) -> Seq<crate::teaching::validation::FindingSpec> {
        ir_findings(self.spec_ir()) + candidate_findings(
            self.spec_ir().nodes,
            self.spec_binding_proposals(),
            self.spec_node_origins(),
            self.spec_node_evidence(),
            self.spec_ir().nodes.len() as int,
        )
    }

    /// Builds a fresh `Compiled` candidate at epoch zero from compiler
    /// inputs.
    pub fn new(inputs: CandidateInputs) -> (c: Self)
        requires
            inputs.ir.nodes.wf(),
            inputs.node_evidence.wf(),
            inputs.node_origins.wf(),
        ensures
            c.wf(),
            c.spec_status() is Compiled,
            c.spec_epoch() == 0,
            c.spec_origin() == inputs.origin,
            c.spec_description() == inputs.description,
            c.spec_ir() == inputs.ir,
            c.spec_policy() == inputs.policy,
            c.spec_node_evidence() == inputs.node_evidence,
            c.spec_node_origins() == inputs.node_origins,
            c.spec_capability_inferences() == inputs.capability_inferences@,
            c.spec_binding_proposals() == inputs.binding_proposals@,
            c.spec_trigger_intents() == inputs.trigger_intents@,
            c.spec_last_validation() is None,
            c.spec_last_simulation() is None,
            c.spec_approval() is None,
    {
        WorkflowCandidate {
            origin: inputs.origin,
            description: inputs.description,
            ir: inputs.ir,
            policy: inputs.policy,
            status: CandidateStatus::Compiled,
            epoch: 0,
            node_evidence: inputs.node_evidence,
            node_origins: inputs.node_origins,
            capability_inferences: inputs.capability_inferences,
            binding_proposals: inputs.binding_proposals,
            trigger_intents: inputs.trigger_intents,
            last_validation: None,
            last_simulation: None,
            approval: None,
        }
    }

    /// Wraps a control-plane-authored graph as a candidate: `Compiled`, epoch
    /// zero, the default policy, and no per-node bookkeeping.
    pub fn from_ir(ir: WorkflowIr, description: Option<String>) -> (r: Result<Self, TeachingCompilerError>)
        requires
            ir.nodes.wf(),
        ensures
            r matches Ok(c) && c.wf() && c.spec_status() is Compiled && c.spec_epoch() == 0
                && c.spec_origin() is AuthoredIr && c.spec_ir() == ir && c.spec_description() == description
                && c.spec_policy() == SessionPolicy::default_policy_spec()
                && c.spec_node_evidence().len() == 0 && c.spec_node_origins().len() == 0
                && c.spec_binding_proposals().len() == 0 && c.spec_approval() is None
                && c.spec_last_simulation() is None && c.spec_last_validation() is None,
    {
        Ok(WorkflowCandidate {
            origin: CandidateOrigin::AuthoredIr,
            description,
            ir,
            policy: SessionPolicy::default_policy(),
            status: CandidateStatus::Compiled,
            epoch: 0,
            node_evidence: KeyedMap::new(),
            node_origins: KeyedMap::new(),
            capability_inferences: Vec::new(),
            binding_proposals: Vec::new(),
            trigger_intents: Vec::new(),
            last_validation: None,
            last_simulation: None,
            approval: None,
        })
    }

    /// Where the candidate's graph came from.
    pub fn origin(&self) -> (r: CandidateOrigin)
        ensures r == self.spec_origin(),
    {
        self.origin
    }

    /// Human-facing description carried into the definition.
    pub fn description(&self) -> (r: &Option<String>)
        ensures *r == self.spec_description(),
    {
        &self.description
    }

    /// The compiled graph.
    pub fn ir(&self) -> (r: &WorkflowIr)
        ensures *r == self.spec_ir(),
    {
        &self.ir
    }

    /// The policy governing optimization.
    pub fn policy(&self) -> (r: &SessionPolicy)
        ensures *r == self.spec_policy(),
    {
        &self.policy
    }

    /// The lifecycle state.
    pub fn status(&self) -> (r: CandidateStatus)
        ensures r == self.spec_status(),
    {
        self.status
    }

    /// The content epoch; it advances on every content or policy change.
    pub fn epoch(&self) -> (r: u64)
        ensures r == self.spec_epoch(),
    {
        self.epoch
    }

    /// Evidence attached to a step node, if any.
    pub fn node_evidence(&self, node_id: &String) -> (r: Option<&Vec<TeachingEvidence>>)
        requires
            self.wf(),
        ensures
            r matches Some(v) ==> self.spec_node_evidence().lookup(node_id@) == Some(*v),
            r is None ==> self.spec_node_evidence().lookup(node_id@) is None,
    {
        self.node_evidence.get(node_id)
    }

    /// The extraction origin of a step node, if recorded.
    pub fn node_origin(&self, node_id: &String) -> (r: Option<StepOrigin>)
        requires
            self.wf(),
        ensures
            r == self.spec_node_origins().lookup(node_id@),
    {
        match self.node_origins.get(node_id) {
            Some(o) => Some(*o),
            None => None,
        }
    }

    /// Capability hints produced by inference.
    pub fn capability_inferences(&self) -> (r: &Vec<CapabilityInference>)
        ensures r@ == self.spec_capability_inferences(),
    {
        &self.capability_inferences
    }

    /// Binding proposals produced by inference.
    pub fn binding_proposals(&self) -> (r: &Vec<BindingProposal>)
        ensures r@ == self.spec_binding_proposals(),
    {
        &self.binding_proposals
    }

    /// Trigger intents produced by inference.
    pub fn trigger_intents(&self) -> (r: &Vec<TriggerIntent>)
        ensures r@ == self.spec_trigger_intents(),
    {
        &self.trigger_intents
    }

    /// The last validation summary, if a validation pass has run.
    pub fn last_validation(&self) -> (r: &Option<ValidationSummary>)
        ensures *r == self.spec_last_validation(),
    {
        &self.last_validation
    }

    /// The last simulation report, if a simulation has run.
    pub fn last_simulation(&self) -> (r: &Option<SimulationReport>)
        ensures *r == self.spec_last_simulation(),
    {
        &self.last_simulation
    }

    /// The recorded approval, if any.
    pub fn approval(&self) -> (r: &Option<ApprovalRecord>)
        ensures *r == self.spec_approval(),
    {
        &self.approval
    }

    /// Replaces the policy. A policy change is a content change: it clears
    /// any approval and simulation and advances the epoch.
    pub fn set_policy(&mut self, policy: SessionPolicy)
        requires
            old(self).wf(),
        ensures
            final(self).wf(),
            final(self).spec_policy() == policy,
            final(self).spec_ir() == old(self).spec_ir(),
            final(self).content_changed_from(old(self)),
    {
        self.policy = policy;
        self.after_content_change();
    }

    /// Records a content or policy change: the epoch advances (saturating),
    /// the approval and stale simulation are dropped, the candidate returns
    /// to `Compiled`, and bookkeeping for removed nodes is pruned.
    pub fn after_content_change(&mut self)
        requires
            old(self).spec_ir().nodes.wf(),
            old(self).spec_node_evidence().wf(),
            old(self).spec_node_origins().wf(),
        ensures
            final(self).wf(),
            final(self).spec_policy() == old(self).spec_policy(),
            final(self).spec_ir() == old(self).spec_ir(),
            final(self).content_changed_from(old(self)),
    {
        self.epoch = if self.epoch == u64::MAX { self.epoch } else { self.epoch + 1 };
        self.status = CandidateStatus::Compiled;
        self.approval = None;
        self.last_simulation = None;
        self.node_evidence.retain_keys_of(&self.ir.nodes);
        self.node_origins.retain_keys_of(&self.ir.nodes);
    }

    /// Assembles a [`WorkflowDefinition`] under a control-plane-supplied
    /// definition id: the candidate's description and a copy of its graph.
    pub fn to_definition(&self, id: String) -> (r: Result<WorkflowDefinition, TeachingCompilerError>)
        requires
            self.wf(),
        ensures
            r matches Ok(d) && d.id == id && d.description == self.spec_description() && ir_equiv(d.ir, self.spec_ir())
                && d.ir.nodes.wf(),
    {
        let ir = WorkflowIr { entry: self.ir.entry.clone(), nodes: self.ir.nodes.duplicate() };
        Ok(WorkflowDefinition { id, description: clone_opt(&self.description), ir })
    }

    /// Runs validation and, when there are no error-severity findings,
    /// advances `Compiled -> Validated` (an unclean pass returns to
    /// `Compiled`). Only `Compiled` and `Validated` candidates validate.
    pub fn validate(&mut self) -> (r: Result<ValidationSummary, TeachingCompilerError>)
        requires
            old(self).wf(),
        ensures
            final(self).wf(),
            final(self).same_content(old(self)),
            final(self).spec_last_simulation() == old(self).spec_last_simulation(),
            final(self).spec_approval() == old(self).spec_approval(),
            !(old(self).spec_status() is Compiled || old(self).spec_status() is Validated) ==> (r matches Err(
                TeachingCompilerError::InvalidState { .. },
            ) && final(self).spec_status() == old(self).spec_status()
                && final(self).spec_last_validation() == old(self).spec_last_validation()),
            (old(self).spec_status() is Compiled || old(self).spec_status() is Validated) ==> {
                &&& r matches Ok(s)
                &&& findings_view(s.spec_findings()) == old(self).expected_findings()
                &&& final(self).spec_last_validation() matches Some(v)
                &&& v.spec_findings() == s.spec_findings()
                &&& final(self).spec_status() == if count_severity(s.spec_findings(), Severity::Error) == 0 {
                    CandidateStatus::Validated
                } else {
                    CandidateStatus::Compiled
                }
                &&& final(self).spec_status() is Validated <==> forall|j: int| 0 <= j < old(self).spec_ir().nodes.len()
                    ==> reachable(old(self).spec_ir().nodes, old(self).spec_ir().entry@, #[trigger] old(self).spec_ir().nodes.key(j))
            },
    {
        if self.status != CandidateStatus::Compiled && self.status != CandidateStatus::Validated {
            return Err(TeachingCompilerError::InvalidState {
                current: String::from_str(self.status.as_str()),
                required: String::from_str("compiled or validated"),
            });
        }
        let summary = validate_candidate_parts(&self.ir, &self.binding_proposals, &self.node_origins, &self.node_evidence);
        proof {
            lemma_clean_iff_every_node_reachable(
                self.ir,
                self.binding_proposals@,
                self.node_origins,
                self.node_evidence,
                summary.spec_findings(),
            );
        }
        self.last_validation = Some(summary.duplicate());
        if summary.is_clean() {
            self.status = CandidateStatus::Validated;
        } else {
            self.status = CandidateStatus::Compiled;
        }
        Ok(summary)
    }

    /// Runs a deterministic simulation of the current content, bound to the
    /// current epoch, and stores the report. Only `Validated` candidates
    /// simulate.
    pub fn simulate(&mut self, config: SimulationConfig) -> (r: Result<SimulationReport, TeachingCompilerError>)
        requires
            old(self).wf(),
        ensures
            final(self).wf(),
            final(self).same_content(old(self)),
            final(self).spec_status() == old(self).spec_status(),
            final(self).spec_approval() == old(self).spec_approval(),
            final(self).spec_last_validation() == old(self).spec_last_validation(),
            !(old(self).spec_status() is Validated) ==> (r matches Err(TeachingCompilerError::InvalidState { .. })
                && final(self).spec_last_simulation() == old(self).spec_last_simulation()),
            old(self).spec_status() is Validated ==> simulation_result(
                old(self).spec_ir().nodes,
                old(self).spec_ir().entry@,
                config.max_steps,
                old(self).spec_epoch(),
                r,
            ),
            old(self).spec_status() is Validated && r is Ok ==> (final(self).spec_last_simulation() matches Some(s)
                && same_report(s, r->Ok_0)),
            old(self).spec_status() is Validated && r is Err ==> final(self).spec_last_simulation() == old(self).spec_last_simulation(),
    {
        if self.status != CandidateStatus::Validated {
            return Err(TeachingCompilerError::InvalidState {
                current: String::from_str(self.status.as_str()),
                required: String::from_str("validated"),
            });
        }
        let report = simulate_with_epoch(&self.ir, config, self.epoch)?;
        self.last_simulation = Some(report.duplicate());
        Ok(report)
    }

    /// Records an approval decision for the current content epoch and
    /// advances `Validated -> Approved`. A rejection is not an approval.
    pub fn approve(&mut self, decision: ApprovalDecision) -> (r: Result<(), TeachingCompilerError>)
        requires
            old(self).wf(),
        ensures
            final(self).wf(),
            final(self).same_content(old(self)),
            final(self).spec_last_simulation() == old(self).spec_last_simulation(),
            final(self).spec_last_validation() == old(self).spec_last_validation(),
            !(old(self).spec_status() is Validated) ==> (r matches Err(TeachingCompilerError::InvalidState { .. })
                && final(self).spec_status() == old(self).spec_status() && final(self).spec_approval() == old(self).spec_approval()),
            old(self).spec_status() is Validated && decision.spec_kind() is Rejected ==> (r matches Err(
                TeachingCompilerError::InvalidApproval { .. },
            ) && final(self).spec_status() is Validated && final(self).spec_approval() is None),
            old(self).spec_status() is Validated && decision.spec_kind() is Approved ==> {
                &&& r is Ok
                &&& final(self).spec_status() is Approved
                &&& final(self).spec_approval() matches Some(a)
                &&& a.epoch == old(self).spec_epoch()
                &&& a.approver@ == decision.spec_approver()
                &&& a.reference@ == decision.spec_reference()
                &&& a.kind is Approved
            },
    {
        if self.status != CandidateStatus::Validated {
            return Err(TeachingCompilerError::InvalidState {
                current: String::from_str(self.status.as_str()),
                required: String::from_str("validated"),
            });
        }
        let record = decision.into_record(self.epoch);
        if record.kind != ApprovalDecisionKind::Approved {
            return Err(TeachingCompilerError::InvalidApproval {
                reason: String::from_str("the recorded decision is a rejection, not an approval"),
            });
        }
        self.approval = Some(record);
        self.status = CandidateStatus::Approved;
        Ok(())
    }

    /// Finalizes the candidate into an approved, publication-ready
    /// workflow: it must be `Approved` for the current epoch and hold a
    /// simulation of that epoch whose outcome allows publication.
    pub fn finalize(&mut self, id: String) -> (r: Result<ApprovedWorkflow, TeachingCompilerError>)
        requires
            old(self).wf(),
        ensures
            final(self).wf(),
            final(self).same_content(old(self)),
            final(self).spec_last_simulation() == old(self).spec_last_simulation(),
            final(self).spec_last_validation() == old(self).spec_last_validation(),
            final(self).spec_approval() == old(self).spec_approval(),
            r is Ok <==> old(self).finalize_ready(),
            !(old(self).spec_status() is Approved) ==> r matches Err(TeachingCompilerError::InvalidState { .. }),
            old(self).spec_status() is Approved && old(self).spec_last_simulation() is None
                ==> r matches Err(TeachingCompilerError::MissingSimulation),
            (old(self).spec_status() is Approved && old(self).spec_last_simulation() is Some
                && old(self).spec_last_simulation().unwrap().spec_epoch() != old(self).spec_epoch()) ==> {
                &&& r matches Err(TeachingCompilerError::SimulationEpochMismatch { simulation_epoch, candidate_epoch })
                &&& simulation_epoch == old(self).spec_last_simulation().unwrap().spec_epoch()
                &&& candidate_epoch == old(self).spec_epoch()
            },
            (old(self).spec_status() is Approved && old(self).spec_last_simulation() is Some
                && old(self).spec_last_simulation().unwrap().spec_epoch() == old(self).spec_epoch()
                && (old(self).spec_last_simulation().unwrap().spec_outcome() is Indeterminate
                || old(self).spec_last_simulation().unwrap().spec_outcome() is Aborted))
                ==> r matches Err(TeachingCompilerError::MissingSimulation),
            r is Ok ==> (old(self).spec_last_simulation() matches Some(s) && s.spec_epoch() == old(self).spec_epoch()
                && (s.spec_outcome() is Completed || s.spec_outcome() is Paused)),
            r is Err ==> final(self).spec_status() == old(self).spec_status(),
            r matches Ok(w) ==> {
                &&& w.simulation.spec_outcome() is Completed || w.simulation.spec_outcome() is Paused
                &&& final(self).spec_status() is PublicationReady
                &&& w.definition.id == id
                &&& w.definition.description == old(self).spec_description()
                &&& ir_equiv(w.definition.ir, old(self).spec_ir())
                &&& Some(w.approval) == old(self).spec_approval()
                &&& same_report(w.simulation, old(self).spec_last_simulation().unwrap())
                &&& w.origin == old(self).spec_origin()
            },
    {
        if self.status != CandidateStatus::Approved {
            return Err(TeachingCompilerError::InvalidState {
                current: String::from_str(self.status.as_str()),
                required: String::from_str("approved"),
            });
        }
        let approval = match &self.approval {
            Some(a) => a.duplicate(),
            None => {
                return Err(TeachingCompilerError::InvalidState {
                    current: String::from_str(self.status.as_str()),
                    required: String::from_str("an approval record"),
                });
            },
        };
        if approval.epoch != self.epoch {
            return Err(TeachingCompilerError::ApprovalEpochMismatch {
                approval_epoch: approval.epoch,
                candidate_epoch: self.epoch,
            });
        }
        let simulation = match &self.last_simulation {
            Some(s) => s.duplicate(),
            None => {
                return Err(TeachingCompilerError::MissingSimulation);
            },
        };
        if simulation.epoch() != self.epoch {
            return Err(TeachingCompilerError::SimulationEpochMismatch {
                simulation_epoch: simulation.epoch(),
                candidate_epoch: self.epoch,
            });
        }
        if !simulation.allows_publication() {
            return Err(TeachingCompilerError::MissingSimulation);
        }
        let definition = match self.to_definition(id) {
            Ok(d) => d,
            Err(e) => {
                return Err(e);
            },
        };
        self.status = CandidateStatus::PublicationReady;
        Ok(ApprovedWorkflow { definition, approval, simulation, origin: self.origin })
    }

    /// Whether the policy allows optimization.
    pub fn policy_allows_optimization(&self) -> (r: bool)
        ensures
            r == self.spec_policy().allow_optimization,
    {
        self.policy.allow_optimization
    }

    /// Mutable access to the graph for optimization transforms; callers
    /// follow up with [`Self::after_content_change`].
    pub fn ir_mut(&mut self) -> (r: &mut WorkflowIr)
        ensures
            *r == old(self).spec_ir(),
            final(self).spec_ir() == *final(r),
            final(self).spec_status() == old(self).spec_status(),
            final(self).spec_epoch() == old(self).spec_epoch(),
            final(self).spec_origin() == old(self).spec_origin(),
            final(self).spec_description() == old(self).spec_description(),
            final(self).spec_policy() == old(self).spec_policy(),
            final(self).spec_node_evidence() == old(self).spec_node_evidence(),
            final(self).spec_node_origins() == old(self).spec_node_origins(),
            final(self).spec_capability_inferences() == old(self).spec_capability_inferences(),
            final(self).spec_binding_proposals() == old(self).spec_binding_proposals(),
            final(self).spec_trigger_intents() == old(self).spec_trigger_intents(),
            final(self).spec_last_validation() == old(self).spec_last_validation(),
            final(self).spec_last_simulation() == old(self).spec_last_simulation(),
            final(self).spec_approval() == old(self).spec_approval(),
    {
        &mut self.ir
    }
}

/// An approval always covers the candidate's current content epoch, and
/// exists exactly in the `Approved` and `PublicationReady` states.
pub proof fn lemma_approval_covers_current_epoch(c: WorkflowCandidate)
    requires
        c.wf(),
    ensures
        c.spec_approval() matches Some(a) ==> a.epoch == c.spec_epoch() && a.kind is Approved,
        c.spec_approval() is Some <==> (c.spec_status() is Approved || c.spec_status() is PublicationReady),
{
}

/// A publication-ready candidate holds a simulation of its current epoch
/// that completed or paused: never one that was indeterminate or aborted.
pub proof fn lemma_publication_ready_simulation_publishable(c: WorkflowCandidate)
    requires
        c.wf(),
        c.spec_status() is PublicationReady,
    ensures
        c.spec_last_simulation() matches Some(s) && s.spec_epoch() == c.spec_epoch()
            && !(s.spec_outcome() is Indeterminate) && !(s.spec_outcome() is Aborted),
{
}

/// A content or policy change revokes publication: the changed candidate
/// holds no approval and no simulation, so it cannot be finalized until it
/// is validated, simulated and approved again.
pub proof fn lemma_content_change_blocks_finalize(before: WorkflowCandidate, after: WorkflowCandidate)
    requires
        after.content_changed_from(&before),
    ensures
        !after.finalize_ready(),
        after.spec_approval() is None,
        after.spec_last_simulation() is None,
        after.spec_status() is Compiled,
{
}

} // verus!
