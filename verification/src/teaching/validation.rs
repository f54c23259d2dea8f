//! Candidate validation: structural findings about the graph and about the
//! taught steps. Error-severity findings block approval and publication;
//! warnings are surfaced for inspection only.

use vstd::prelude::*;
use crate::graph::{reachable, reachable_marks};
use crate::ir::{WorkflowIr, WorkflowIrNode};
use crate::keyed_map::KeyedMap;
use crate::teaching::blueprint::StepOrigin;
use crate::teaching::evidence::TeachingEvidence;
use crate::teaching::proposal::BindingProposal;

verus! {

/// Severity of a validation finding.
#[derive(Clone, Copy, Debug, PartialEq, Eq, Structural)]
pub enum Severity {
    /// Blocks approval and publication.
    Error,
    /// Informational; surfaced for inspection.
    Warning,
}

/// Stable diagnostic codes emitted by candidate validation.
#[derive(Clone, Copy, Debug, PartialEq, Eq, Structural)]
pub enum FindingCode {
    /// A node is not reachable from the entry node.
    UnreachableNode,
    /// An observed step carries no evidence references.
    ObservedStepWithoutEvidence,
    /// A step declares no capability requirement and has no binding
    /// proposal.
    StepWithoutCapability,
    /// A step carries no intent description.
    StepWithoutIntent,
    /// A conditional branch has no default arm.
    IndeterminateBranch,
}

/// One structural or policy finding about a candidate.
#[derive(Clone, Debug, PartialEq, Eq)]
pub struct ValidationFinding {
    /// How severe the finding is.
    pub severity: Severity,
    /// A stable diagnostic code.
    pub code: FindingCode,
    /// Human-facing explanation.
    pub message: String,
}

/// A finding as plain values.
pub struct FindingSpec {
    /// How severe the finding is.
    pub severity: Severity,
    /// The diagnostic code.
    pub code: FindingCode,
    /// The message text.
    pub message: Seq<char>,
}

/// A finding as plain values.
pub open spec fn finding_view(f: ValidationFinding) -> FindingSpec {
    FindingSpec { severity: f.severity, code: f.code, message: f.message@ }
}

/// Findings as plain values.
pub open spec fn findings_view(v: Seq<ValidationFinding>) -> Seq<FindingSpec> {
    v.map_values(|f: ValidationFinding| finding_view(f))
}

/// The finding a code reports about node `id`.
pub open spec fn finding_for(code: FindingCode, id: Seq<char>) -> FindingSpec {
    match code {
        FindingCode::UnreachableNode => FindingSpec {
            severity: Severity::Error,
            code,
            message: "node `"@ + id + "` is not reachable from the entry node"@,
        },
        FindingCode::IndeterminateBranch => FindingSpec {
            severity: Severity::Warning,
            code,
            message: "conditional branch `"@ + id
                + "` has no default arm; branch selection is control-plane authority and simulation will be indeterminate"@,
        },
        FindingCode::StepWithoutIntent => FindingSpec {
            severity: Severity::Warning,
            code,
            message: "step `"@ + id + "` carries no intent description"@,
        },
        FindingCode::StepWithoutCapability => FindingSpec {
            severity: Severity::Warning,
            code,
            message: "step `"@ + id + "` declares no capability requirement and has no binding proposal"@,
        },
        FindingCode::ObservedStepWithoutEvidence => FindingSpec {
            severity: Severity::Warning,
            code,
            message: "observed step `"@ + id
                + "` carries no evidence references; it was recorded through the no-evidence fallback and cannot be optimized"@,
        },
    }
}

/// Unreachable-node errors for the first `k` nodes, in id order.
pub open spec fn unreachable_findings(nodes: KeyedMap<WorkflowIrNode>, entry: Seq<char>, k: int) -> Seq<FindingSpec>
    decreases k,
{
    if k <= 0 {
        Seq::empty()
    } else {
        unreachable_findings(nodes, entry, k - 1) + if reachable(nodes, entry, nodes.key(k - 1)) {
            Seq::empty()
        } else {
            seq![finding_for(FindingCode::UnreachableNode, nodes.key(k - 1))]
        }
    }
}

/// The graph-level warning about one node, if any.
pub open spec fn node_findings(id: Seq<char>, node: WorkflowIrNode) -> Seq<FindingSpec> {
    match node {
        WorkflowIrNode::ConditionalBranch(n) => if n.default is None {
            seq![finding_for(FindingCode::IndeterminateBranch, id)]
        } else {
            Seq::empty()
        },
        WorkflowIrNode::Step(n) => if n.description is None {
            seq![finding_for(FindingCode::StepWithoutIntent, id)]
        } else {
            Seq::empty()
        },
        _ => Seq::empty(),
    }
}

/// Graph-level warnings for the first `k` nodes, in id order.
pub open spec fn graph_findings(nodes: KeyedMap<WorkflowIrNode>, k: int) -> Seq<FindingSpec>
    decreases k,
{
    if k <= 0 {
        Seq::empty()
    } else {
        graph_findings(nodes, k - 1) + node_findings(nodes.key(k - 1), nodes.value(k - 1))
    }
}

/// The findings of the graph checks: unreachable nodes first, then the
/// per-node warnings, each in id order.
pub open spec fn ir_findings(ir: WorkflowIr) -> Seq<FindingSpec> {
    unreachable_findings(ir.nodes, ir.entry@, ir.nodes.len() as int) + graph_findings(ir.nodes, ir.nodes.len() as int)
}

/// Some binding proposal names node `id`.
pub open spec fn covered(proposals: Seq<BindingProposal>, id: Seq<char>) -> bool {
    exists|j: int| 0 <= j < proposals.len() && #[trigger] proposals[j].node_id@ == id
}

/// Node `id` is an observed step carrying no evidence.
pub open spec fn observed_without_evidence(
    origins: KeyedMap<StepOrigin>,
    evidence: KeyedMap<Vec<TeachingEvidence>>,
    id: Seq<char>,
) -> bool {
    origins.lookup(id) == Some(StepOrigin::Observed) && match evidence.lookup(id) {
        Some(e) => e@.len() == 0,
        None => true,
    }
}

/// The taught-step warnings about one node.
pub open spec fn step_findings(
    id: Seq<char>,
    node: WorkflowIrNode,
    proposals: Seq<BindingProposal>,
    origins: KeyedMap<StepOrigin>,
    evidence: KeyedMap<Vec<TeachingEvidence>>,
) -> Seq<FindingSpec> {
    match node {
        WorkflowIrNode::Step(n) => (if n.capabilities@.len() == 0 && !covered(proposals, id) {
            seq![finding_for(FindingCode::StepWithoutCapability, id)]
        } else {
            Seq::empty()
        }) + (if observed_without_evidence(origins, evidence, id) {
            seq![finding_for(FindingCode::ObservedStepWithoutEvidence, id)]
        } else {
            Seq::empty()
        }),
        _ => Seq::empty(),
    }
}

/// Taught-step warnings for the first `k` nodes, in id order.
pub open spec fn candidate_findings(
    nodes: KeyedMap<WorkflowIrNode>,
    proposals: Seq<BindingProposal>,
    origins: KeyedMap<StepOrigin>,
    evidence: KeyedMap<Vec<TeachingEvidence>>,
    k: int,
) -> Seq<FindingSpec>
    decreases k,
{
    if k <= 0 {
        Seq::empty()
    } else {
        candidate_findings(nodes, proposals, origins, evidence, k - 1)
            + step_findings(nodes.key(k - 1), nodes.value(k - 1), proposals, origins, evidence)
    }
}

/// Number of findings of a severity.
pub open spec fn count_severity(s: Seq<ValidationFinding>, sev: Severity) -> nat
    decreases s.len(),
{
    if s.len() == 0 {
        0
    } else {
        count_severity(s.drop_last(), sev) + if s.last().severity == sev { 1nat } else { 0nat }
    }
}

/// Summary of one validation pass.
#[derive(Clone, Debug, PartialEq, Eq)]
pub struct ValidationSummary {
    findings: Vec<ValidationFinding>,
}

impl ValidationSummary {
    /// All findings in deterministic order.
    pub closed spec fn spec_findings(&self) -> Seq<ValidationFinding> {
        self.findings@
    }

    /// Wraps a list of findings.
    pub fn new(findings: Vec<ValidationFinding>) -> (s: Self)
        ensures
            s.spec_findings() == findings@,
    {
        ValidationSummary { findings }
    }

    /// A copy of this summary.
    pub fn duplicate(&self) -> (r: Self)
        ensures
            r.spec_findings() == self.spec_findings(),
    {
        let mut findings: Vec<ValidationFinding> = Vec::new();
        let mut i: usize = 0;
        while i < self.findings.len()
            invariant
                i <= self.findings@.len(),
                findings@ =~= self.findings@.take(i as int),
            decreases self.findings@.len() - i,
        {
            let f = &self.findings[i];
            findings.push(ValidationFinding { severity: f.severity, code: f.code, message: f.message.clone() });
            assert(self.findings@.take(i + 1) =~= self.findings@.take(i as int).push(self.findings@[i as int]));
            i += 1;
        }
        assert(self.findings@.take(i as int) =~= self.findings@);
        ValidationSummary { findings }
    }

    /// All findings in deterministic order.
    pub fn findings(&self) -> (r: &Vec<ValidationFinding>)
        ensures
            r@ == self.spec_findings(),
    {
        &self.findings
    }

    /// Number of error-severity findings.
    pub fn error_count(&self) -> (r: usize)
        ensures
            r == count_severity(self.spec_findings(), Severity::Error),
    {
        count_of(&self.findings, Severity::Error)
    }

    /// Number of warning-severity findings.
    pub fn warning_count(&self) -> (r: usize)
        ensures
            r == count_severity(self.spec_findings(), Severity::Warning),
    {
        count_of(&self.findings, Severity::Warning)
    }

    /// Whether the pass produced no error-severity findings.
    pub fn is_clean(&self) -> (r: bool)
        ensures
            r == (count_severity(self.spec_findings(), Severity::Error) == 0),
    {
        self.error_count() == 0
    }
}

fn count_of(v: &Vec<ValidationFinding>, sev: Severity) -> (r: usize)
    ensures
        r == count_severity(v@, sev),
{
    let mut n: usize = 0;
    let mut i: usize = 0;
    while i < v.len()
        invariant
            i <= v@.len(),
            n == count_severity(v@.take(i as int), sev),
            n <= i,
        decreases v@.len() - i,
    {
        assert(v@.take(i + 1).drop_last() =~= v@.take(i as int));
        if v[i].severity == sev {
            n += 1;
        }
        i += 1;
    }
    assert(v@.take(i as int) =~= v@);
    n
}

/// Builds the finding a code reports about node `id`.
fn make_finding(code: FindingCode, id: &String) -> (f: ValidationFinding)
    ensures
        finding_view(f) == finding_for(code, id@),
{
    let (severity, prefix, suffix) = match code {
        FindingCode::UnreachableNode => (Severity::Error, "node `", "` is not reachable from the entry node"),
        FindingCode::IndeterminateBranch => (
            Severity::Warning,
            "conditional branch `",
            "` has no default arm; branch selection is control-plane authority and simulation will be indeterminate",
        ),
        FindingCode::StepWithoutIntent => (Severity::Warning, "step `", "` carries no intent description"),
        FindingCode::StepWithoutCapability => (
            Severity::Warning,
            "step `",
            "` declares no capability requirement and has no binding proposal",
        ),
        FindingCode::ObservedStepWithoutEvidence => (
            Severity::Warning,
            "observed step `",
            "` carries no evidence references; it was recorded through the no-evidence fallback and cannot be optimized",
        ),
    };
    let mut message = String::from_str(prefix);
    message.append(id.as_str());
    message.append(suffix);
    ValidationFinding { severity, code, message }
}

/// Runs the graph-level structural checks: unreachable nodes (errors),
/// then conditional branches without a default arm and steps without an
/// intent description (warnings), each in id order.
pub fn validate_candidate_ir(ir: &WorkflowIr) -> (r: Vec<ValidationFinding>)
    requires
        ir.nodes.wf(),
    ensures
        findings_view(r@) == ir_findings(*ir),
{
    let marks = reachable_marks(&ir.entry, &ir.nodes);
    let n = ir.nodes.size();
    let mut findings: Vec<ValidationFinding> = Vec::new();
    let mut i: usize = 0;
    while i < n
        invariant
            ir.nodes.wf(),
            n == ir.nodes.len(),
            i <= n,
            marks@.len() == n,
            forall|j: int| 0 <= j < n ==> (#[trigger] marks@[j] <==> reachable(ir.nodes, ir.entry@, ir.nodes.key(j))),
            findings_view(findings@) == unreachable_findings(ir.nodes, ir.entry@, i as int),
        decreases n - i,
    {
        let ghost before = findings_view(findings@);
        if !marks[i] {
            let f = make_finding(FindingCode::UnreachableNode, ir.nodes.key_at(i));
            findings.push(f);
        }
        assert(findings_view(findings@) =~= unreachable_findings(ir.nodes, ir.entry@, i + 1));
        i += 1;
    }
    let ghost unreachable = findings_view(findings@);
    let mut i: usize = 0;
    while i < n
        invariant
            ir.nodes.wf(),
            n == ir.nodes.len(),
            i <= n,
            findings_view(findings@) == unreachable + graph_findings(ir.nodes, i as int),
        decreases n - i,
    {
        let ghost before = findings_view(findings@);
        let id = ir.nodes.key_at(i);
        match ir.nodes.value_at(i) {
            WorkflowIrNode::ConditionalBranch(b) => {
                if b.default.is_none() {
                    findings.push(make_finding(FindingCode::IndeterminateBranch, id));
                }
            },
            WorkflowIrNode::Step(s) => {
                if s.description.is_none() {
                    findings.push(make_finding(FindingCode::StepWithoutIntent, id));
                }
            },
            _ => {},
        }
        let ghost nf = node_findings(ir.nodes.key(i as int), ir.nodes.value(i as int));
        assert(findings_view(findings@) =~= before + nf);
        assert(graph_findings(ir.nodes, i + 1) == graph_findings(ir.nodes, i as int) + nf);
        assert(findings_view(findings@) =~= unreachable + graph_findings(ir.nodes, i + 1));
        i += 1;
    }
    findings
}

/// Whether some binding proposal names `id`.
fn is_covered(proposals: &Vec<BindingProposal>, id: &String) -> (r: bool)
    ensures
        r == covered(proposals@, id@),
{
    let mut i: usize = 0;
    while i < proposals.len()
        invariant
            i <= proposals@.len(),
            forall|j: int| 0 <= j < i ==> #[trigger] proposals@[j].node_id@ != id@,
        decreases proposals@.len() - i,
    {
        if crate::text::str_eq(&proposals[i].node_id, id) {
            return true;
        }
        i += 1;
    }
    false
}

/// Runs the full validation pass over a taught or authored graph: the
/// graph-level checks, then per step node a missing capability (no
/// declared requirement and no binding proposal) and an observed step
/// without evidence, in id order.
pub fn validate_candidate_parts(
    ir: &WorkflowIr,
    proposals: &Vec<BindingProposal>,
    origins: &KeyedMap<StepOrigin>,
    evidence: &KeyedMap<Vec<TeachingEvidence>>,
) -> (r: ValidationSummary)
    requires
        ir.nodes.wf(),
        origins.wf(),
        evidence.wf(),
    ensures
        findings_view(r.spec_findings()) == ir_findings(*ir)
            + candidate_findings(ir.nodes, proposals@, *origins, *evidence, ir.nodes.len() as int),
{
    let mut findings = validate_candidate_ir(ir);
    let ghost graph_part = findings_view(findings@);
    let n = ir.nodes.size();
    let mut i: usize = 0;
    while i < n
        invariant
            ir.nodes.wf(),
            origins.wf(),
            evidence.wf(),
            n == ir.nodes.len(),
            i <= n,
            findings_view(findings@) == graph_part + candidate_findings(ir.nodes, proposals@, *origins, *evidence, i as int),
        decreases n - i,
    {
        let ghost before = findings_view(findings@);
        let id = ir.nodes.key_at(i);
        match ir.nodes.value_at(i) {
            WorkflowIrNode::Step(s) => {
                let has_capability = s.capabilities.len() > 0;
                let has_proposal = is_covered(proposals, id);
                if !has_capability && !has_proposal {
                    findings.push(make_finding(FindingCode::StepWithoutCapability, id));
                }
                let ghost mid = findings_view(findings@);
                let no_evidence = match evidence.get(id) {
                    Some(e) => e.len() == 0,
                    None => true,
                };
                let observed = match origins.get(id) {
                    Some(StepOrigin::Observed) => true,
                    _ => false,
                };
                if observed && no_evidence {
                    findings.push(make_finding(FindingCode::ObservedStepWithoutEvidence, id));
                }
                let ghost sf = step_findings(ir.nodes.key(i as int), ir.nodes.value(i as int), proposals@, *origins, *evidence);
                proof {
                    assert(observed == (origins.lookup(id@) == Some(StepOrigin::Observed)));
                    assert(findings_view(findings@) =~= before + sf);
                    assert(candidate_findings(ir.nodes, proposals@, *origins, *evidence, i + 1)
                        == candidate_findings(ir.nodes, proposals@, *origins, *evidence, i as int) + sf);
                }
                assert(findings_view(findings@) =~= graph_part + candidate_findings(ir.nodes, proposals@, *origins, *evidence, i + 1));
            },
            _ => {
                assert(findings_view(findings@) =~= graph_part + candidate_findings(ir.nodes, proposals@, *origins, *evidence, i + 1));
            },
        }
        i += 1;
    }
    ValidationSummary::new(findings)
}

/// Only an unreachable node is an error: every other finding code
/// (a conditional branch without a default arm, a step without intent, a
/// step without capability, an observed step without evidence) is a
/// warning, whatever node it is about.
pub proof fn lemma_finding_severity(code: FindingCode, id: Seq<char>)
    ensures
        finding_for(code, id).code == code,
        finding_for(code, id).severity == Severity::Error <==> code == FindingCode::UnreachableNode,
        finding_for(code, id).severity == Severity::Warning <==> code != FindingCode::UnreachableNode,
{
}

proof fn lemma_unreachable_findings_shape(nodes: KeyedMap<WorkflowIrNode>, entry: Seq<char>, k: int)
    ensures
        forall|i: int| 0 <= i < unreachable_findings(nodes, entry, k).len()
            ==> (#[trigger] unreachable_findings(nodes, entry, k)[i]).code == FindingCode::UnreachableNode
                && unreachable_findings(nodes, entry, k)[i].severity == Severity::Error,
        unreachable_findings(nodes, entry, k).len() == 0
            <==> forall|j: int| 0 <= j < k ==> reachable(nodes, entry, #[trigger] nodes.key(j)),
    decreases k,
{
    if k > 0 {
        lemma_unreachable_findings_shape(nodes, entry, k - 1);
        let prev = unreachable_findings(nodes, entry, k - 1);
        let cur = unreachable_findings(nodes, entry, k);
        assert forall|i: int| 0 <= i < cur.len() implies (#[trigger] cur[i]).code == FindingCode::UnreachableNode
            && cur[i].severity == Severity::Error by {
            if i < prev.len() {
                assert(cur[i] == prev[i]);
            }
        }
        if cur.len() == 0 {
            assert forall|j: int| 0 <= j < k implies reachable(nodes, entry, #[trigger] nodes.key(j)) by {
                if j < k - 1 {
                    assert(prev.len() == 0);
                }
            }
        }
    }
}

proof fn lemma_graph_findings_warn(nodes: KeyedMap<WorkflowIrNode>, k: int)
    ensures
        forall|i: int| 0 <= i < graph_findings(nodes, k).len()
            ==> (#[trigger] graph_findings(nodes, k)[i]).code != FindingCode::UnreachableNode
                && graph_findings(nodes, k)[i].severity == Severity::Warning,
    decreases k,
{
    if k > 0 {
        lemma_graph_findings_warn(nodes, k - 1);
        let prev = graph_findings(nodes, k - 1);
        let nf = node_findings(nodes.key(k - 1), nodes.value(k - 1));
        let cur = graph_findings(nodes, k);
        assert forall|i: int| 0 <= i < cur.len() implies (#[trigger] cur[i]).code != FindingCode::UnreachableNode
            && cur[i].severity == Severity::Warning by {
            if i < prev.len() {
                assert(cur[i] == prev[i]);
            } else {
                assert(cur[i] == nf[i - prev.len()]);
            }
        }
    }
}

proof fn lemma_candidate_findings_warn(
    nodes: KeyedMap<WorkflowIrNode>,
    proposals: Seq<BindingProposal>,
    origins: KeyedMap<StepOrigin>,
    evidence: KeyedMap<Vec<TeachingEvidence>>,
    k: int,
)
    ensures
        forall|i: int| 0 <= i < candidate_findings(nodes, proposals, origins, evidence, k).len()
            ==> (#[trigger] candidate_findings(nodes, proposals, origins, evidence, k)[i]).code != FindingCode::UnreachableNode
                && candidate_findings(nodes, proposals, origins, evidence, k)[i].severity == Severity::Warning,
    decreases k,
{
    if k > 0 {
        lemma_candidate_findings_warn(nodes, proposals, origins, evidence, k - 1);
        let prev = candidate_findings(nodes, proposals, origins, evidence, k - 1);
        let sf = step_findings(nodes.key(k - 1), nodes.value(k - 1), proposals, origins, evidence);
        let cur = candidate_findings(nodes, proposals, origins, evidence, k);
        assert forall|i: int| 0 <= i < cur.len() implies (#[trigger] cur[i]).code != FindingCode::UnreachableNode
            && cur[i].severity == Severity::Warning by {
            if i < prev.len() {
                assert(cur[i] == prev[i]);
            } else {
                assert(cur[i] == sf[i - prev.len()]);
            }
        }
    }
}

/// The full validation pass of a graph with these step annotations.
pub open spec fn all_findings(
    ir: WorkflowIr,
    proposals: Seq<BindingProposal>,
    origins: KeyedMap<StepOrigin>,
    evidence: KeyedMap<Vec<TeachingEvidence>>,
) -> Seq<FindingSpec> {
    ir_findings(ir) + candidate_findings(ir.nodes, proposals, origins, evidence, ir.nodes.len() as int)
}

/// In a validation pass, a finding is an error exactly when it reports an
/// unreachable node; every branch, intent, capability and evidence finding
/// is a warning. Each finding carries the severity of its code.
pub proof fn lemma_only_unreachable_nodes_are_errors(
    ir: WorkflowIr,
    proposals: Seq<BindingProposal>,
    origins: KeyedMap<StepOrigin>,
    evidence: KeyedMap<Vec<TeachingEvidence>>,
)
    ensures
        forall|i: int| 0 <= i < all_findings(ir, proposals, origins, evidence).len() ==> {
            let f = #[trigger] all_findings(ir, proposals, origins, evidence)[i];
            &&& f.severity == Severity::Error <==> f.code == FindingCode::UnreachableNode
            &&& f.severity == Severity::Warning <==> f.code != FindingCode::UnreachableNode
        },
{
    let n = ir.nodes.len() as int;
    let u = unreachable_findings(ir.nodes, ir.entry@, n);
    let g = graph_findings(ir.nodes, n);
    let c = candidate_findings(ir.nodes, proposals, origins, evidence, n);
    let all = all_findings(ir, proposals, origins, evidence);
    lemma_unreachable_findings_shape(ir.nodes, ir.entry@, n);
    lemma_graph_findings_warn(ir.nodes, n);
    lemma_candidate_findings_warn(ir.nodes, proposals, origins, evidence, n);
    assert(all =~= u + g + c);
    assert forall|i: int| 0 <= i < all.len() implies {
        let f = #[trigger] all[i];
        &&& f.severity == Severity::Error <==> f.code == FindingCode::UnreachableNode
        &&& f.severity == Severity::Warning <==> f.code != FindingCode::UnreachableNode
    } by {
        if i < u.len() {
            assert(all[i] == u[i]);
        } else if i < u.len() + g.len() {
            assert(all[i] == g[i - u.len()]);
        } else {
            assert(all[i] == c[i - u.len() - g.len()]);
        }
    }
}

proof fn lemma_count_severity_zero(v: Seq<ValidationFinding>, sev: Severity)
    ensures
        count_severity(v, sev) == 0 <==> forall|i: int| 0 <= i < v.len() ==> (#[trigger] v[i]).severity != sev,
    decreases v.len(),
{
    if v.len() > 0 {
        lemma_count_severity_zero(v.drop_last(), sev);
        if count_severity(v, sev) == 0 {
            assert forall|i: int| 0 <= i < v.len() implies (#[trigger] v[i]).severity != sev by {
                if i < v.len() - 1 {
                    assert(v[i] == v.drop_last()[i]);
                }
            }
        } else if forall|i: int| 0 <= i < v.len() ==> (#[trigger] v[i]).severity != sev {
            assert forall|i: int| 0 <= i < v.drop_last().len() implies (#[trigger] v.drop_last()[i]).severity != sev by {
                assert(v.drop_last()[i] == v[i]);
            }
            assert(v[v.len() - 1].severity != sev);
        }
    }
}

/// A validation pass is clean (has no error-severity finding) exactly when
/// every node of the graph is reachable from the entry node: branches
/// without a default arm, steps without intent or capability and observed
/// steps without evidence never make a pass unclean.
pub proof fn lemma_clean_iff_every_node_reachable(
    ir: WorkflowIr,
    proposals: Seq<BindingProposal>,
    origins: KeyedMap<StepOrigin>,
    evidence: KeyedMap<Vec<TeachingEvidence>>,
    findings: Seq<ValidationFinding>,
)
    requires
        findings_view(findings) == all_findings(ir, proposals, origins, evidence),
    ensures
        count_severity(findings, Severity::Error) == 0
            <==> forall|j: int| 0 <= j < ir.nodes.len() ==> reachable(ir.nodes, ir.entry@, #[trigger] ir.nodes.key(j)),
{
    let n = ir.nodes.len() as int;
    let u = unreachable_findings(ir.nodes, ir.entry@, n);
    let all = all_findings(ir, proposals, origins, evidence);
    lemma_unreachable_findings_shape(ir.nodes, ir.entry@, n);
    lemma_only_unreachable_nodes_are_errors(ir, proposals, origins, evidence);
    lemma_count_severity_zero(findings, Severity::Error);
    assert(findings_view(findings).len() == findings.len());
    assert forall|i: int| 0 <= i < findings.len() implies (#[trigger] findings[i]).severity == all[i].severity by {
        assert(findings_view(findings)[i] == finding_view(findings[i]));
    }
    if u.len() > 0 {
        assert(all[0] == u[0]);
        assert(findings[0].severity == Severity::Error);
    } else {
        assert forall|i: int| 0 <= i < findings.len() implies (#[trigger] findings[i]).severity != Severity::Error by {
            assert(all[i].code != FindingCode::UnreachableNode) by {
                assert(all =~= u + graph_findings(ir.nodes, n) + candidate_findings(ir.nodes, proposals, origins, evidence, n));
                lemma_graph_findings_warn(ir.nodes, n);
                lemma_candidate_findings_warn(ir.nodes, proposals, origins, evidence, n);
                let g = graph_findings(ir.nodes, n);
                if i < g.len() {
                    assert(all[i] == g[i]);
                } else {
                    assert(all[i] == candidate_findings(ir.nodes, proposals, origins, evidence, n)[i - g.len()]);
                }
            }
        }
    }
}

} // verus!
