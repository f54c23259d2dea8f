//! Approval decisions gating publication.
//!
//! Approver identity is a neutral label; the decision is bound to exact
//! candidate content via the content epoch.

use vstd::prelude::*;
use crate::text::{byte_len, str_byte_len};
use crate::teaching::error::TeachingCompilerError;

verus! {

/// Maximum byte length of an approver label.
pub const MAX_APPROVER_BYTES: usize = 128;
/// Maximum byte length of an approval reference.
pub const MAX_REFERENCE_BYTES: usize = 256;

/// The decision conveyed by an approval record.
#[derive(Clone, Copy, Debug, PartialEq, Eq, Structural)]
pub enum ApprovalDecisionKind {
    /// The approver approves publication of exactly this content.
    Approved,
    /// The approver rejects the candidate.
    Rejected,
}

/// An externally supplied approval decision.
#[derive(Clone, Debug, PartialEq, Eq)]
pub struct ApprovalDecision {
    approver: String,
    reference: String,
    kind: ApprovalDecisionKind,
}

/// The approval bound to exact candidate content (content epoch).
#[derive(Clone, Debug, PartialEq, Eq)]
pub struct ApprovalRecord {
    /// The approver label.
    pub approver: String,
    /// The external approval reference.
    pub reference: String,
    /// The recorded decision.
    pub kind: ApprovalDecisionKind,
    /// The content epoch covered by this approval.
    pub epoch: u64,
}

/// The bounds an approval decision's labels must satisfy.
pub open spec fn decision_valid(approver: Seq<char>, reference: Seq<char>) -> bool {
    &&& 1 <= byte_len(approver) <= MAX_APPROVER_BYTES
    &&& 1 <= byte_len(reference) <= MAX_REFERENCE_BYTES
}

impl ApprovalDecision {
    /// The approver label.
    pub closed spec fn spec_approver(&self) -> Seq<char> {
        self.approver@
    }

    /// The approval reference.
    pub closed spec fn spec_reference(&self) -> Seq<char> {
        self.reference@
    }

    /// The decision.
    pub closed spec fn spec_kind(&self) -> ApprovalDecisionKind {
        self.kind
    }

    /// Validates and constructs an approval decision: the approver label is
    /// 1..=128 bytes and the reference 1..=256 bytes.
    pub fn new(approver: String, reference: String, kind: ApprovalDecisionKind) -> (r: Result<Self, TeachingCompilerError>)
        ensures
            r is Ok <==> decision_valid(approver@, reference@),
            r matches Ok(d) ==> d.spec_approver() == approver@ && d.spec_reference() == reference@ && d.spec_kind() == kind,
            r matches Err(e) ==> e is InvalidApproval,
    {
        let approver_len = str_byte_len(approver.as_str());
        if approver_len == 0 || approver_len > MAX_APPROVER_BYTES {
            return Err(TeachingCompilerError::InvalidApproval {
                reason: String::from_str("approver label must be 1..=128 bytes"),
            });
        }
        let reference_len = str_byte_len(reference.as_str());
        if reference_len == 0 || reference_len > MAX_REFERENCE_BYTES {
            return Err(TeachingCompilerError::InvalidApproval {
                reason: String::from_str("approval reference must be 1..=256 bytes"),
            });
        }
        Ok(ApprovalDecision { approver, reference, kind })
    }

    /// The approver label.
    pub fn approver(&self) -> (r: &str)
        ensures
            r@ == self.spec_approver(),
    {
        self.approver.as_str()
    }

    /// The external approval reference.
    pub fn reference(&self) -> (r: &str)
        ensures
            r@ == self.spec_reference(),
    {
        self.reference.as_str()
    }

    /// The decision.
    pub fn kind(&self) -> (r: ApprovalDecisionKind)
        ensures
            r == self.spec_kind(),
    {
        self.kind
    }

    /// Binds the decision to a content epoch.
    pub fn into_record(self, epoch: u64) -> (r: ApprovalRecord)
        ensures
            r.approver@ == self.spec_approver(),
            r.reference@ == self.spec_reference(),
            r.kind == self.spec_kind(),
            r.epoch == epoch,
    {
        ApprovalRecord { approver: self.approver, reference: self.reference, kind: self.kind, epoch }
    }
}

impl ApprovalRecord {
    /// A copy of this record.
    pub fn duplicate(&self) -> (r: Self)
        ensures
            r == *self,
    {
        ApprovalRecord { approver: self.approver.clone(), reference: self.reference.clone(), kind: self.kind, epoch: self.epoch }
    }
}

} // verus!
