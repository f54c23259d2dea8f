//! The verdict of an approval decision recorded at the approval-plane
//! seam. The approval machinery stays the authority; this is only the
//! decision as data.

use vstd::prelude::*;

verus! {

/// The recorded verdict of one approval decision.
#[derive(Clone, Copy, Debug, PartialEq, Eq, Structural, Hash)]
pub enum ApprovalVerdict {
    /// The approval plane authorized the binding.
    Approved,
    /// The approval plane refused the binding.
    Denied,
}

} // verus!
