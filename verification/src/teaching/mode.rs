//! Teaching modes.

use vstd::prelude::*;

verus! {

/// How a workflow is being taught.
#[derive(Clone, Copy, Debug, PartialEq, Eq, Structural)]
pub enum TeachingMode {
    /// The user demonstrates the workflow by performing it.
    Demonstrate,
    /// The user describes the workflow with instruction statements.
    Instruct,
    /// Both interleaved, merged in recording order.
    Hybrid,
}

/// The stable lowercase name of a mode.
pub open spec fn mode_name(m: TeachingMode) -> Seq<char> {
    match m {
        TeachingMode::Demonstrate => "demonstrate"@,
        TeachingMode::Instruct => "instruct"@,
        TeachingMode::Hybrid => "hybrid"@,
    }
}

impl TeachingMode {
    /// Whether this mode accepts demonstration-origin records.
    pub open spec fn spec_accepts_demonstration(self) -> bool {
        self is Demonstrate || self is Hybrid
    }

    /// Whether this mode accepts instruction-origin records.
    pub open spec fn spec_accepts_instruction(self) -> bool {
        self is Instruct || self is Hybrid
    }

    /// Whether this mode accepts demonstration-origin records.
    pub fn accepts_demonstration(self) -> (r: bool)
        ensures
            r == self.spec_accepts_demonstration(),
    {
        match self {
            TeachingMode::Demonstrate => true,
            TeachingMode::Hybrid => true,
            TeachingMode::Instruct => false,
        }
    }

    /// Whether this mode accepts instruction-origin records.
    pub fn accepts_instruction(self) -> (r: bool)
        ensures
            r == self.spec_accepts_instruction(),
    {
        match self {
            TeachingMode::Instruct => true,
            TeachingMode::Hybrid => true,
            TeachingMode::Demonstrate => false,
        }
    }

    /// Stable lowercase name, used in error messages and diagnostics.
    pub fn as_str(self) -> (r: &'static str)
        ensures
            r@ == mode_name(self),
    {
        proof {
            reveal_strlit("demonstrate");
            reveal_strlit("instruct");
            reveal_strlit("hybrid");
        }
        match self {
            TeachingMode::Demonstrate => "demonstrate",
            TeachingMode::Instruct => "instruct",
            TeachingMode::Hybrid => "hybrid",
        }
    }
}

} // verus!
