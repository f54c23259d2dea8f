//! Compiler inference outputs: capability hints, binding proposals, and
//! trigger intents. These are proposals only; binding resolution belongs to
//! the execution plane and is confirmed by explicit approval.

use vstd::prelude::*;

verus! {

/// The plane a binding proposal addresses.
#[derive(Clone, Copy, Debug, PartialEq, Eq, Structural)]
pub enum BindingKind {
    /// A semantic capability requirement for a step.
    Capability,
    /// A resource requirement for a step.
    Resource,
    /// A skill dependency.
    Skill,
    /// A plugin dependency.
    Plugin,
    /// An MCP server dependency.
    McpServer,
    /// A pinned subworkflow dependency.
    Subworkflow,
}

/// The stable lowercase name of a binding kind.
pub open spec fn binding_kind_name(k: BindingKind) -> Seq<char> {
    match k {
        BindingKind::Capability => "capability"@,
        BindingKind::Resource => "resource"@,
        BindingKind::Skill => "skill"@,
        BindingKind::Plugin => "plugin"@,
        BindingKind::McpServer => "mcp-server"@,
        BindingKind::Subworkflow => "subworkflow"@,
    }
}

impl BindingKind {
    /// Stable lowercase name for diagnostics.
    pub fn as_str(self) -> (r: &'static str)
        ensures
            r@ == binding_kind_name(self),
    {
        proof {
            reveal_strlit("capability");
            reveal_strlit("resource");
            reveal_strlit("skill");
            reveal_strlit("plugin");
            reveal_strlit("mcp-server");
            reveal_strlit("subworkflow");
        }
        match self {
            BindingKind::Capability => "capability",
            BindingKind::Resource => "resource",
            BindingKind::Skill => "skill",
            BindingKind::Plugin => "plugin",
            BindingKind::McpServer => "mcp-server",
            BindingKind::Subworkflow => "subworkflow",
        }
    }
}

/// A lexical capability hint derived from one step's intent.
#[derive(Clone, Debug, PartialEq, Eq)]
pub struct CapabilityInference {
    /// The step the hint applies to.
    pub node_id: String,
    /// A neutral hint label, for example `verb:navigate`.
    pub requirement_hint: String,
    /// Why the hint was produced.
    pub rationale: String,
}

/// A proposed execution binding that must be resolved and approved before
/// publication.
#[derive(Clone, Debug, PartialEq, Eq)]
pub struct BindingProposal {
    /// The step the binding applies to.
    pub node_id: String,
    /// Which plane the binding addresses.
    pub kind: BindingKind,
    /// A neutral proposed reference, never a concrete environment binding.
    pub proposed_reference: String,
    /// Why the binding is proposed.
    pub rationale: String,
    /// Always `true`: bindings are never applied without approval.
    pub requires_approval: bool,
}

/// A trigger suggestion derived from instruction statements that begin
/// with "when"; a hint carried for approval, never a declared trigger.
#[derive(Clone, Debug, PartialEq, Eq)]
pub struct TriggerIntent {
    /// Always `unresolved`: trigger classes are control-plane decisions.
    pub class_hint: String,
    /// The instruction text that suggested the trigger.
    pub description: String,
}

} // verus!
