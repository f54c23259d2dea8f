//! The browser environment's own decision: reading an action's wire form
//! into the browser action vocabulary. The operation vocabulary is
//! adapter-owned: workflow semantics never reference it.

use vstd::prelude::*;
use crate::environment::computer::{inputs_of, operation_of, text_or_empty};
use crate::environment::json::{JsonValue, field, json_field, json_text, text_of};
use crate::providers::model::opt_text;
use crate::text::strs_equal;

verus! {

/// The adapter identity registered with the capability registry.
pub const BROWSER_ENV_ADAPTER_ID: &'static str = "codex-browser-use-env";
/// The semantic capability this environment provides.
pub const BROWSER_CAPABILITY: &'static str = "navigate_web";
/// The typed resource this environment requires before execution.
pub const BROWSER_PROFILE_RESOURCE: &'static str = "browser_profile";

/// The kind of one browser action.
#[derive(Clone, Copy, Debug, PartialEq, Eq, Structural)]
pub enum BrowserActionKind {
    /// Go to a page.
    Navigate,
    /// Click an element.
    Click,
    /// Enter text.
    Input,
    /// Scroll.
    Scroll,
    /// Press a key.
    KeyPress,
    /// Wait.
    Wait,
    /// Capture the page.
    Snapshot,
    /// Upload a file.
    Upload,
    /// Download a file.
    Download,
}

/// One browser action.
#[derive(Clone, Debug, PartialEq, Eq)]
pub struct BrowserAction {
    /// What to do.
    pub kind: BrowserActionKind,
    /// The origin the action is scoped to, when named.
    pub origin: Option<String>,
    /// The action's target, when named.
    pub target: Option<String>,
    /// Free detail (text to enter, key to press, ...), when given.
    pub detail: Option<String>,
}

/// The browser action kind an operation names, if it names one.
pub open spec fn browser_kind_named(op: Seq<char>) -> Option<BrowserActionKind> {
    if op == "navigate"@ {
        Some(BrowserActionKind::Navigate)
    } else if op == "click"@ {
        Some(BrowserActionKind::Click)
    } else if op == "input"@ {
        Some(BrowserActionKind::Input)
    } else if op == "scroll"@ {
        Some(BrowserActionKind::Scroll)
    } else if op == "key_press"@ {
        Some(BrowserActionKind::KeyPress)
    } else if op == "wait"@ {
        Some(BrowserActionKind::Wait)
    } else if op == "snapshot"@ {
        Some(BrowserActionKind::Snapshot)
    } else if op == "upload"@ {
        Some(BrowserActionKind::Upload)
    } else if op == "download"@ {
        Some(BrowserActionKind::Download)
    } else {
        None
    }
}

/// The detail of a browser action: the input `text` when present (as a
/// string, or nothing when it is not one), else the input `detail`.
pub open spec fn browser_detail(inputs: JsonValue) -> Option<Seq<char>> {
    match field(inputs, "text"@) {
        Some(v) => text_of(Some(v)),
        None => text_of(field(inputs, "detail"@)),
    }
}

/// Maps an action's wire form onto the browser action vocabulary: the
/// operation selects the kind (any other operation is refused); the
/// target is the action's own, the origin and detail come from its inputs.
pub fn map_browser_action(payload: &JsonValue) -> (r: Result<BrowserAction, String>)
    ensures
        ({
            let op = operation_of(*payload);
            let inputs = inputs_of(*payload);
            &&& browser_kind_named(op) is None ==> (r matches Err(reason) && reason@ == "unsupported browser operation `"@ + op + "`"@)
            &&& browser_kind_named(op) matches Some(kind) ==> {
                &&& r matches Ok(a)
                &&& a.kind == kind
                &&& opt_text(a.target) == text_of(field(*payload, "target"@))
                &&& opt_text(a.origin) == text_of(field(inputs, "origin"@))
                &&& opt_text(a.detail) == browser_detail(inputs)
            }
        }),
{
    proof {
        reveal_strlit("navigate");
        reveal_strlit("click");
        reveal_strlit("input");
        reveal_strlit("scroll");
        reveal_strlit("key_press");
        reveal_strlit("wait");
        reveal_strlit("snapshot");
        reveal_strlit("upload");
        reveal_strlit("download");
    }
    let operation = match json_text(json_field(payload, "operation")) {
        Some(s) => s,
        None => String::new(),
    };
    let op = operation.as_str();
    let kind = if strs_equal(op, "navigate") {
        BrowserActionKind::Navigate
    } else if strs_equal(op, "click") {
        BrowserActionKind::Click
    } else if strs_equal(op, "input") {
        BrowserActionKind::Input
    } else if strs_equal(op, "scroll") {
        BrowserActionKind::Scroll
    } else if strs_equal(op, "key_press") {
        BrowserActionKind::KeyPress
    } else if strs_equal(op, "wait") {
        BrowserActionKind::Wait
    } else if strs_equal(op, "snapshot") {
        BrowserActionKind::Snapshot
    } else if strs_equal(op, "upload") {
        BrowserActionKind::Upload
    } else if strs_equal(op, "download") {
        BrowserActionKind::Download
    } else {
        let mut reason = String::from_str("unsupported browser operation `");
        reason.append(op);
        reason.append("`");
        proof {
            reveal_strlit("unsupported browser operation `");
            reveal_strlit("`");
        }
        return Err(reason);
    };
    let null = JsonValue::Null;
    let inputs: &JsonValue = match json_field(payload, "inputs") {
        Some(v) => v,
        None => &null,
    };
    let target = json_text(json_field(payload, "target"));
    let origin = json_text(json_field(inputs, "origin"));
    let detail = match json_field(inputs, "text") {
        Some(v) => json_text(Some(v)),
        None => json_text(json_field(inputs, "detail")),
    };
    Ok(BrowserAction { kind, origin, target, detail })
}

} // verus!
