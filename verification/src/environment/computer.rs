//! The desktop environment's own decisions: reading an action's wire form
//! into the normalized desktop-action vocabulary, naming the application a
//! desktop session drives, and classifying a failed step.
//!
//! The operation vocabulary is adapter-owned: workflow semantics never
//! reference it.

use vstd::prelude::*;
use crate::environment::json::{
    JsonValue, field, i64_of, json_field, json_i64, json_text, json_u64, text_of, texts_of, u64_of,
};
use crate::providers::bind::ResourceBinding;
use crate::providers::error::{FailureKind, char_width, lemma_byte_len_grows, lemma_byte_len_step, width_of};
use crate::providers::model::opt_text;
use crate::text::{byte_len, chars_of, has_prefix, starts_with, str_byte_len, strs_equal};

verus! {

/// The adapter identity registered with the capability registry.
pub const COMPUTER_ENV_ADAPTER_ID: &'static str = "codex-computer-use-env";
/// The semantic capability this environment provides.
pub const COMPUTER_CAPABILITY: &'static str = "control_desktop_app";
/// The typed resource this environment requires before execution.
pub const DESKTOP_SESSION_RESOURCE: &'static str = "desktop_session";
/// The application a session drives when nothing names one.
pub const DEFAULT_DESKTOP_APPLICATION: &'static str = "workflow-desktop";

/// A mouse button.
#[derive(Clone, Copy, Debug, PartialEq, Eq, Structural)]
pub enum MouseButton {
    /// The primary button.
    Left,
    /// The secondary button.
    Right,
    /// The middle button.
    Middle,
}

/// A keyboard modifier.
#[derive(Clone, Copy, Debug, PartialEq, Eq, Structural)]
pub enum KeyModifier {
    /// Control.
    Ctrl,
    /// Alt / Option.
    Alt,
    /// Shift.
    Shift,
    /// Meta / Command.
    Meta,
}

/// A screen point, optionally relative to a window.
#[derive(Clone, Debug, PartialEq, Eq)]
pub struct PointerTarget {
    /// Horizontal coordinate.
    pub x: i32,
    /// Vertical coordinate.
    pub y: i32,
    /// The window the point is relative to, when any.
    pub window_ref: Option<String>,
}

/// How a desktop application is identified on its platform.
#[derive(Clone, Debug, PartialEq, Eq)]
pub enum ApplicationPlatformIdentity {
    /// A macOS bundle.
    MacosBundle {
        /// The bundle identifier.
        bundle_id: String,
    },
    /// Any other platform, optionally by binary name.
    Generic {
        /// The binary name, when known.
        binary_name: Option<String>,
    },
}

/// A desktop application.
#[derive(Clone, Debug, PartialEq, Eq)]
pub struct ApplicationIdentity {
    /// The application's display name.
    pub display_name: String,
    /// Its platform identity.
    pub platform: ApplicationPlatformIdentity,
}

/// One normalized desktop action.
#[derive(Clone, Debug, PartialEq, Eq)]
pub enum NormalizedAction {
    /// Click at a point.
    Click {
        /// Where to click.
        target: PointerTarget,
        /// Which button.
        button: MouseButton,
        /// How many clicks.
        click_count: u8,
    },
    /// Type text.
    TypeText {
        /// The text.
        text: String,
    },
    /// Press a key with modifiers.
    PressKey {
        /// The key.
        key: String,
        /// The modifiers held.
        modifiers: Vec<KeyModifier>,
    },
    /// Scroll at a point.
    Scroll {
        /// Where to scroll.
        target: PointerTarget,
        /// Vertical scroll amount.
        delta_y: i32,
    },
    /// Focus a window.
    FocusWindow {
        /// The window.
        window_ref: String,
    },
    /// Launch an application.
    LaunchApplication {
        /// The application.
        application: ApplicationIdentity,
    },
    /// Capture the screen.
    Screenshot,
    /// Wait.
    Wait {
        /// How long, in milliseconds.
        millis: u64,
    },
}

/// The characters of an optional text, or nothing.
pub open spec fn text_or_empty(t: Option<Seq<char>>) -> Seq<char> {
    match t {
        Some(s) => s,
        None => Seq::empty(),
    }
}

/// An optional integer, or zero.
pub open spec fn i64_or_zero(v: Option<i64>) -> i64 {
    match v {
        Some(i) => i,
        None => 0,
    }
}

/// An optional integer, or zero.
pub open spec fn u64_or_zero(v: Option<u64>) -> u64 {
    match v {
        Some(u) => u,
        None => 0,
    }
}

/// The operation an action's wire form names (empty when it names none).
pub open spec fn operation_of(payload: JsonValue) -> Seq<char> {
    text_or_empty(text_of(field(payload, "operation"@)))
}

/// The inputs of an action's wire form (`null` when it has none).
pub open spec fn inputs_of(payload: JsonValue) -> JsonValue {
    match field(payload, "inputs"@) {
        Some(v) => v,
        None => JsonValue::Null,
    }
}

/// The pointer target the inputs name: `x` and `y` (integers, zero when
/// absent, truncated to 32 bits) and an optional `window_ref`.
pub open spec fn pointer_of(t: PointerTarget, inputs: JsonValue) -> bool {
    &&& t.x == i64_or_zero(i64_of(field(inputs, "x"@))) as i32
    &&& t.y == i64_or_zero(i64_of(field(inputs, "y"@))) as i32
    &&& opt_text(t.window_ref) == text_of(field(inputs, "window_ref"@))
}

/// The button a name selects: `right`, `middle`, and `left` otherwise
/// (also when no name is given).
pub open spec fn button_named(name: Option<Seq<char>>) -> MouseButton {
    match name {
        Some(n) => if n == "right"@ {
            MouseButton::Right
        } else if n == "middle"@ {
            MouseButton::Middle
        } else {
            MouseButton::Left
        },
        None => MouseButton::Left,
    }
}

/// The modifier a name selects: `ctrl`, `alt`, `shift`, and `meta`
/// otherwise.
pub open spec fn modifier_named(name: Seq<char>) -> KeyModifier {
    if name == "ctrl"@ {
        KeyModifier::Ctrl
    } else if name == "alt"@ {
        KeyModifier::Alt
    } else if name == "shift"@ {
        KeyModifier::Shift
    } else {
        KeyModifier::Meta
    }
}

/// The modifiers an input value names: the string elements of an array,
/// in order; none for anything else.
pub open spec fn modifiers_of(value: Option<JsonValue>) -> Seq<KeyModifier> {
    match value {
        Some(JsonValue::Array(items)) => texts_of(items@).map_values(|n: Seq<char>| modifier_named(n)),
        _ => Seq::empty(),
    }
}

/// The application an input object names: its `display_name` (default
/// `workflow-desktop`), and a macOS bundle when it names a `bundle_id`,
/// else a generic platform with its optional `binary_name`.
pub open spec fn application_of(a: ApplicationIdentity, value: JsonValue) -> bool {
    &&& a.display_name@ == match text_of(field(value, "display_name"@)) {
        Some(n) => n,
        None => "workflow-desktop"@,
    }
    &&& match text_of(field(value, "bundle_id"@)) {
        Some(b) => a.platform matches ApplicationPlatformIdentity::MacosBundle { bundle_id } && bundle_id@ == b,
        None => a.platform matches ApplicationPlatformIdentity::Generic { binary_name } && opt_text(binary_name) == text_of(
            field(value, "binary_name"@),
        ),
    }
}

/// The normalized desktop action an action's wire form reads as, or the
/// refusal of an operation outside the vocabulary.
pub open spec fn computer_action_of(payload: JsonValue, r: Result<NormalizedAction, String>) -> bool {
    let op = operation_of(payload);
    let inputs = inputs_of(payload);
    if op == "click"@ {
        r matches Ok(NormalizedAction::Click { target, button, click_count }) && pointer_of(target, inputs) && button
            == button_named(text_of(field(inputs, "button"@))) && click_count == u64_or_zero(u64_of(field(inputs, "count"@))) as u8
    } else if op == "type_text"@ {
        r matches Ok(NormalizedAction::TypeText { text }) && text@ == text_or_empty(text_of(field(inputs, "text"@)))
    } else if op == "press_key"@ {
        r matches Ok(NormalizedAction::PressKey { key, modifiers }) && key@ == text_or_empty(text_of(field(inputs, "key"@)))
            && modifiers@ == modifiers_of(field(inputs, "modifiers"@))
    } else if op == "scroll"@ {
        r matches Ok(NormalizedAction::Scroll { target, delta_y }) && pointer_of(target, inputs) && delta_y == i64_or_zero(
            i64_of(field(inputs, "delta_y"@)),
        ) as i32
    } else if op == "focus_window"@ {
        r matches Ok(NormalizedAction::FocusWindow { window_ref }) && window_ref@ == text_or_empty(
            text_of(field(inputs, "window_ref"@)),
        )
    } else if op == "launch_application"@ {
        r matches Ok(NormalizedAction::LaunchApplication { application }) && match field(inputs, "application"@) {
            Some(value) => application_of(application, value),
            None => application.display_name@ == "workflow-desktop"@ && application.platform
                == ApplicationPlatformIdentity::Generic { binary_name: None },
        }
    } else if op == "screenshot"@ {
        r matches Ok(NormalizedAction::Screenshot)
    } else if op == "wait"@ {
        r matches Ok(NormalizedAction::Wait { millis }) && millis == u64_or_zero(u64_of(field(inputs, "millis"@)))
    } else {
        r matches Err(reason) && reason@ == "unsupported computer operation `"@ + op + "`"@
    }
}

/// A click names its button by text: `middle` gives the middle button and
/// `right` the right one; any other name, and no name at all, gives the
/// left button.
pub proof fn lemma_click_button(payload: JsonValue, r: Result<NormalizedAction, String>)
    requires
        computer_action_of(payload, r),
        operation_of(payload) == "click"@,
    ensures
        r matches Ok(NormalizedAction::Click { button, .. }) && {
            let name = text_of(field(inputs_of(payload), "button"@));
            &&& name == Some("middle"@) ==> button == MouseButton::Middle
            &&& name == Some("right"@) ==> button == MouseButton::Right
            &&& (name != Some("middle"@) && name != Some("right"@)) ==> button == MouseButton::Left
        },
{
    reveal_strlit("middle");
    reveal_strlit("right");
    assert("middle"@ != "right"@) by {
        assert("middle"@[0] != "right"@[0]);
    }
}

/// The operations of the desktop vocabulary.
pub open spec fn desktop_operation(op: Seq<char>) -> bool {
    ||| op == "click"@
    ||| op == "type_text"@
    ||| op == "press_key"@
    ||| op == "scroll"@
    ||| op == "focus_window"@
    ||| op == "launch_application"@
    ||| op == "screenshot"@
    ||| op == "wait"@
}

/// An action maps exactly when its operation belongs to the desktop
/// vocabulary; any other operation is refused, and the refusal names it.
pub proof fn lemma_only_vocabulary_operations_map(payload: JsonValue, r: Result<NormalizedAction, String>)
    requires
        computer_action_of(payload, r),
    ensures
        r is Ok <==> desktop_operation(operation_of(payload)),
        r matches Err(reason) ==> reason@ == "unsupported computer operation `"@ + operation_of(payload) + "`"@,
{
}

fn text_or_default(value: Option<&JsonValue>) -> (r: String)
    ensures
        r@ == text_or_empty(text_of(crate::environment::json::opt_value(value))),
{
    match json_text(value) {
        Some(s) => s,
        None => String::new(),
    }
}

fn pointer(inputs: &JsonValue) -> (t: PointerTarget)
    ensures
        pointer_of(t, *inputs),
{
    let x = match json_i64(json_field(inputs, "x")) {
        Some(v) => v,
        None => 0,
    };
    let y = match json_i64(json_field(inputs, "y")) {
        Some(v) => v,
        None => 0,
    };
    PointerTarget { x: #[verifier::truncate] (x as i32), y: #[verifier::truncate] (y as i32), window_ref: json_text(json_field(inputs, "window_ref")) }
}

fn modifiers(value: Option<&JsonValue>) -> (r: Vec<KeyModifier>)
    ensures
        r@ == modifiers_of(crate::environment::json::opt_value(value)),
{
    let mut out: Vec<KeyModifier> = Vec::new();
    match value {
        Some(JsonValue::Array(items)) => {
            let mut i: usize = 0;
            while i < items.len()
                invariant
                    i <= items@.len(),
                    out@ == texts_of(items@.take(i as int)).map_values(|n: Seq<char>| modifier_named(n)),
                decreases items@.len() - i,
            {
                assert(items@.take(i + 1).drop_last() =~= items@.take(i as int));
                match &items[i] {
                    JsonValue::Str(name) => {
                        let m = if strs_equal(name.as_str(), "ctrl") {
                            KeyModifier::Ctrl
                        } else if strs_equal(name.as_str(), "alt") {
                            KeyModifier::Alt
                        } else if strs_equal(name.as_str(), "shift") {
                            KeyModifier::Shift
                        } else {
                            KeyModifier::Meta
                        };
                        out.push(m);
                        assert(out@ =~= texts_of(items@.take(i + 1)).map_values(|n: Seq<char>| modifier_named(n)));
                    },
                    _ => {},
                }
                i += 1;
            }
            assert(items@.take(items@.len() as int) =~= items@);
        },
        _ => {},
    }
    out
}

/// Builds an application identity from an input object: its
/// `display_name` (default `workflow-desktop`), and a macOS bundle when it
/// names a `bundle_id`, else a generic platform with its optional
/// `binary_name`.
pub fn application_from_json(value: &JsonValue) -> (a: ApplicationIdentity)
    ensures
        application_of(a, *value),
{
    proof {
        reveal_strlit("workflow-desktop");
    }
    let display_name = match json_text(json_field(value, "display_name")) {
        Some(n) => n,
        None => String::from_str(DEFAULT_DESKTOP_APPLICATION),
    };
    let platform = match json_text(json_field(value, "bundle_id")) {
        Some(bundle_id) => ApplicationPlatformIdentity::MacosBundle { bundle_id },
        None => ApplicationPlatformIdentity::Generic { binary_name: json_text(json_field(value, "binary_name")) },
    };
    ApplicationIdentity { display_name, platform }
}

/// Maps an action's wire form onto the normalized desktop-action
/// vocabulary: `click`, `type_text`, `press_key`, `scroll`,
/// `focus_window`, `launch_application`, `screenshot` and `wait`, each
/// reading its inputs with defaults for what is absent; any other
/// operation is refused.
pub fn map_computer_action(payload: &JsonValue) -> (r: Result<NormalizedAction, String>)
    ensures
        computer_action_of(*payload, r),
{
    proof {
        reveal_strlit("click");
        reveal_strlit("type_text");
        reveal_strlit("press_key");
        reveal_strlit("scroll");
        reveal_strlit("focus_window");
        reveal_strlit("launch_application");
        reveal_strlit("screenshot");
        reveal_strlit("wait");
        reveal_strlit("right");
        reveal_strlit("middle");
        reveal_strlit("workflow-desktop");
    }
    let operation = text_or_default(json_field(payload, "operation"));
    let null = JsonValue::Null;
    let inputs: &JsonValue = match json_field(payload, "inputs") {
        Some(v) => v,
        None => &null,
    };
    let op = operation.as_str();
    if strs_equal(op, "click") {
        let button = match json_text(json_field(inputs, "button")) {
            Some(name) => if strs_equal(name.as_str(), "right") {
                MouseButton::Right
            } else if strs_equal(name.as_str(), "middle") {
                MouseButton::Middle
            } else {
                MouseButton::Left
            },
            None => MouseButton::Left,
        };
        let count = match json_u64(json_field(inputs, "count")) {
            Some(c) => c,
            None => 0,
        };
        Ok(NormalizedAction::Click { target: pointer(inputs), button, click_count: #[verifier::truncate] (count as u8) })
    } else if strs_equal(op, "type_text") {
        Ok(NormalizedAction::TypeText { text: text_or_default(json_field(inputs, "text")) })
    } else if strs_equal(op, "press_key") {
        Ok(NormalizedAction::PressKey {
            key: text_or_default(json_field(inputs, "key")),
            modifiers: modifiers(json_field(inputs, "modifiers")),
        })
    } else if strs_equal(op, "scroll") {
        let delta = match json_i64(json_field(inputs, "delta_y")) {
            Some(d) => d,
            None => 0,
        };
        Ok(NormalizedAction::Scroll { target: pointer(inputs), delta_y: #[verifier::truncate] (delta as i32) })
    } else if strs_equal(op, "focus_window") {
        Ok(NormalizedAction::FocusWindow { window_ref: text_or_default(json_field(inputs, "window_ref")) })
    } else if strs_equal(op, "launch_application") {
        let application = match json_field(inputs, "application") {
            Some(value) => application_from_json(value),
            None => ApplicationIdentity {
                display_name: String::from_str(DEFAULT_DESKTOP_APPLICATION),
                platform: ApplicationPlatformIdentity::Generic { binary_name: None },
            },
        };
        Ok(NormalizedAction::LaunchApplication { application })
    } else if strs_equal(op, "screenshot") {
        Ok(NormalizedAction::Screenshot)
    } else if strs_equal(op, "wait") {
        let millis = match json_u64(json_field(inputs, "millis")) {
            Some(m) => m,
            None => 0,
        };
        Ok(NormalizedAction::Wait { millis })
    } else {
        let mut reason = String::from_str("unsupported computer operation `");
        reason.append(op);
        reason.append("`");
        proof {
            reveal_strlit("unsupported computer operation `");
            reveal_strlit("`");
        }
        Err(reason)
    }
}

/// The resource a desktop session names: that of the first
/// `desktop_session` binding, if any.
pub open spec fn desktop_session_of(resources: Seq<ResourceBinding>) -> Option<Seq<char>>
    decreases resources.len(),
{
    if resources.len() == 0 {
        None
    } else if resources[0].resource_type@ == "desktop_session"@ {
        Some(resources[0].resource@)
    } else {
        desktop_session_of(resources.drop_first())
    }
}

/// The desktop application the attached `desktop_session` resource names
/// (the first one), on a generic platform under the same binary name;
/// `workflow-desktop` when no such resource is attached.
pub fn application_from_resources(resources: &Vec<ResourceBinding>) -> (a: ApplicationIdentity)
    ensures
        ({
            let name = match desktop_session_of(resources@) {
                Some(n) => n,
                None => "workflow-desktop"@,
            };
            &&& a.display_name@ == name
            &&& a.platform matches ApplicationPlatformIdentity::Generic { binary_name }
            &&& binary_name matches Some(b) && b@ == name
        }),
{
    proof {
        reveal_strlit("desktop_session");
        reveal_strlit("workflow-desktop");
    }
    let mut i: usize = 0;
    assert(resources@.subrange(0, resources@.len() as int) =~= resources@);
    while i < resources.len()
        invariant
            i <= resources@.len(),
            desktop_session_of(resources@) == desktop_session_of(resources@.subrange(i as int, resources@.len() as int)),
        decreases resources@.len() - i,
    {
        let ghost rest = resources@.subrange(i as int, resources@.len() as int);
        assert(rest.drop_first() =~= resources@.subrange(i + 1, resources@.len() as int));
        assert(rest[0] == resources@[i as int]);
        if strs_equal(resources[i].resource_type.as_str(), DESKTOP_SESSION_RESOURCE) {
            let name = resources[i].resource.clone();
            return ApplicationIdentity {
                display_name: name.clone(),
                platform: ApplicationPlatformIdentity::Generic { binary_name: Some(name) },
            };
        }
        i += 1;
    }
    assert(resources@.subrange(i as int, resources@.len() as int).len() == 0);
    let name = String::from_str(DEFAULT_DESKTOP_APPLICATION);
    ApplicationIdentity { display_name: name.clone(), platform: ApplicationPlatformIdentity::Generic { binary_name: Some(name) } }
}

/// The failure family of a desktop step that failed with `reason`: a lost
/// bridge makes the environment unavailable, anything else is permanent.
pub fn step_failure_kind(reason: &str) -> (k: FailureKind)
    ensures
        k == if has_prefix(reason@, "bridge lost"@) {
            FailureKind::Unavailable
        } else {
            FailureKind::Permanent
        },
{
    if starts_with(reason, "bridge lost") {
        FailureKind::Unavailable
    } else {
        FailureKind::Permanent
    }
}

/// How the desktop adapter failed, as its failure families tell apart.
#[derive(Clone, Copy, Debug, PartialEq, Eq, Structural)]
pub enum DesktopFailure {
    /// The desktop bridge was not ready.
    Readiness,
    /// A call across the desktop bridge failed.
    BridgeCall,
    /// The desktop policy denied the action.
    PolicyDenied,
    /// The action needs an authorization first.
    AuthorizationRequired,
    /// The target application is not authorized.
    TargetNotAuthorized,
    /// The session lifecycle refused the transition.
    InvalidLifecycleTransition,
    /// Another owner holds the session.
    OwnerMismatch,
    /// The session is busy.
    SessionBusy,
    /// The session is in the wrong lifecycle state.
    WrongLifecycleState,
    /// A fallback was rejected.
    FallbackRejected,
    /// A takeover needs a reason.
    TakeoverReasonRequired,
    /// The takeover policy denied the takeover.
    TakeoverPolicyDenied,
}

/// The failure family of a desktop adapter failure: an unready or broken
/// bridge makes the environment unavailable, a policy or authorization
/// refusal is a policy denial, anything else is permanent.
pub open spec fn desktop_failure_family(f: DesktopFailure) -> FailureKind {
    match f {
        DesktopFailure::Readiness | DesktopFailure::BridgeCall => FailureKind::Unavailable,
        DesktopFailure::PolicyDenied | DesktopFailure::AuthorizationRequired | DesktopFailure::TargetNotAuthorized => FailureKind::PolicyDenied,
        _ => FailureKind::Permanent,
    }
}

/// The failure family of a desktop adapter failure.
pub fn desktop_failure_kind(f: DesktopFailure) -> (k: FailureKind)
    ensures
        k == desktop_failure_family(f),
{
    match f {
        DesktopFailure::Readiness | DesktopFailure::BridgeCall => FailureKind::Unavailable,
        DesktopFailure::PolicyDenied | DesktopFailure::AuthorizationRequired | DesktopFailure::TargetNotAuthorized => FailureKind::PolicyDenied,
        _ => FailureKind::Permanent,
    }
}

/// The detail a desktop failure reports for `message`: the message, or a
/// fixed text when it is empty.
pub open spec fn desktop_message(message: Seq<char>) -> Seq<char> {
    if message.len() == 0 {
        "unspecified computer-use failure"@
    } else {
        message
    }
}

/// The detail of a desktop failure: never empty, and when longer than
/// `max` bytes cut at the last character boundary at or below `max` (the
/// adapter clamps rather than failing, so no diagnostic is lost): the
/// longest prefix of the detail that fits.
pub fn desktop_failure_detail(message: &str, max: usize) -> (r: String)
    ensures
        byte_len(desktop_message(message@)) <= max ==> r@ == desktop_message(message@),
        exists|k: int| {
            &&& 0 <= k <= desktop_message(message@).len()
            &&& r@ == #[trigger] desktop_message(message@).take(k)
            &&& byte_len(r@) <= max
            &&& (k == desktop_message(message@).len() || byte_len(desktop_message(message@).take(k + 1)) > max)
        },
{
    let text: &str = if message.is_empty() { "unspecified computer-use failure" } else { message };
    proof {
        reveal_strlit("unspecified computer-use failure");
    }
    assert(text@ == desktop_message(message@));
    let ghost m = text@;
    if str_byte_len(text) <= max {
        assert(m.take(m.len() as int) =~= m);
        let whole = String::from_str(text);
        assert(whole@ == desktop_message(message@).take(m.len() as int));
        return whole;
    }
    let cs = chars_of(text);
    let mut i: usize = 0;
    let mut used: usize = 0;
    assert(m.take(0) =~= Seq::<char>::empty());
    loop
        invariant_except_break
            cs@ == m,
            i <= m.len(),
            used == byte_len(m.take(i as int)),
            used <= max,
        ensures
            cs@ == m,
            i <= m.len(),
            used == byte_len(m.take(i as int)),
            used <= max,
            i == m.len() || byte_len(m.take(i + 1)) > max,
        decreases m.len() - i,
    {
        if i >= cs.len() {
            break;
        }
        proof {
            lemma_byte_len_step(m, i as int);
        }
        let w = width_of(cs[i]);
        if w > max - used {
            break;
        }
        used = used + w;
        i += 1;
    }
    let cut = text.substring_char(0, i);
    assert(cut@ =~= m.take(i as int));
    let r = String::from_str(cut);
    assert(r@ == desktop_message(message@).take(i as int));
    r
}

} // verus!
