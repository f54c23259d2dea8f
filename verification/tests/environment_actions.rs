use codex_universal::environment::computer::{DesktopFailure, desktop_failure_detail, desktop_failure_kind};
use codex_universal::environment::browser::{BrowserAction, BrowserActionKind, map_browser_action};
use codex_universal::environment::computer::{
    ApplicationIdentity, ApplicationPlatformIdentity, KeyModifier, MouseButton, NormalizedAction, PointerTarget,
    application_from_json, application_from_resources, map_computer_action, step_failure_kind,
};
use codex_universal::environment::json::{JsonNumber, JsonValue, json_field, json_i64, json_text, json_u64};
use codex_universal::providers::bind::{ExecutionEnvironment, ResourceBinding};
use codex_universal::providers::error::FailureKind;

fn text(v: &str) -> JsonValue {
    JsonValue::Str(v.to_owned())
}

fn integer(v: u64) -> JsonValue {
    JsonValue::Number(JsonNumber::PosInt(v))
}

fn neg(v: i64) -> JsonValue {
    JsonValue::Number(JsonNumber::NegInt(v))
}

fn obj(members: Vec<(&str, JsonValue)>) -> JsonValue {
    JsonValue::Object(members.into_iter().map(|(k, v)| (k.to_owned(), v)).collect())
}

fn action(operation: &str, inputs: JsonValue) -> JsonValue {
    obj(vec![("operation", text(operation)), ("inputs", inputs)])
}

#[test]
fn json_accessors_follow_the_value_kinds() {
    let value = obj(vec![("a", integer(7)), ("b", neg(-3)), ("c", text("x")), ("d", JsonValue::Number(JsonNumber::Float))]);
    assert_eq!(json_i64(json_field(&value, "a")), Some(7));
    assert_eq!(json_u64(json_field(&value, "a")), Some(7));
    assert_eq!(json_i64(json_field(&value, "b")), Some(-3));
    assert_eq!(json_u64(json_field(&value, "b")), None);
    assert_eq!(json_i64(json_field(&value, "d")), None);
    assert_eq!(json_text(json_field(&value, "c")), Some("x".to_owned()));
    assert_eq!(json_text(json_field(&value, "a")), None);
    assert!(json_field(&value, "missing").is_none());
    assert!(json_field(&text("not an object"), "a").is_none());
    assert_eq!(json_i64(Some(&integer(u64::MAX))), None);
    assert_eq!(json_i64(Some(&integer(i64::MAX as u64))), Some(i64::MAX));
}

#[test]
fn click_reads_its_pointer_button_and_count() {
    let payload = action(
        "click",
        obj(vec![("x", integer(10)), ("y", neg(-4)), ("window_ref", text("w1")), ("button", text("right")), ("count", integer(2))]),
    );
    assert_eq!(
        map_computer_action(&payload),
        Ok(NormalizedAction::Click {
            target: PointerTarget { x: 10, y: -4, window_ref: Some("w1".to_owned()) },
            button: MouseButton::Right,
            click_count: 2,
        })
    );
    // Defaults: left button, no count, origin point.
    let bare = action("click", obj(vec![]));
    assert_eq!(
        map_computer_action(&bare),
        Ok(NormalizedAction::Click {
            target: PointerTarget { x: 0, y: 0, window_ref: None },
            button: MouseButton::Left,
            click_count: 0,
        })
    );
    // Truncation: counts and coordinates keep their low bits.
    let wide = action("click", obj(vec![("x", integer(4_294_967_297)), ("count", integer(258)), ("button", text("other"))]));
    assert_eq!(
        map_computer_action(&wide),
        Ok(NormalizedAction::Click {
            target: PointerTarget { x: 1, y: 0, window_ref: None },
            button: MouseButton::Left,
            click_count: 2,
        })
    );
}

#[test]
fn keyboard_scroll_focus_wait_and_screenshot_map_their_inputs() {
    assert_eq!(
        map_computer_action(&action("type_text", obj(vec![("text", text("hello"))]))),
        Ok(NormalizedAction::TypeText { text: "hello".to_owned() })
    );
    assert_eq!(
        map_computer_action(&action(
            "press_key",
            obj(vec![
                ("key", text("s")),
                ("modifiers", JsonValue::Array(vec![text("ctrl"), integer(3), text("shift"), text("cmd"), text("alt")])),
            ])
        )),
        Ok(NormalizedAction::PressKey {
            key: "s".to_owned(),
            modifiers: vec![KeyModifier::Ctrl, KeyModifier::Shift, KeyModifier::Meta, KeyModifier::Alt],
        })
    );
    assert_eq!(
        map_computer_action(&action("press_key", obj(vec![("modifiers", text("ctrl"))]))),
        Ok(NormalizedAction::PressKey { key: String::new(), modifiers: vec![] })
    );
    assert_eq!(
        map_computer_action(&action("scroll", obj(vec![("x", integer(5)), ("delta_y", neg(-120))]))),
        Ok(NormalizedAction::Scroll { target: PointerTarget { x: 5, y: 0, window_ref: None }, delta_y: -120 })
    );
    assert_eq!(
        map_computer_action(&action("focus_window", obj(vec![("window_ref", text("main"))]))),
        Ok(NormalizedAction::FocusWindow { window_ref: "main".to_owned() })
    );
    assert_eq!(map_computer_action(&action("screenshot", JsonValue::Null)), Ok(NormalizedAction::Screenshot));
    assert_eq!(
        map_computer_action(&action("wait", obj(vec![("millis", integer(250))]))),
        Ok(NormalizedAction::Wait { millis: 250 })
    );
    // Inputs absent altogether read as null: every default applies.
    assert_eq!(
        map_computer_action(&obj(vec![("operation", text("wait"))])),
        Ok(NormalizedAction::Wait { millis: 0 })
    );
}

#[test]
fn applications_are_named_by_bundle_binary_or_default() {
    let launch = action(
        "launch_application",
        obj(vec![("application", obj(vec![("display_name", text("Notes")), ("bundle_id", text("com.example.notes"))]))]),
    );
    assert_eq!(
        map_computer_action(&launch),
        Ok(NormalizedAction::LaunchApplication {
            application: ApplicationIdentity {
                display_name: "Notes".to_owned(),
                platform: ApplicationPlatformIdentity::MacosBundle { bundle_id: "com.example.notes".to_owned() },
            },
        })
    );
    assert_eq!(
        application_from_json(&obj(vec![("binary_name", text("gedit"))])),
        ApplicationIdentity {
            display_name: "workflow-desktop".to_owned(),
            platform: ApplicationPlatformIdentity::Generic { binary_name: Some("gedit".to_owned()) },
        }
    );
    assert_eq!(
        map_computer_action(&action("launch_application", obj(vec![]))),
        Ok(NormalizedAction::LaunchApplication {
            application: ApplicationIdentity {
                display_name: "workflow-desktop".to_owned(),
                platform: ApplicationPlatformIdentity::Generic { binary_name: None },
            },
        })
    );
    let resources = vec![
        ResourceBinding {
            resource_type: "browser_profile".to_owned(),
            resource: "profile-1".to_owned(),
            holder: ExecutionEnvironment::Browser,
        },
        ResourceBinding {
            resource_type: "desktop_session".to_owned(),
            resource: "calculator".to_owned(),
            holder: ExecutionEnvironment::Computer,
        },
    ];
    assert_eq!(
        application_from_resources(&resources),
        ApplicationIdentity {
            display_name: "calculator".to_owned(),
            platform: ApplicationPlatformIdentity::Generic { binary_name: Some("calculator".to_owned()) },
        }
    );
    assert_eq!(application_from_resources(&vec![]).display_name, "workflow-desktop");
}

#[test]
fn unknown_operations_are_refused_by_name() {
    assert_eq!(
        map_computer_action(&action("drag", JsonValue::Null)),
        Err("unsupported computer operation `drag`".to_owned())
    );
    assert_eq!(map_computer_action(&JsonValue::Null), Err("unsupported computer operation ``".to_owned()));
    assert_eq!(
        map_browser_action(&action("teleport", JsonValue::Null)),
        Err("unsupported browser operation `teleport`".to_owned())
    );
}

#[test]
fn browser_actions_read_target_origin_and_detail() {
    let payload = obj(vec![
        ("operation", text("input")),
        ("target", text("#search")),
        ("inputs", obj(vec![("origin", text("https://example.com")), ("text", text("verus")), ("detail", text("unused"))])),
    ]);
    assert_eq!(
        map_browser_action(&payload),
        Ok(BrowserAction {
            kind: BrowserActionKind::Input,
            origin: Some("https://example.com".to_owned()),
            target: Some("#search".to_owned()),
            detail: Some("verus".to_owned()),
        })
    );
    // `text` present but not a string hides `detail`.
    let shadowed = action("key_press", obj(vec![("text", integer(1)), ("detail", text("Enter"))]));
    assert_eq!(
        map_browser_action(&shadowed),
        Ok(BrowserAction { kind: BrowserActionKind::KeyPress, origin: None, target: None, detail: None })
    );
    let detailed = action("download", obj(vec![("detail", text("report.pdf"))]));
    assert_eq!(map_browser_action(&detailed).expect("download").detail, Some("report.pdf".to_owned()));
    for (name, kind) in [
        ("navigate", BrowserActionKind::Navigate),
        ("click", BrowserActionKind::Click),
        ("scroll", BrowserActionKind::Scroll),
        ("wait", BrowserActionKind::Wait),
        ("snapshot", BrowserActionKind::Snapshot),
        ("upload", BrowserActionKind::Upload),
    ] {
        assert_eq!(map_browser_action(&action(name, JsonValue::Null)).expect("mapped").kind, kind);
    }
}

#[test]
fn failed_steps_are_unavailable_only_when_the_bridge_is_lost() {
    assert_eq!(step_failure_kind("bridge lost: socket closed"), FailureKind::Unavailable);
    assert_eq!(step_failure_kind("target not found"), FailureKind::Permanent);
    assert_eq!(step_failure_kind("the bridge lost"), FailureKind::Permanent);
}

#[test]
fn desktop_failures_are_classified_and_clamped() {
    assert_eq!(desktop_failure_kind(DesktopFailure::BridgeCall), FailureKind::Unavailable);
    assert_eq!(desktop_failure_kind(DesktopFailure::TargetNotAuthorized), FailureKind::PolicyDenied);
    assert_eq!(desktop_failure_kind(DesktopFailure::SessionBusy), FailureKind::Permanent);
    assert_eq!(desktop_failure_detail("", 1024), "unspecified computer-use failure");
    assert_eq!(desktop_failure_detail("bridge lost", 1024), "bridge lost");
    assert_eq!(desktop_failure_detail("héllo", 3), "hé");
    assert_eq!(desktop_failure_detail("", 11), "unspecified");
    assert_eq!(desktop_failure_detail("héllo", 2), "h");
    assert_eq!(desktop_failure_detail("héllo", 0), "");
}
