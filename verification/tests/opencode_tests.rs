use hook_events::hooks::Hook;
use hook_events::json::JsonValue;
use hook_events::opencode::{
    detect_opencode_event_type, map_opencode_event, FileEditedHook, SessionErrorHook,
};

fn string_field(key: &str, value: &str) -> (String, JsonValue) {
    (key.to_string(), JsonValue::String(value.to_string()))
}

#[test]
fn test_map_known_opencode_events() {
    assert_eq!(
        map_opencode_event("tool.execute.before"),
        Some("PreToolUse")
    );
    assert_eq!(
        map_opencode_event("tool.execute.after"),
        Some("PostToolUse")
    );
    assert_eq!(map_opencode_event("session.idle"), Some("Stop"));
    assert_eq!(map_opencode_event("session.created"), Some("SessionStart"));
    assert_eq!(map_opencode_event("session.deleted"), Some("SessionEnd"));
    assert_eq!(map_opencode_event("session.completed"), Some("Stop"));
    assert_eq!(map_opencode_event("session.compacted"), Some("PreCompact"));
    assert_eq!(map_opencode_event("session.compacting"), Some("PreCompact"));
    assert_eq!(map_opencode_event("file.edited"), Some("FileEdited"));
    assert_eq!(map_opencode_event("session.error"), Some("SessionError"));
}

#[test]
fn test_map_unknown_event() {
    assert_eq!(map_opencode_event("unknown.event"), None);
    assert_eq!(map_opencode_event("Stop"), None);
}

#[test]
fn test_detect_opencode_event_from_type_field() {
    let data = vec![string_field("type", "tool.execute.before")];
    assert_eq!(
        detect_opencode_event_type(&data),
        Some("tool.execute.before".to_string())
    );
}

#[test]
fn test_detect_opencode_event_from_event_field() {
    let data = vec![string_field("event", "session.idle")];
    assert_eq!(
        detect_opencode_event_type(&data),
        Some("session.idle".to_string())
    );
}

#[test]
fn test_detect_opencode_event_from_hook_field() {
    let data = vec![string_field("hook", "file.edited")];
    assert_eq!(
        detect_opencode_event_type(&data),
        Some("file.edited".to_string())
    );
}

#[test]
fn test_detect_no_opencode_event_for_claude_code() {
    let data = vec![string_field("hook_event_name", "Stop")];
    assert_eq!(detect_opencode_event_type(&data), None);
}

#[test]
fn test_detect_no_opencode_event_for_unknown_dotted() {
    let data = vec![string_field("type", "unknown.thing")];
    assert_eq!(detect_opencode_event_type(&data), None);
}

#[test]
fn test_detect_priority_is_type_then_event_then_hook() {
    // Both `type` and `event` carry recognized identities: `type` wins.
    let data = vec![
        string_field("event", "session.idle"),
        string_field("type", "tool.execute.before"),
    ];
    assert_eq!(
        detect_opencode_event_type(&data),
        Some("tool.execute.before".to_string())
    );
    // An unrecognized `type` falls through to `event`.
    let data = vec![
        string_field("type", "unknown.thing"),
        string_field("event", "session.idle"),
    ];
    assert_eq!(
        detect_opencode_event_type(&data),
        Some("session.idle".to_string())
    );
}

#[test]
fn test_detect_ignores_non_string_fields() {
    let data = vec![("type".to_string(), JsonValue::Number("3".to_string()))];
    assert_eq!(detect_opencode_event_type(&data), None);
}

#[test]
fn test_file_edited_hook_response() {
    let hook = FileEditedHook;
    assert_eq!(hook.hook_type(), "FileEdited");
    assert_eq!(hook.generate_response(&[]), JsonValue::Object(vec![]));
}

#[test]
fn test_session_error_hook_response() {
    let hook = SessionErrorHook;
    assert_eq!(hook.hook_type(), "SessionError");
    assert_eq!(hook.generate_response(&[]), JsonValue::Object(vec![]));
}
