use hook_events::event::{normalize_fields, Event};
use hook_events::json::JsonValue;

#[test]
fn test_parse_event() {
    let json = r#"{"event_type": "task_complete", "status": "success"}"#;
    let event = Event::from_json(json).unwrap();
    assert_eq!(event.get_str("event_type"), Some("task_complete"));
    assert_eq!(event.get_str("status"), Some("success"));
}

#[test]
fn test_nested_access() {
    let json = r#"{"tool": {"name": "bash", "status": "success"}}"#;
    let event = Event::from_json(json).unwrap();
    assert_eq!(event.get_nested_str("tool.name"), Some("bash".to_string()));
}

#[test]
fn test_invalid_json() {
    let json = r#"{"invalid": }"#;
    assert!(Event::from_json(json).is_err());
}

#[test]
fn test_opencode_event_normalization() {
    // OpenCode event with "type" field should get hook_event_name injected
    let json = r#"{"type": "tool.execute.before", "tool": "bash"}"#;
    let event = Event::from_json(json).unwrap();
    assert_eq!(event.get_str("hook_event_name"), Some("PreToolUse"));
    // Original fields are preserved
    assert_eq!(event.get_str("tool"), Some("bash"));
}

#[test]
fn test_opencode_session_idle_normalization() {
    let json = r#"{"event": "session.idle", "sessionID": "abc123"}"#;
    let event = Event::from_json(json).unwrap();
    assert_eq!(event.get_str("hook_event_name"), Some("Stop"));
    assert_eq!(event.get_str("sessionID"), Some("abc123"));
}

#[test]
fn test_opencode_file_edited_normalization() {
    let json = r#"{"hook": "file.edited", "file": "src/main.rs"}"#;
    let event = Event::from_json(json).unwrap();
    assert_eq!(event.get_str("hook_event_name"), Some("FileEdited"));
}

#[test]
fn test_claude_code_event_not_renormalized() {
    // Events with an existing hook_event_name should not be modified
    let json = r#"{"hook_event_name": "Stop", "type": "something"}"#;
    let event = Event::from_json(json).unwrap();
    assert_eq!(event.get_str("hook_event_name"), Some("Stop"));
}

#[test]
fn test_unknown_event_no_normalization() {
    // Unknown events should not get hook_event_name injected
    let json = r#"{"type": "unknown.thing", "data": "test"}"#;
    let event = Event::from_json(json).unwrap();
    assert_eq!(event.get_str("hook_event_name"), None);
}

#[test]
fn test_unrecognized_identity_leaves_event_untagged() {
    let json = r#"{"event_type": "task_complete", "status": "success"}"#;
    let event = Event::from_json(json).unwrap();
    assert_eq!(event.get_str("hook_event_name"), None);
    assert_eq!(event.get_str("status"), Some("success"));
}

#[test]
fn test_non_object_top_level_fails() {
    assert!(Event::from_json("[1, 2, 3]").is_err());
    assert!(Event::from_json("\"just a string\"").is_err());
    assert!(Event::from_json("42").is_err());
}

#[test]
fn test_parse_error_message_has_content() {
    let err = Event::from_json(r#"{"invalid": }"#).unwrap_err();
    assert!(!err.message.is_empty());
}

#[test]
fn test_nested_access_missing_intermediate_segment() {
    let json = r#"{"tool": {"name": "bash"}}"#;
    let event = Event::from_json(json).unwrap();
    assert_eq!(event.get_nested_str("tool.missing.deep"), None);
    assert_eq!(event.get_nested_str("absent.name"), None);
}

#[test]
fn test_nested_access_non_navigable_segment() {
    // Walking below a number or a string is absence, not an error
    let json = r#"{"count": 7, "tool": "bash"}"#;
    let event = Event::from_json(json).unwrap();
    assert_eq!(event.get_nested_str("count.x"), None);
    assert_eq!(event.get_nested_str("tool.name"), None);
    // A single segment still reads a top-level string
    assert_eq!(event.get_nested_str("tool"), Some("bash".to_string()));
}

#[test]
fn test_normalization_idempotent_on_normalized_event() {
    let json = r#"{"event": "session.idle", "sessionID": "abc123"}"#;
    let once = Event::from_json(json).unwrap();
    let mut again = Event::from_json(json).unwrap().data;
    normalize_fields(&mut again);
    assert_eq!(again, once.data);
}

#[test]
fn test_as_value_materializes_object() {
    let json = r#"{"status": "success"}"#;
    let event = Event::from_json(json).unwrap();
    let value = event.as_value();
    assert_eq!(
        value,
        JsonValue::Object(vec![(
            "status".to_string(),
            JsonValue::String("success".to_string())
        )])
    );
}

#[test]
fn test_number_fields_keep_their_text() {
    let json = r#"{"count": 42}"#;
    let event = Event::from_json(json).unwrap();
    assert_eq!(
        event.as_value(),
        JsonValue::Object(vec![(
            "count".to_string(),
            JsonValue::Number("42".to_string())
        )])
    );
}
