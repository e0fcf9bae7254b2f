use hook_events::event::Event;
use hook_events::hooks::{
    hook_from_event, HandlerOutcome, Hook, HookError, InteractiveResponse, PermissionDecision,
};
use hook_events::json::JsonValue;

fn empty() -> JsonValue {
    JsonValue::Object(vec![])
}

fn block(reason: &str) -> JsonValue {
    JsonValue::Object(vec![
        (
            "decision".to_string(),
            JsonValue::String("block".to_string()),
        ),
        (
            "reason".to_string(),
            JsonValue::String(reason.to_string()),
        ),
    ])
}

#[test]
fn test_resolve_explicit_hook_event_name() {
    let event = Event::from_json(r#"{"hook_event_name": "Stop"}"#).unwrap();
    let hook = hook_from_event(&event).unwrap();
    assert_eq!(hook.hook_type(), "Stop");
}

#[test]
fn test_resolve_subagent_stop() {
    let event = Event::from_json(r#"{"hook_event_name": "SubagentStop"}"#).unwrap();
    let hook = hook_from_event(&event).unwrap();
    assert_eq!(hook.hook_type(), "SubagentStop");
}

#[test]
fn test_resolve_normalized_opencode_event() {
    let event = Event::from_json(r#"{"event": "session.created"}"#).unwrap();
    let hook = hook_from_event(&event).unwrap();
    assert_eq!(hook.hook_type(), "SessionStart");
}

#[test]
fn test_resolution_fails_without_identity() {
    let event = Event::from_json(r#"{"event_type": "task_complete"}"#).unwrap();
    let err = hook_from_event(&event).unwrap_err();
    assert!(matches!(err, HookError::Resolution(_)));
}

#[test]
fn test_resolution_fails_for_unknown_hook_type() {
    let event = Event::from_json(r#"{"hook_event_name": "Banana"}"#).unwrap();
    let err = hook_from_event(&event).unwrap_err();
    assert!(matches!(err, HookError::Resolution(_)));
}

#[test]
fn test_pre_tool_use_construction_needs_tool_identity() {
    let event = Event::from_json(r#"{"hook_event_name": "PreToolUse"}"#).unwrap();
    let err = hook_from_event(&event).unwrap_err();
    assert!(matches!(err, HookError::Construction(_)));
}

#[test]
fn test_pre_tool_use_constructed_from_tool_name_field() {
    let event =
        Event::from_json(r#"{"hook_event_name": "PreToolUse", "tool_name": "bash"}"#).unwrap();
    let hook = hook_from_event(&event).unwrap();
    assert_eq!(hook.hook_type(), "PreToolUse");
}

#[test]
fn test_pre_tool_use_constructed_from_opencode_tool_field() {
    let event = Event::from_json(r#"{"type": "tool.execute.before", "tool": "bash"}"#).unwrap();
    let hook = hook_from_event(&event).unwrap();
    assert_eq!(hook.hook_type(), "PreToolUse");
}

#[test]
fn test_file_edited_pipeline_yields_empty_response() {
    let event = Event::from_json(r#"{"hook": "file.edited", "file": "src/main.rs"}"#).unwrap();
    let hook = hook_from_event(&event).unwrap();
    assert_eq!(hook.hook_type(), "FileEdited");
    let outcomes = vec![
        HandlerOutcome::Success,
        HandlerOutcome::Error("ignored".to_string()),
    ];
    assert_eq!(hook.generate_response(&outcomes), empty());
}

#[test]
fn test_session_error_pipeline_yields_empty_response() {
    let event = Event::from_json(r#"{"type": "session.error"}"#).unwrap();
    let hook = hook_from_event(&event).unwrap();
    assert_eq!(hook.hook_type(), "SessionError");
    assert_eq!(hook.generate_response(&[]), empty());
}

#[test]
fn test_standard_fold_empty_without_errors() {
    let event = Event::from_json(r#"{"hook_event_name": "Stop"}"#).unwrap();
    let hook = hook_from_event(&event).unwrap();
    let outcomes = vec![HandlerOutcome::Success, HandlerOutcome::Success];
    assert_eq!(hook.generate_response(&outcomes), empty());
    assert_eq!(hook.generate_response(&[]), empty());
}

#[test]
fn test_standard_fold_first_error_blocks() {
    let event = Event::from_json(r#"{"hook_event_name": "UserPromptSubmit"}"#).unwrap();
    let hook = hook_from_event(&event).unwrap();
    let outcomes = vec![
        HandlerOutcome::Success,
        HandlerOutcome::Error("first".to_string()),
        HandlerOutcome::Error("second".to_string()),
    ];
    assert_eq!(hook.generate_response(&outcomes), block("first"));
}

#[test]
fn test_permission_fold_interactive_decision_wins() {
    let event =
        Event::from_json(r#"{"hook_event_name": "PreToolUse", "tool_name": "bash"}"#).unwrap();
    let hook = hook_from_event(&event).unwrap();
    let outcomes = vec![
        HandlerOutcome::Error("late".to_string()),
        HandlerOutcome::Interactive(InteractiveResponse {
            decision: PermissionDecision::Deny,
            reason: Some("not allowed".to_string()),
        }),
    ];
    assert_eq!(
        hook.generate_response(&outcomes),
        JsonValue::Object(vec![
            (
                "decision".to_string(),
                JsonValue::String("deny".to_string()),
            ),
            (
                "reason".to_string(),
                JsonValue::String("not allowed".to_string()),
            ),
        ])
    );
}

#[test]
fn test_permission_fold_without_reason_has_single_field() {
    let event = Event::from_json(r#"{"hook_event_name": "PermissionRequest"}"#).unwrap();
    let hook = hook_from_event(&event).unwrap();
    let outcomes = vec![HandlerOutcome::Interactive(InteractiveResponse {
        decision: PermissionDecision::Ask,
        reason: None,
    })];
    assert_eq!(
        hook.generate_response(&outcomes),
        JsonValue::Object(vec![(
            "decision".to_string(),
            JsonValue::String("ask".to_string()),
        )])
    );
}

#[test]
fn test_permission_fold_falls_back_to_standard() {
    let event =
        Event::from_json(r#"{"hook_event_name": "PreToolUse", "tool_name": "bash"}"#).unwrap();
    let hook = hook_from_event(&event).unwrap();
    let outcomes = vec![HandlerOutcome::Error("no handler".to_string())];
    assert_eq!(hook.generate_response(&outcomes), block("no handler"));
}

#[test]
fn test_every_known_hook_name_constructs() {
    for name in [
        "Stop",
        "SubagentStop",
        "Notification",
        "PostToolUse",
        "PermissionRequest",
        "UserPromptSubmit",
        "SessionStart",
        "SessionEnd",
        "PreCompact",
        "FileEdited",
        "SessionError",
    ] {
        let json = format!(r#"{{"hook_event_name": "{}"}}"#, name);
        let event = Event::from_json(&json).unwrap();
        let hook = hook_from_event(&event).unwrap();
        assert_eq!(hook.hook_type(), name);
    }
}
