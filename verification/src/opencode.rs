//! OpenCode event normalization: the closed table from dotted vendor event
//! names to internal hook type names, and the detection of such an identity
//! among the fields of an event.
//!
//! | OpenCode event          | Internal hook type |
//! |-------------------------|--------------------|
//! | `tool.execute.before`   | `PreToolUse`       |
//! | `tool.execute.after`    | `PostToolUse`      |
//! | `session.idle`          | `Stop`             |
//! | `session.created`       | `SessionStart`     |
//! | `session.deleted`       | `SessionEnd`       |
//! | `session.completed`     | `Stop`             |
//! | `session.compacted`     | `PreCompact`       |
//! | `session.compacting`    | `PreCompact`       |
//! | `file.edited`           | `FileEdited`       |
//! | `session.error`         | `SessionError`     |

use vstd::prelude::*;

use crate::hooks::{empty_object, is_empty_object, HandlerOutcome, Hook};
use crate::json::{
    as_str_spec, contains_dot, field_str, has_dot, lookup, lookup_spec, str_eq, JsonValue,
};

verus! {

/// The internal hook type name a dotted vendor identity maps to, `None` for
/// anything outside the closed table.
pub open spec fn map_event_spec(s: Seq<char>) -> Option<Seq<char>> {
    if s == "tool.execute.before"@ {
        Some("PreToolUse"@)
    } else if s == "tool.execute.after"@ {
        Some("PostToolUse"@)
    } else if s == "session.idle"@ {
        Some("Stop"@)
    } else if s == "session.created"@ {
        Some("SessionStart"@)
    } else if s == "session.deleted"@ {
        Some("SessionEnd"@)
    } else if s == "session.completed"@ {
        Some("Stop"@)
    } else if s == "session.compacted"@ {
        Some("PreCompact"@)
    } else if s == "session.compacting"@ {
        Some("PreCompact"@)
    } else if s == "file.edited"@ {
        Some("FileEdited"@)
    } else if s == "session.error"@ {
        Some("SessionError"@)
    } else {
        None
    }
}

/// Maps an OpenCode event type string to the equivalent internal hook name.
///
/// Returns `None` if the event type is not a recognized OpenCode event.
pub fn map_opencode_event(event_type: &str) -> (r: Option<&'static str>)
    ensures
        match r {
            Some(m) => map_event_spec(event_type@) == Some(m@),
            None => map_event_spec(event_type@) is None,
        },
{
    if str_eq(event_type, "tool.execute.before") {
        Some("PreToolUse")
    } else if str_eq(event_type, "tool.execute.after") {
        Some("PostToolUse")
    } else if str_eq(event_type, "session.idle") {
        Some("Stop")
    } else if str_eq(event_type, "session.created") {
        Some("SessionStart")
    } else if str_eq(event_type, "session.deleted") {
        Some("SessionEnd")
    } else if str_eq(event_type, "session.completed") {
        Some("Stop")
    } else if str_eq(event_type, "session.compacted") {
        Some("PreCompact")
    } else if str_eq(event_type, "session.compacting") {
        Some("PreCompact")
    } else if str_eq(event_type, "file.edited") {
        Some("FileEdited")
    } else if str_eq(event_type, "session.error") {
        Some("SessionError")
    } else {
        None
    }
}

/// Is the value of `key` a dotted string with a known vendor mapping?
pub open spec fn candidate(fields: Seq<(String, JsonValue)>, key: Seq<char>) -> bool {
    match field_str(fields, key) {
        Some(s) => has_dot(s) && map_event_spec(s) is Some,
        None => false,
    }
}

/// The vendor identity an event's fields carry: the value of the first of
/// `type`, `event`, `hook` (in that fixed priority order) that holds a dotted
/// string with a known mapping.
pub open spec fn detect_spec(fields: Seq<(String, JsonValue)>) -> Option<Seq<char>> {
    if candidate(fields, "type"@) {
        field_str(fields, "type"@)
    } else if candidate(fields, "event"@) {
        field_str(fields, "event"@)
    } else if candidate(fields, "hook"@) {
        field_str(fields, "hook"@)
    } else {
        None
    }
}

/// The value of `key` when it is a dotted string with a known mapping.
fn dotted_mapped_field(data: &Vec<(String, JsonValue)>, key: &str) -> (r: Option<String>)
    ensures
        match r {
            Some(s) => candidate(data@, key@) && field_str(data@, key@) == Some(s@),
            None => !candidate(data@, key@),
        },
{
    match lookup(data, key) {
        Some(v) => match v {
            JsonValue::String(s) => {
                if contains_dot(s.as_str()) && map_opencode_event(s.as_str()).is_some() {
                    Some(s.clone())
                } else {
                    None
                }
            },
            _ => None,
        },
        None => None,
    }
}

/// Detects whether the fields describe an OpenCode event, by scanning the
/// known identity fields in their fixed priority order.
///
/// OpenCode events carry a `type`, `event` or `hook` field with dotted
/// notation (e.g. `tool.execute.before`); events that already speak the
/// internal vocabulary carry `hook_event_name` instead.
pub fn detect_opencode_event_type(data: &Vec<(String, JsonValue)>) -> (r: Option<String>)
    ensures
        match r {
            Some(s) => detect_spec(data@) == Some(s@),
            None => detect_spec(data@) is None,
        },
{
    match dotted_mapped_field(data, "type") {
        Some(s) => Some(s),
        None => match dotted_mapped_field(data, "event") {
            Some(s) => Some(s),
            None => match dotted_mapped_field(data, "hook") {
                Some(s) => Some(s),
                None => None,
            },
        },
    }
}

/// Handler for `FileEdited` hooks (OpenCode-only).
///
/// Fires when a file has been edited. The event is passive observation: the
/// reply is `{}` whatever the outcomes.
#[derive(Debug)]
pub struct FileEditedHook;

impl Hook for FileEditedHook {
    open spec fn hook_type_spec(&self) -> Seq<char> {
        "FileEdited"@
    }

    open spec fn response_spec(&self, outcomes: Seq<HandlerOutcome>, r: JsonValue) -> bool {
        is_empty_object(r)
    }

    fn hook_type(&self) -> (r: &str) {
        "FileEdited"
    }

    fn generate_response(&self, outcomes: &[HandlerOutcome]) -> (r: JsonValue) {
        empty_object()
    }
}

/// Handler for `SessionError` hooks (OpenCode-only).
///
/// Fires when a session encounters an error. The event is passive
/// observation: the reply is `{}` whatever the outcomes.
#[derive(Debug)]
pub struct SessionErrorHook;

impl Hook for SessionErrorHook {
    open spec fn hook_type_spec(&self) -> Seq<char> {
        "SessionError"@
    }

    open spec fn response_spec(&self, outcomes: Seq<HandlerOutcome>, r: JsonValue) -> bool {
        is_empty_object(r)
    }

    fn hook_type(&self) -> (r: &str) {
        "SessionError"
    }

    fn generate_response(&self, outcomes: &[HandlerOutcome]) -> (r: JsonValue) {
        empty_object()
    }
}

} // verus!
