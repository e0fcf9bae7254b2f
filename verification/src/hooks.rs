//! The hook abstraction: handler outcomes, reply shapes, and the closed set
//! of hook variants with their resolution from an event.

use vstd::prelude::*;
use vstd::string::StringExecFns;

use crate::event::{event_name_key, normalized_from, Event};
use crate::json::{as_str_spec, field_str, has_key, lemma_lookup_push, str_eq, JsonValue};
use crate::opencode::{
    detect_opencode_event_type, detect_spec, map_event_spec, map_opencode_event, FileEditedHook,
    SessionErrorHook,
};

verus! {

/// Outcome reported by one executed handler.
#[derive(Debug, Clone)]
pub enum HandlerOutcome {
    /// The handler succeeded.
    Success,
    /// The handler failed with an error message.
    Error(String),
    /// The handler asks for a user-facing decision (permission-style hooks).
    Interactive(InteractiveResponse),
}

/// Interactive response from a handler, for permission-style hooks.
#[derive(Debug, Clone)]
pub struct InteractiveResponse {
    pub decision: PermissionDecision,
    pub reason: Option<String>,
}

/// Permission decision for tool use.
#[derive(Debug, Clone)]
pub enum PermissionDecision {
    Allow,
    Deny,
    Ask,
}

/// The reply `{}`.
pub open spec fn is_empty_object(v: JsonValue) -> bool {
    match v {
        JsonValue::Object(fields) => fields@.len() == 0,
        _ => false,
    }
}

/// The message of the first `Error` outcome, in sequence order.
pub open spec fn first_error(outcomes: Seq<HandlerOutcome>) -> Option<Seq<char>>
    decreases outcomes.len(),
{
    if outcomes.len() == 0 {
        None
    } else {
        match outcomes[0] {
            HandlerOutcome::Error(m) => Some(m@),
            _ => first_error(outcomes.drop_first()),
        }
    }
}

/// The first `Interactive` outcome, in sequence order.
pub open spec fn first_interactive(outcomes: Seq<HandlerOutcome>) -> Option<InteractiveResponse>
    decreases outcomes.len(),
{
    if outcomes.len() == 0 {
        None
    } else {
        match outcomes[0] {
            HandlerOutcome::Interactive(ir) => Some(ir),
            _ => first_interactive(outcomes.drop_first()),
        }
    }
}

/// The reply `{"decision": "block", "reason": msg}`.
pub open spec fn is_block_response(v: JsonValue, msg: Seq<char>) -> bool {
    match v {
        JsonValue::Object(fields) => {
            &&& fields@.len() == 2
            &&& fields@[0].0@ == "decision"@
            &&& as_str_spec(fields@[0].1) == Some("block"@)
            &&& fields@[1].0@ == "reason"@
            &&& as_str_spec(fields@[1].1) == Some(msg)
        },
        _ => false,
    }
}

/// The word a permission decision is serialized as.
pub open spec fn decision_word(d: PermissionDecision) -> Seq<char> {
    match d {
        PermissionDecision::Allow => "allow"@,
        PermissionDecision::Deny => "deny"@,
        PermissionDecision::Ask => "ask"@,
    }
}

/// The reply `{"decision": d}`, with a `"reason"` field exactly when the
/// handler supplied one.
pub open spec fn is_decision_response(v: JsonValue, ir: InteractiveResponse) -> bool {
    match v {
        JsonValue::Object(fields) => {
            &&& fields@.len() >= 1
            &&& fields@[0].0@ == "decision"@
            &&& as_str_spec(fields@[0].1) == Some(decision_word(ir.decision))
            &&& match ir.reason {
                Some(reason) => {
                    &&& fields@.len() == 2
                    &&& fields@[1].0@ == "reason"@
                    &&& as_str_spec(fields@[1].1) == Some(reason@)
                },
                None => fields@.len() == 1,
            }
        },
        _ => false,
    }
}

/// The standard fold: the first handler error blocks with its message;
/// with no error the reply is empty.
pub open spec fn standard_response_spec(outcomes: Seq<HandlerOutcome>, r: JsonValue) -> bool {
    match first_error(outcomes) {
        Some(msg) => is_block_response(r, msg),
        None => is_empty_object(r),
    }
}

/// The permission fold: the first interactive decision wins; otherwise the
/// standard fold applies.
pub open spec fn permission_response_spec(outcomes: Seq<HandlerOutcome>, r: JsonValue) -> bool {
    match first_interactive(outcomes) {
        Some(ir) => is_decision_response(r, ir),
        None => standard_response_spec(outcomes, r),
    }
}

/// A hook variant: it knows its own type name and how to fold handler
/// outcomes into the reply shape its producer expects.
pub trait Hook {
    spec fn hook_type_spec(&self) -> Seq<char>;

    spec fn response_spec(&self, outcomes: Seq<HandlerOutcome>, r: JsonValue) -> bool;

    /// The hook type name, e.g. `"Stop"` or `"PreToolUse"`.
    fn hook_type(&self) -> (r: &str)
        ensures
            r@ == self.hook_type_spec(),
    ;

    /// Folds the ordered handler outcomes into this variant's JSON reply.
    fn generate_response(&self, outcomes: &[HandlerOutcome]) -> (r: JsonValue)
        ensures
            self.response_spec(outcomes@, r),
    ;
}

/// The reply `{}`.
pub fn empty_object() -> (r: JsonValue)
    ensures
        is_empty_object(r),
{
    JsonValue::Object(Vec::new())
}

/// The reply `{"decision": "block", "reason": msg}`.
pub fn block_response(msg: &str) -> (r: JsonValue)
    ensures
        is_block_response(r, msg@),
{
    let mut fields: Vec<(String, JsonValue)> = Vec::new();
    fields.push(
        (String::from_str("decision"), JsonValue::String(String::from_str("block"))),
    );
    fields.push((String::from_str("reason"), JsonValue::String(String::from_str(msg))));
    JsonValue::Object(fields)
}

/// The message of the first `Error` outcome, if any.
pub fn find_first_error(outcomes: &[HandlerOutcome]) -> (r: Option<&String>)
    ensures
        match r {
            Some(m) => first_error(outcomes@) == Some(m@),
            None => first_error(outcomes@) is None,
        },
{
    let ghost whole = outcomes@;
    proof {
        assert(whole.subrange(0, whole.len() as int) =~= whole);
    }
    let mut i: usize = 0;
    while i < outcomes.len()
        invariant
            whole == outcomes@,
            i <= whole.len(),
            first_error(whole) == first_error(whole.subrange(i as int, whole.len() as int)),
        decreases whole.len() - i,
    {
        let ghost rest = whole.subrange(i as int, whole.len() as int);
        proof {
            assert(rest[0] == whole[i as int]);
            assert(rest.drop_first() =~= whole.subrange(i + 1, whole.len() as int));
        }
        match &outcomes[i] {
            HandlerOutcome::Error(m) => {
                return Some(m);
            },
            _ => {},
        }
        i += 1;
    }
    proof {
        assert(whole.subrange(whole.len() as int, whole.len() as int) =~= Seq::<
            HandlerOutcome,
        >::empty());
    }
    None
}

/// The first `Interactive` outcome, if any.
pub fn find_first_interactive(outcomes: &[HandlerOutcome]) -> (r: Option<&InteractiveResponse>)
    ensures
        match r {
            Some(ir) => first_interactive(outcomes@) == Some(*ir),
            None => first_interactive(outcomes@) is None,
        },
{
    let ghost whole = outcomes@;
    proof {
        assert(whole.subrange(0, whole.len() as int) =~= whole);
    }
    let mut i: usize = 0;
    while i < outcomes.len()
        invariant
            whole == outcomes@,
            i <= whole.len(),
            first_interactive(whole) == first_interactive(
                whole.subrange(i as int, whole.len() as int),
            ),
        decreases whole.len() - i,
    {
        let ghost rest = whole.subrange(i as int, whole.len() as int);
        proof {
            assert(rest[0] == whole[i as int]);
            assert(rest.drop_first() =~= whole.subrange(i + 1, whole.len() as int));
        }
        match &outcomes[i] {
            HandlerOutcome::Interactive(ir) => {
                return Some(ir);
            },
            _ => {},
        }
        i += 1;
    }
    proof {
        assert(whole.subrange(whole.len() as int, whole.len() as int) =~= Seq::<
            HandlerOutcome,
        >::empty());
    }
    None
}

/// Folds outcomes by the standard rule.
pub fn standard_response(outcomes: &[HandlerOutcome]) -> (r: JsonValue)
    ensures
        standard_response_spec(outcomes@, r),
{
    match find_first_error(outcomes) {
        Some(m) => block_response(m.as_str()),
        None => empty_object(),
    }
}

/// The reply `{"decision": d}` or `{"decision": d, "reason": r}`.
pub fn decision_response(ir: &InteractiveResponse) -> (r: JsonValue)
    ensures
        is_decision_response(r, *ir),
{
    let word = match &ir.decision {
        PermissionDecision::Allow => "allow",
        PermissionDecision::Deny => "deny",
        PermissionDecision::Ask => "ask",
    };
    let mut fields: Vec<(String, JsonValue)> = Vec::new();
    fields.push((String::from_str("decision"), JsonValue::String(String::from_str(word))));
    match &ir.reason {
        Some(reason) => {
            fields.push(
                (String::from_str("reason"), JsonValue::String(reason.clone())),
            );
        },
        None => {},
    }
    JsonValue::Object(fields)
}

/// Folds outcomes by the permission rule.
pub fn permission_response(outcomes: &[HandlerOutcome]) -> (r: JsonValue)
    ensures
        permission_response_spec(outcomes@, r),
{
    match find_first_interactive(outcomes) {
        Some(ir) => decision_response(ir),
        None => standard_response(outcomes),
    }
}

/// An error of the dispatch pipeline.
#[derive(Debug)]
pub enum HookError {
    /// No hook type could be determined, or the determined name lies outside
    /// the closed enumeration.
    Resolution(String),
    /// A variant's required fields were missing at construction time.
    Construction(String),
}

/// The closed enumeration of internal hook type names.
pub open spec fn known_hook_name(name: Seq<char>) -> bool {
    ||| name == "Stop"@
    ||| name == "SubagentStop"@
    ||| name == "Notification"@
    ||| name == "PreToolUse"@
    ||| name == "PostToolUse"@
    ||| name == "PermissionRequest"@
    ||| name == "UserPromptSubmit"@
    ||| name == "SessionStart"@
    ||| name == "SessionEnd"@
    ||| name == "PreCompact"@
    ||| name == "FileEdited"@
    ||| name == "SessionError"@
}

/// The hook type name an event's fields resolve to: an explicit
/// `hook_event_name` string is authoritative; otherwise a detected vendor
/// identity is mapped through the table.
pub open spec fn resolved_name(fields: Seq<(String, JsonValue)>) -> Option<Seq<char>> {
    match field_str(fields, event_name_key()) {
        Some(name) => Some(name),
        None => match detect_spec(fields) {
            Some(s) => map_event_spec(s),
            None => None,
        },
    }
}

/// The tool identity `PreToolUse` construction parses from the event: the
/// `tool_name` field, or failing that the `tool` field.
pub open spec fn tool_name_of(fields: Seq<(String, JsonValue)>) -> Option<Seq<char>> {
    match field_str(fields, "tool_name"@) {
        Some(t) => Some(t),
        None => field_str(fields, "tool"@),
    }
}

/// One concrete hook per internal hook type, carrying any extra state parsed
/// from the triggering event.
#[derive(Debug)]
pub enum HookInstance {
    /// `Stop`, or `SubagentStop` when `subagent` is set.
    Stop { subagent: bool },
    Notification,
    /// Carries the tool name needed to decide permission policy.
    PreToolUse { tool_name: String },
    PostToolUse,
    PermissionRequest,
    UserPromptSubmit,
    SessionStart,
    SessionEnd,
    PreCompact,
    FileEdited(FileEditedHook),
    SessionError(SessionErrorHook),
}

impl Hook for HookInstance {
    open spec fn hook_type_spec(&self) -> Seq<char> {
        match self {
            HookInstance::Stop { subagent } => if *subagent {
                "SubagentStop"@
            } else {
                "Stop"@
            },
            HookInstance::Notification => "Notification"@,
            HookInstance::PreToolUse { .. } => "PreToolUse"@,
            HookInstance::PostToolUse => "PostToolUse"@,
            HookInstance::PermissionRequest => "PermissionRequest"@,
            HookInstance::UserPromptSubmit => "UserPromptSubmit"@,
            HookInstance::SessionStart => "SessionStart"@,
            HookInstance::SessionEnd => "SessionEnd"@,
            HookInstance::PreCompact => "PreCompact"@,
            HookInstance::FileEdited(h) => h.hook_type_spec(),
            HookInstance::SessionError(h) => h.hook_type_spec(),
        }
    }

    open spec fn response_spec(&self, outcomes: Seq<HandlerOutcome>, r: JsonValue) -> bool {
        match self {
            HookInstance::PreToolUse { .. } => permission_response_spec(outcomes, r),
            HookInstance::PermissionRequest => permission_response_spec(outcomes, r),
            HookInstance::FileEdited(h) => h.response_spec(outcomes, r),
            HookInstance::SessionError(h) => h.response_spec(outcomes, r),
            _ => standard_response_spec(outcomes, r),
        }
    }

    fn hook_type(&self) -> (r: &str) {
        match self {
            HookInstance::Stop { subagent } => if *subagent {
                "SubagentStop"
            } else {
                "Stop"
            },
            HookInstance::Notification => "Notification",
            HookInstance::PreToolUse { .. } => "PreToolUse",
            HookInstance::PostToolUse => "PostToolUse",
            HookInstance::PermissionRequest => "PermissionRequest",
            HookInstance::UserPromptSubmit => "UserPromptSubmit",
            HookInstance::SessionStart => "SessionStart",
            HookInstance::SessionEnd => "SessionEnd",
            HookInstance::PreCompact => "PreCompact",
            HookInstance::FileEdited(h) => h.hook_type(),
            HookInstance::SessionError(h) => h.hook_type(),
        }
    }

    fn generate_response(&self, outcomes: &[HandlerOutcome]) -> (r: JsonValue) {
        match self {
            HookInstance::PreToolUse { .. } => permission_response(outcomes),
            HookInstance::PermissionRequest => permission_response(outcomes),
            HookInstance::FileEdited(h) => h.generate_response(outcomes),
            HookInstance::SessionError(h) => h.generate_response(outcomes),
            _ => standard_response(outcomes),
        }
    }
}

/// Creates a Hook from a resolved hook name and event data. Every name of
/// the closed enumeration constructs; `PreToolUse` additionally parses the
/// tool identity and fails construction without one.
fn hook_from_name(hook_event_name: &str, event: &Event) -> (r: Result<HookInstance, HookError>)
    ensures
        match r {
            Ok(h) => {
                &&& known_hook_name(hook_event_name@)
                &&& h.hook_type_spec() == hook_event_name@
                &&& (h matches HookInstance::PreToolUse { tool_name } ==> Some(tool_name@)
                    == tool_name_of(event.data@))
            },
            Err(e) => match e {
                HookError::Resolution(_) => !known_hook_name(hook_event_name@),
                HookError::Construction(_) => hook_event_name@ == "PreToolUse"@ && tool_name_of(
                    event.data@,
                ) is None,
            },
        },
{
    if str_eq(hook_event_name, "Stop") {
        Ok(HookInstance::Stop { subagent: false })
    } else if str_eq(hook_event_name, "SubagentStop") {
        Ok(HookInstance::Stop { subagent: true })
    } else if str_eq(hook_event_name, "Notification") {
        Ok(HookInstance::Notification)
    } else if str_eq(hook_event_name, "PreToolUse") {
        match event.get_str("tool_name") {
            Some(t) => Ok(HookInstance::PreToolUse { tool_name: String::from_str(t) }),
            None => match event.get_str("tool") {
                Some(t) => Ok(HookInstance::PreToolUse { tool_name: String::from_str(t) }),
                None => Err(
                    HookError::Construction(
                        String::from_str("PreToolUse requires a tool_name or tool field"),
                    ),
                ),
            },
        }
    } else if str_eq(hook_event_name, "PostToolUse") {
        Ok(HookInstance::PostToolUse)
    } else if str_eq(hook_event_name, "PermissionRequest") {
        Ok(HookInstance::PermissionRequest)
    } else if str_eq(hook_event_name, "UserPromptSubmit") {
        Ok(HookInstance::UserPromptSubmit)
    } else if str_eq(hook_event_name, "SessionStart") {
        Ok(HookInstance::SessionStart)
    } else if str_eq(hook_event_name, "SessionEnd") {
        Ok(HookInstance::SessionEnd)
    } else if str_eq(hook_event_name, "PreCompact") {
        Ok(HookInstance::PreCompact)
    } else if str_eq(hook_event_name, "FileEdited") {
        Ok(HookInstance::FileEdited(FileEditedHook))
    } else if str_eq(hook_event_name, "SessionError") {
        Ok(HookInstance::SessionError(SessionErrorHook))
    } else {
        Err(
            HookError::Resolution(
                String::from_str("Unknown hook type: ").concat(hook_event_name),
            ),
        )
    }
}

/// Creates a Hook instance from an event.
///
/// Supports events that carry `hook_event_name` directly and OpenCode events
/// carrying a dotted identity in `type`, `event` or `hook`.
pub fn hook_from_event(event: &Event) -> (r: Result<HookInstance, HookError>)
    ensures
        match r {
            Ok(h) => {
                &&& resolved_name(event.data@) matches Some(name) && h.hook_type_spec() == name
                    && known_hook_name(name)
                &&& (h matches HookInstance::PreToolUse { tool_name } ==> Some(tool_name@)
                    == tool_name_of(event.data@))
            },
            Err(e) => match e {
                HookError::Resolution(_) => match resolved_name(event.data@) {
                    Some(name) => !known_hook_name(name),
                    None => true,
                },
                HookError::Construction(_) => resolved_name(event.data@) == Some("PreToolUse"@)
                    && tool_name_of(event.data@) is None,
            },
        },
{
    match event.get_str("hook_event_name") {
        Some(name) => hook_from_name(name, event),
        None => match detect_opencode_event_type(&event.data) {
            Some(oc) => match map_opencode_event(oc.as_str()) {
                Some(mapped) => hook_from_name(mapped, event),
                // Unreachable: detection only returns identities with a known
                // mapping.
                None => Err(
                    HookError::Resolution(
                        String::from_str("Unrecognized OpenCode event: ").concat(oc.as_str()),
                    ),
                ),
            },
            None => Err(
                HookError::Resolution(
                    String::from_str("No hook_event_name or recognized OpenCode event type found"),
                ),
            ),
        },
    }
}

/// An event that already carries `hook_event_name` as a string passes
/// through normalization unchanged and resolves to exactly that field's
/// value, whatever dotted identity fields are also present.
pub proof fn lemma_tagged_event_passthrough(
    out: Seq<(String, JsonValue)>,
    fields: Seq<(String, JsonValue)>,
)
    requires
        normalized_from(out, fields),
        field_str(fields, event_name_key()) is Some,
    ensures
        out == fields,
        resolved_name(out) == field_str(fields, event_name_key()),
{
}

/// A recognized vendor identity `s` is injected under `hook_event_name` with
/// its table-mapped value, the original fields preserved unmodified; the
/// normalized event then resolves to the mapped name.
pub proof fn lemma_vendor_injection(
    out: Seq<(String, JsonValue)>,
    fields: Seq<(String, JsonValue)>,
    s: Seq<char>,
)
    requires
        normalized_from(out, fields),
        !has_key(fields, event_name_key()),
        detect_spec(fields) == Some(s),
    ensures
        out.len() == fields.len() + 1,
        out.subrange(0, fields.len() as int) == fields,
        field_str(out, event_name_key()) == map_event_spec(s),
        resolved_name(out) == map_event_spec(s),
{
    assert(out =~= fields.push(out.last()));
    lemma_lookup_push(fields, out.last(), event_name_key());
}

/// Fields lacking `hook_event_name` whose candidate identity values are all
/// unrecognized inject nothing, and the event stays unresolvable.
pub proof fn lemma_unrecognized_identity(
    out: Seq<(String, JsonValue)>,
    fields: Seq<(String, JsonValue)>,
)
    requires
        normalized_from(out, fields),
        !has_key(fields, event_name_key()),
        field_str(fields, "type"@) matches Some(s) ==> map_event_spec(s) is None,
        field_str(fields, "event"@) matches Some(s) ==> map_event_spec(s) is None,
        field_str(fields, "hook"@) matches Some(s) ==> map_event_spec(s) is None,
    ensures
        out == fields,
        resolved_name(out) is None,
{
    assert(detect_spec(fields) is None);
}

/// Normalization is idempotent: whatever one pass produced, a second pass is
/// the identity.
pub proof fn lemma_normalization_idempotent(
    out2: Seq<(String, JsonValue)>,
    out: Seq<(String, JsonValue)>,
    fields: Seq<(String, JsonValue)>,
)
    requires
        normalized_from(out, fields),
        normalized_from(out2, out),
    ensures
        out2 == out,
{
    if !has_key(fields, event_name_key()) {
        match detect_spec(fields) {
            Some(s) => {
                assert(out =~= fields.push(out.last()));
                lemma_lookup_push(fields, out.last(), event_name_key());
                assert(has_key(out, event_name_key()));
            },
            None => {
                assert(out == fields);
            },
        }
    }
}

} // verus!
