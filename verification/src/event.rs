//! The event structure received from a hook producer.
//!
//! Events are flexible JSON objects that can contain any fields. Events that
//! already speak the internal vocabulary carry `hook_event_name`; OpenCode
//! events are normalized at construction, a `hook_event_name` field being
//! injected so that existing match rules work for both.

use vstd::prelude::*;
use vstd::string::StringExecFns;

use crate::json::{
    as_str_spec, clone_value, field_str, has_key, lemma_lookup_none, lemma_split_dots_len, lookup,
    nested_str_spec, same_json, seg_views, split_path, unique_keys, walk_from, JsonValue,
};
use crate::opencode::{detect_opencode_event_type, detect_spec, map_event_spec, map_opencode_event};

verus! {

/// The key that names an event's hook type in the internal vocabulary.
pub open spec fn event_name_key() -> Seq<char> {
    "hook_event_name"@
}

/// A parse failure: malformed JSON, or a top level that is not an object.
#[derive(Debug)]
pub struct ParseError {
    /// A human-readable description carrying a path hint to the offending
    /// token.
    pub message: String,
}

/// Declares `serde_json::Value` so the parse boundary below can speak of it;
/// the type stays opaque.
#[verifier::external_type_specification]
#[verifier::external_body]
pub struct ExSerdeValue(serde_json::Value);

/// What the text parses to when its top level is a JSON object: the object's
/// fields, with unique keys, in the order the parser yields them; nothing
/// when parsing fails. Parsing is a function of the text alone.
pub uninterp spec fn json_object_fields(text: Seq<char>) -> Option<Seq<(String, JsonValue)>>;

/// Relies on serde_json object deserialization, routed through
/// serde_path_to_error so that the error message carries a path hint: a JSON
/// object text yields its fields with unique keys; malformed JSON, or a top
/// level that is not an object, yields an error.
#[verifier::external_body]
fn parse_object(text: &str) -> (r: Result<Vec<(String, JsonValue)>, String>)
    ensures
        match r {
            Ok(fields) => json_object_fields(text@) == Some(fields@) && unique_keys(fields@),
            Err(_) => json_object_fields(text@) is None,
        },
{
    let mut de = serde_json::Deserializer::from_str(text);
    let parsed: Result<serde_json::Map<String, serde_json::Value>, _> =
        serde_path_to_error::deserialize(&mut de);
    match parsed {
        Ok(m) => Ok(m.into_iter().map(|(k, v)| (k, json_of_serde(v))).collect()),
        Err(e) => Err(format!("Failed to parse event JSON: {}", e)),
    }
}

/// Converter used only by `parse_object`'s body. Relies on the variants of
/// `serde_json::Value`: each is moved field for field to the library's value;
/// a number keeps its display text.
#[verifier::external_body]
fn json_of_serde(v: serde_json::Value) -> JsonValue {
    match v {
        serde_json::Value::Null => JsonValue::Null,
        serde_json::Value::Bool(b) => JsonValue::Bool(b),
        serde_json::Value::Number(n) => JsonValue::Number(n.to_string()),
        serde_json::Value::String(s) => JsonValue::String(s),
        serde_json::Value::Array(a) => JsonValue::Array(
            a.into_iter().map(json_of_serde).collect(),
        ),
        serde_json::Value::Object(o) => JsonValue::Object(
            o.into_iter().map(|(k, x)| (k, json_of_serde(x))).collect(),
        ),
    }
}

/// How normalization relates the constructed event data to the parsed
/// fields: a present `hook_event_name` makes it a no-op; a recognized vendor
/// identity appends exactly the mapped name under `hook_event_name`, the
/// original fields preserved unmodified; anything else is left untouched.
pub open spec fn normalized_from(
    out: Seq<(String, JsonValue)>,
    fields: Seq<(String, JsonValue)>,
) -> bool {
    if has_key(fields, event_name_key()) {
        out == fields
    } else {
        match detect_spec(fields) {
            Some(s) => {
                &&& out.len() == fields.len() + 1
                &&& out.subrange(0, fields.len() as int) == fields
                &&& out.last().0@ == event_name_key()
                &&& as_str_spec(out.last().1) == map_event_spec(s)
            },
            None => out == fields,
        }
    }
}

/// Runs normalization once over parsed fields, as `normalized_from`
/// describes.
pub fn normalize_fields(fields: &mut Vec<(String, JsonValue)>)
    ensures
        normalized_from(final(fields)@, old(fields)@),
        unique_keys(old(fields)@) ==> unique_keys(final(fields)@),
{
    let ghost orig = fields@;
    let present = match lookup(fields, "hook_event_name") {
        Some(_) => true,
        None => false,
    };
    if !present {
        match detect_opencode_event_type(fields) {
            Some(oc) => {
                match map_opencode_event(oc.as_str()) {
                    Some(mapped) => {
                        let entry = (
                            String::from_str("hook_event_name"),
                            JsonValue::String(String::from_str(mapped)),
                        );
                        fields.push(entry);
                        proof {
                            assert(fields@.subrange(0, orig.len() as int) =~= orig);
                            assert(fields@.last() == entry);
                            if unique_keys(orig) {
                                lemma_lookup_none(orig, event_name_key());
                                assert forall|i: int, j: int|
                                    0 <= i < j < fields@.len() implies fields@[i].0@
                                    != fields@[j].0@ by {
                                    if j < orig.len() {
                                        assert(fields@[i] == orig[i] && fields@[j] == orig[j]);
                                    } else {
                                        assert(fields@[i] == orig[i]);
                                        assert(fields@[j].0@ == event_name_key());
                                    }
                                }
                            }
                        }
                    },
                    // Unreachable: detection only returns identities with a
                    // known mapping.
                    None => {},
                }
            },
            None => {},
        }
    }
}

/// A hook event: a flexible JSON object that can contain any fields.
#[derive(Debug)]
pub struct Event {
    /// The fields of the event object; keys are unique.
    pub data: Vec<(String, JsonValue)>,
}

impl Event {
    /// Creates a new event from a JSON string.
    ///
    /// If the event carries a recognized vendor identity (detected by dotted
    /// event type fields) and no `hook_event_name`, a `hook_event_name` field
    /// is injected with the mapped internal name.
    ///
    /// # Errors
    ///
    /// Returns an error if the JSON is invalid or its top level is not an
    /// object.
    pub fn from_json(json: &str) -> (r: Result<Event, ParseError>)
        ensures
            match r {
                Ok(ev) => {
                    &&& json_object_fields(json@) matches Some(fields) && normalized_from(
                        ev.data@,
                        fields,
                    )
                    &&& unique_keys(ev.data@)
                },
                Err(_) => json_object_fields(json@) is None,
            },
    {
        match parse_object(json) {
            Ok(mut fields) => {
                normalize_fields(&mut fields);
                Ok(Event { data: fields })
            },
            Err(message) => Err(ParseError { message }),
        }
    }

    /// Gets a field value as a string reference: `None` when the field is
    /// absent or not a string.
    pub fn get_str<'a>(&'a self, key: &str) -> (r: Option<&'a str>)
        ensures
            match r {
                Some(s) => field_str(self.data@, key@) == Some(s@),
                None => field_str(self.data@, key@) is None,
            },
    {
        match lookup(&self.data, key) {
            Some(v) => match v {
                JsonValue::String(s) => Some(s.as_str()),
                _ => None,
            },
            None => None,
        }
    }

    /// Gets a field value as a string, with nested path support (e.g.
    /// `tool.name`). A missing or non-navigable segment gives absence, never
    /// an error.
    pub fn get_nested_str(&self, path: &str) -> (r: Option<String>)
        ensures
            match r {
                Some(s) => nested_str_spec(self.data@, path@) == Some(s@),
                None => nested_str_spec(self.data@, path@) is None,
            },
    {
        let segs = split_path(path);
        proof {
            lemma_split_dots_len(path@);
            assert(seg_views(segs@).len() == segs@.len());
            assert(seg_views(segs@)[0] == segs@[0]@);
            assert(seg_views(segs@).drop_first() =~= seg_views(segs@).subrange(
                1,
                segs@.len() as int,
            ));
        }
        match lookup(&self.data, segs[0].as_str()) {
            Some(child) => match walk_from(child, &segs, 1) {
                Some(w) => match w {
                    JsonValue::String(s) => Some(s.clone()),
                    _ => None,
                },
                None => None,
            },
            None => None,
        }
    }

    /// The entire event as one JSON value: an object holding a structural
    /// copy of the fields.
    pub fn as_value(&self) -> (r: JsonValue)
        ensures
            same_json(JsonValue::Object(self.data), r),
    {
        let mut out: Vec<(String, JsonValue)> = Vec::new();
        let mut i: usize = 0;
        while i < self.data.len()
            invariant
                i <= self.data@.len(),
                out@.len() == i,
                forall|k: int|
                    0 <= k < i ==> self.data@[k].0@ == (#[trigger] out@[k]).0@ && same_json(
                        self.data@[k].1,
                        out@[k].1,
                    ),
            decreases self.data@.len() - i,
        {
            let key = self.data[i].0.clone();
            let val = clone_value(&self.data[i].1);
            out.push((key, val));
            i += 1;
        }
        JsonValue::Object(out)
    }
}

} // verus!
