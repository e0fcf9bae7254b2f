//! The JSON value model and the field/path lookups the adapter performs.

use vstd::prelude::*;
use vstd::string::StrSliceExecFns;

verus! {

/// A JSON value as this library models it.
///
/// Numbers are carried as their literal text: the adapter only routes events
/// and never interprets numeric payloads, so keeping the digits verbatim
/// avoids committing to any numeric representation.
#[derive(Debug, PartialEq, Eq)]
pub enum JsonValue {
    Null,
    Bool(bool),
    Number(String),
    String(String),
    Array(Vec<JsonValue>),
    Object(Vec<(String, JsonValue)>),
}

/// The first value bound to `key`, scanning fields front to back.
pub open spec fn lookup_spec(fields: Seq<(String, JsonValue)>, key: Seq<char>) -> Option<JsonValue>
    decreases fields.len(),
{
    if fields.len() == 0 {
        None
    } else if fields[0].0@ == key {
        Some(fields[0].1)
    } else {
        lookup_spec(fields.drop_first(), key)
    }
}

pub open spec fn has_key(fields: Seq<(String, JsonValue)>, key: Seq<char>) -> bool {
    lookup_spec(fields, key) is Some
}

/// The character content of a value, when it is a JSON string.
pub open spec fn as_str_spec(v: JsonValue) -> Option<Seq<char>> {
    match v {
        JsonValue::String(s) => Some(s@),
        _ => None,
    }
}

/// The string content of field `key`; an absent field, or one holding a
/// non-string value, gives `None`.
pub open spec fn field_str(fields: Seq<(String, JsonValue)>, key: Seq<char>) -> Option<Seq<char>> {
    match lookup_spec(fields, key) {
        Some(v) => as_str_spec(v),
        None => None,
    }
}

/// No two fields share a key (JSON object semantics).
pub open spec fn unique_keys(fields: Seq<(String, JsonValue)>) -> bool {
    forall|i: int, j: int| 0 <= i < j < fields.len() ==> fields[i].0@ != fields[j].0@
}

/// Does `s` contain a `.` separator?
pub open spec fn has_dot(s: Seq<char>) -> bool {
    exists|i: int| 0 <= i < s.len() && s[i] == '.'
}

/// The segments of `s` between `.` separators, in order: one segment more
/// than there are dots, empty segments included.
pub open spec fn split_dots(s: Seq<char>) -> Seq<Seq<char>>
    decreases s.len(),
{
    if s.len() == 0 {
        seq![Seq::<char>::empty()]
    } else if s[0] == '.' {
        seq![Seq::<char>::empty()] + split_dots(s.drop_first())
    } else {
        let rest = split_dots(s.drop_first());
        seq![seq![s[0]] + rest[0]] + rest.drop_first()
    }
}

pub proof fn lemma_split_dots_len(s: Seq<char>)
    ensures
        split_dots(s).len() >= 1,
    decreases s.len(),
{
    if s.len() > 0 {
        lemma_split_dots_len(s.drop_first());
    }
}

/// Without a dot, the whole string is the single segment.
pub proof fn lemma_split_dots_whole(s: Seq<char>)
    requires
        !has_dot(s),
    ensures
        split_dots(s) == seq![s],
    decreases s.len(),
{
    if s.len() == 0 {
        assert(s =~= Seq::<char>::empty());
        assert(split_dots(s) =~~= seq![s]);
    } else {
        let rest = s.drop_first();
        assert(s[0] != '.');
        assert forall|k: int| 0 <= k < rest.len() implies rest[k] != '.' by {
            assert(rest[k] == s[k + 1]);
        }
        lemma_split_dots_whole(rest);
        lemma_split_dots_len(rest);
        assert(seq![s[0]] + rest =~= s);
        assert(split_dots(s) =~~= seq![s]);
    }
}

/// With the first dot at `i`, the head segment is everything before it and
/// the remaining segments are those of everything after it.
pub proof fn lemma_split_dots_at(s: Seq<char>, i: int)
    requires
        0 <= i < s.len(),
        s[i] == '.',
        forall|k: int| 0 <= k < i ==> s[k] != '.',
    ensures
        split_dots(s) == seq![s.subrange(0, i)] + split_dots(s.subrange(i + 1, s.len() as int)),
    decreases i,
{
    lemma_split_dots_len(s.drop_first());
    if i == 0 {
        assert(s.drop_first() =~= s.subrange(1, s.len() as int));
        assert(s.subrange(0, 0) =~= Seq::<char>::empty());
        assert(split_dots(s) =~~= seq![s.subrange(0, 0)] + split_dots(
            s.subrange(1, s.len() as int),
        ));
    } else {
        let rest = s.drop_first();
        assert forall|k: int| 0 <= k < i - 1 implies rest[k] != '.' by {
            assert(rest[k] == s[k + 1]);
        }
        assert(rest[i - 1] == '.');
        lemma_split_dots_at(rest, i - 1);
        let tail = split_dots(rest.subrange(i, rest.len() as int));
        lemma_split_dots_len(rest.subrange(i, rest.len() as int));
        assert(rest.subrange(0, i - 1) =~= s.subrange(1, i));
        assert(seq![s[0]] + s.subrange(1, i) =~= s.subrange(0, i));
        assert(rest.subrange(i, rest.len() as int) =~= s.subrange(i + 1, s.len() as int));
        assert((seq![s.subrange(1, i)] + tail).drop_first() =~= tail);
        assert(split_dots(s) =~~= seq![s.subrange(0, i)] + split_dots(
            s.subrange(i + 1, s.len() as int),
        ));
    }
}

/// Does `s` contain a `.`? The executable side of `has_dot`.
pub fn contains_dot(s: &str) -> (r: bool)
    ensures
        r == has_dot(s@),
{
    let n = s.unicode_len();
    let mut i: usize = 0;
    while i < n
        invariant
            n == s@.len(),
            i <= n,
            forall|k: int| 0 <= k < i ==> s@[k] != '.',
        decreases n - i,
    {
        if s.get_char(i) == '.' {
            assert(s@[i as int] == '.');
            return true;
        }
        i += 1;
    }
    false
}

/// Character-for-character string equality, stated over the views.
pub fn str_eq(a: &str, b: &str) -> (r: bool)
    ensures
        r == (a@ == b@),
{
    let alen = a.unicode_len();
    let blen = b.unicode_len();
    if alen != blen {
        return false;
    }
    let mut i: usize = 0;
    while i < alen
        invariant
            alen == a@.len(),
            blen == b@.len(),
            alen == blen,
            i <= alen,
            forall|k: int| 0 <= k < i ==> a@[k] == b@[k],
        decreases alen - i,
    {
        if a.get_char(i) != b.get_char(i) {
            return false;
        }
        i += 1;
    }
    assert(a@ =~= b@);
    true
}

/// The first value bound to `key` among `fields`.
pub fn lookup<'a>(fields: &'a Vec<(String, JsonValue)>, key: &str) -> (r: Option<&'a JsonValue>)
    ensures
        match r {
            Some(v) => lookup_spec(fields@, key@) == Some(*v),
            None => lookup_spec(fields@, key@) is None,
        },
{
    let ghost whole: Seq<(String, JsonValue)> = fields@;
    assert(whole.subrange(0, whole.len() as int) =~= whole);
    let mut i: usize = 0;
    while i < fields.len()
        invariant
            whole == fields@,
            i <= whole.len(),
            lookup_spec(whole, key@) == lookup_spec(
                whole.subrange(i as int, whole.len() as int),
                key@,
            ),
        decreases whole.len() - i,
    {
        let ghost rest = whole.subrange(i as int, whole.len() as int);
        if str_eq(fields[i].0.as_str(), key) {
            assert(rest[0] == whole[i as int]);
            return Some(&fields[i].1);
        }
        assert(rest.drop_first() =~= whole.subrange(i + 1, whole.len() as int));
        i += 1;
    }
    assert(whole.subrange(whole.len() as int, whole.len() as int) =~= Seq::<(
        String,
        JsonValue,
    )>::empty());
    None
}

/// The views of a vector of segment strings.
pub open spec fn seg_views(segs: Seq<String>) -> Seq<Seq<char>> {
    segs.map_values(|t: String| t@)
}

/// Splits `path` at every `.`, as `split_dots` describes.
pub fn split_path(path: &str) -> (segs: Vec<String>)
    ensures
        seg_views(segs@) == split_dots(path@),
{
    let n = path.unicode_len();
    let mut segs: Vec<String> = Vec::new();
    let mut start: usize = 0;
    let mut i: usize = 0;
    proof {
        assert(path@.subrange(0, n as int) =~= path@);
        assert(seg_views(segs@) + split_dots(path@) =~~= split_dots(path@));
    }
    loop
        invariant
            n == path@.len(),
            start <= i <= n,
            forall|k: int| start <= k < i ==> path@[k] != '.',
            seg_views(segs@) + split_dots(path@.subrange(start as int, n as int)) == split_dots(
                path@,
            ),
        decreases n - i,
    {
        let ghost tail = path@.subrange(start as int, n as int);
        if i == n {
            let last = String::from_str(path.substring_char(start, i));
            segs.push(last);
            proof {
                assert forall|k: int| 0 <= k < tail.len() implies tail[k] != '.' by {
                    assert(tail[k] == path@[start + k]);
                }
                lemma_split_dots_whole(tail);
                assert(seg_views(segs@) =~~= seg_views(segs@.drop_last()) + seq![tail]);
                assert(seg_views(segs@) =~~= split_dots(path@));
            }
            return segs;
        }
        if path.get_char(i) == '.' {
            let seg = String::from_str(path.substring_char(start, i));
            segs.push(seg);
            proof {
                let d = i - start;
                assert(tail[d] == path@[i as int]);
                assert forall|k: int| 0 <= k < d implies tail[k] != '.' by {
                    assert(tail[k] == path@[start + k]);
                }
                lemma_split_dots_at(tail, d);
                assert(tail.subrange(0, d) =~= path@.subrange(start as int, i as int));
                assert(tail.subrange(d + 1, tail.len() as int) =~= path@.subrange(
                    i + 1,
                    n as int,
                ));
                assert(seg_views(segs@) =~~= seg_views(segs@.drop_last()) + seq![
                    path@.subrange(start as int, i as int),
                ]);
                assert(seg_views(segs@) + split_dots(path@.subrange(i + 1, n as int))
                    =~~= split_dots(path@));
            }
            start = i + 1;
        }
        i += 1;
    }
}

/// Walks `segs` through nested objects from `v`: absence on any missing or
/// non-navigable step, never an error.
pub open spec fn walk_spec(v: JsonValue, segs: Seq<Seq<char>>) -> Option<JsonValue>
    decreases segs.len(),
{
    if segs.len() == 0 {
        Some(v)
    } else {
        match v {
            JsonValue::Object(fields) => match lookup_spec(fields@, segs[0]) {
                Some(child) => walk_spec(child, segs.drop_first()),
                None => None,
            },
            _ => None,
        }
    }
}

/// Walks the views of `segs[start..]` through `v`, as `walk_spec` describes.
pub fn walk_from<'a>(v: &'a JsonValue, segs: &Vec<String>, start: usize) -> (r: Option<
    &'a JsonValue,
>)
    requires
        start <= segs@.len(),
    ensures
        match r {
            Some(w) => walk_spec(
                *v,
                seg_views(segs@).subrange(start as int, segs@.len() as int),
            ) == Some(*w),
            None => walk_spec(
                *v,
                seg_views(segs@).subrange(start as int, segs@.len() as int),
            ) is None,
        },
{
    let ghost all = seg_views(segs@);
    let ghost target = all.subrange(start as int, all.len() as int);
    let mut cur: &JsonValue = v;
    let mut i: usize = start;
    while i < segs.len()
        invariant
            all == seg_views(segs@),
            target == all.subrange(start as int, all.len() as int),
            start <= i <= segs@.len(),
            all.len() == segs@.len(),
            walk_spec(*v, target) == walk_spec(*cur, all.subrange(i as int, all.len() as int)),
        decreases segs@.len() - i,
    {
        let ghost rest = all.subrange(i as int, all.len() as int);
        proof {
            assert(rest[0] == segs@[i as int]@);
            assert(rest.drop_first() =~= all.subrange(i + 1, all.len() as int));
        }
        match cur {
            JsonValue::Object(fields) => {
                match lookup(fields, segs[i].as_str()) {
                    Some(child) => {
                        cur = child;
                    },
                    None => {
                        return None;
                    },
                }
            },
            _ => {
                return None;
            },
        }
        i += 1;
    }
    proof {
        assert(all.subrange(all.len() as int, all.len() as int) =~= Seq::<Seq<char>>::empty());
    }
    Some(cur)
}

/// The string at the dotted `path` below `fields`: the path's first segment
/// names a field, the remaining segments walk nested objects. Absence — a
/// missing or non-navigable segment, or a non-string final value — gives
/// `None`.
pub open spec fn nested_str_spec(fields: Seq<(String, JsonValue)>, path: Seq<char>) -> Option<
    Seq<char>,
> {
    let segs = split_dots(path);
    match lookup_spec(fields, segs[0]) {
        Some(v) => match walk_spec(v, segs.drop_first()) {
            Some(w) => as_str_spec(w),
            None => None,
        },
        None => None,
    }
}

/// A key that `lookup_spec` misses appears in no field.
pub proof fn lemma_lookup_none(fields: Seq<(String, JsonValue)>, key: Seq<char>)
    requires
        lookup_spec(fields, key) is None,
    ensures
        forall|i: int| 0 <= i < fields.len() ==> fields[i].0@ != key,
    decreases fields.len(),
{
    if fields.len() > 0 {
        lemma_lookup_none(fields.drop_first(), key);
        assert forall|i: int| 0 <= i < fields.len() implies fields[i].0@ != key by {
            if i > 0 {
                assert(fields.drop_first()[i - 1] == fields[i]);
            }
        }
    }
}

/// Looking a key up after a push: an existing binding still wins; otherwise
/// the pushed pair decides.
pub proof fn lemma_lookup_push(fields: Seq<(String, JsonValue)>, p: (String, JsonValue), key: Seq<char>)
    ensures
        lookup_spec(fields.push(p), key) == if lookup_spec(fields, key) is Some {
            lookup_spec(fields, key)
        } else if p.0@ == key {
            Some(p.1)
        } else {
            None
        },
    decreases fields.len(),
{
    if fields.len() == 0 {
        assert(fields.push(p).drop_first() =~= fields);
        assert(fields.push(p)[0] == p);
        assert(lookup_spec(fields, key) is None);
    } else {
        assert(fields.push(p)[0] == fields[0]);
        assert(fields.push(p).drop_first() =~= fields.drop_first().push(p));
        lemma_lookup_push(fields.drop_first(), p, key);
    }
}

/// Structural equivalence of two values: the same JSON tree, compared by
/// character content, not by allocation identity.
pub open spec fn same_json(a: JsonValue, b: JsonValue) -> bool
    decreases a,
{
    match (a, b) {
        (JsonValue::Null, JsonValue::Null) => true,
        (JsonValue::Bool(x), JsonValue::Bool(y)) => x == y,
        (JsonValue::Number(x), JsonValue::Number(y)) => x@ == y@,
        (JsonValue::String(x), JsonValue::String(y)) => x@ == y@,
        (JsonValue::Array(x), JsonValue::Array(y)) => {
            &&& x@.len() == y@.len()
            &&& forall|i: int| 0 <= i < x@.len() ==> same_json(x@[i], y@[i])
        },
        (JsonValue::Object(x), JsonValue::Object(y)) => {
            &&& x@.len() == y@.len()
            &&& forall|i: int|
                0 <= i < x@.len() ==> x@[i].0@ == y@[i].0@ && same_json(x@[i].1, y@[i].1)
        },
        _ => false,
    }
}

/// A structural copy: the resulting tree is `same_json` as the argument.
#[verifier::loop_isolation(false)]
pub fn clone_value(v: &JsonValue) -> (r: JsonValue)
    ensures
        same_json(*v, r),
    decreases *v,
{
    match v {
        JsonValue::Null => JsonValue::Null,
        JsonValue::Bool(b) => JsonValue::Bool(*b),
        JsonValue::Number(s) => JsonValue::Number(s.clone()),
        JsonValue::String(s) => JsonValue::String(s.clone()),
        JsonValue::Array(items) => {
            let mut out: Vec<JsonValue> = Vec::new();
            let mut i: usize = 0;
            while i < items.len()
                invariant
                    i <= items@.len(),
                    out@.len() == i,
                    forall|k: int| 0 <= k < i ==> same_json(items@[k], #[trigger] out@[k]),
                decreases items@.len() - i,
            {
                proof {
                    assert(decreases_to!(*v => *items));
                    assert(decreases_to!(*items => items[i as int]));
                }
                let c = clone_value(&items[i]);
                out.push(c);
                i += 1;
            }
            JsonValue::Array(out)
        },
        JsonValue::Object(fields) => {
            let mut out: Vec<(String, JsonValue)> = Vec::new();
            let mut i: usize = 0;
            while i < fields.len()
                invariant
                    i <= fields@.len(),
                    out@.len() == i,
                    forall|k: int|
                        0 <= k < i ==> fields@[k].0@ == (#[trigger] out@[k]).0@ && same_json(
                            fields@[k].1,
                            out@[k].1,
                        ),
                decreases fields@.len() - i,
            {
                proof {
                    assert(decreases_to!(*v => *fields));
                    assert(decreases_to!(*fields => fields[i as int]));
                    assert(decreases_to!(fields[i as int] => fields[i as int].1));
                }
                let k = fields[i].0.clone();
                let c = clone_value(&fields[i].1);
                out.push((k, c));
                i += 1;
            }
            JsonValue::Object(out)
        },
    }
}

} // verus!
