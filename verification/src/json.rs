//! JSON as the library builds it (request bodies) and reads it (replies).
//!
//! Bodies are values of `JsonValue`, whose meaning is `JsonView`; the
//! caller serialises them. Replies arrive as text; what a reply holds at a
//! JSON pointer is read through `serde_json`, and named here.

use vstd::prelude::*;

verus! {

/// A JSON value of a request body. Objects keep their fields in order.
pub enum JsonValue {
    Null,
    Str(String),
    Int(i64),
    Bool(bool),
    Object(Vec<(String, JsonValue)>),
}

/// What a `JsonValue` stands for.
pub enum JsonView {
    Null,
    Str(Seq<char>),
    Int(int),
    Bool(bool),
    Object(Seq<(Seq<char>, JsonView)>),
}

pub open spec fn json_view(v: JsonValue) -> JsonView
    decreases v,
{
    match v {
        JsonValue::Null => JsonView::Null,
        JsonValue::Str(s) => JsonView::Str(s@),
        JsonValue::Int(i) => JsonView::Int(i as int),
        JsonValue::Bool(b) => JsonView::Bool(b),
        JsonValue::Object(fs) => JsonView::Object(fields_view(fs@)),
    }
}

pub open spec fn fields_view(s: Seq<(String, JsonValue)>) -> Seq<(Seq<char>, JsonView)>
    decreases s,
{
    if s.len() == 0 {
        Seq::empty()
    } else {
        fields_view(s.drop_last()).push((s.last().0@, json_view(s.last().1)))
    }
}

/// The integer at JSON pointer `pointer` of the JSON text `text`; `None`
/// where the text is no JSON, nothing is there, or what is there is no
/// integer within `i64`.
pub uninterp spec fn json_int(text: Seq<char>, pointer: Seq<char>) -> Option<i64>;

/// The string at JSON pointer `pointer` of the JSON text `text`; `None`
/// where the text is no JSON, nothing is there, or what is there is no string.
pub uninterp spec fn json_str(text: Seq<char>, pointer: Seq<char>) -> Option<Seq<char>>;

/// The compact JSON text of the value at JSON pointer `pointer` of `text`.
pub uninterp spec fn json_raw(text: Seq<char>, pointer: Seq<char>) -> Option<Seq<char>>;

/// The keys of the object at JSON pointer `pointer` of `text`, in the
/// order `serde_json`'s map keeps them (ascending; the map is a `BTreeMap`
/// as long as its `preserve_order` feature is off, as it is here).
pub uninterp spec fn json_keys(text: Seq<char>, pointer: Seq<char>) -> Option<Seq<Seq<char>>>;

/// `serde_json`'s message for text that is no JSON; `None` for JSON text.
pub uninterp spec fn json_error(text: Seq<char>) -> Option<Seq<char>>;

/// `serde_json::from_str::<Value>(text)` followed by `Value::pointer` and
/// `Value::as_i64`: the named result `json_int`.
#[verifier::external_body]
pub(crate) fn int_at(text: &str, pointer: &str) -> (r: Option<i64>)
    ensures
        r == json_int(text@, pointer@),
{
    let v: serde_json::Value = serde_json::from_str(text).ok()?;
    v.pointer(pointer)?.as_i64()
}

/// `serde_json::from_str::<Value>(text)` followed by `Value::pointer` and
/// `Value::as_str`: the named result `json_str`.
#[verifier::external_body]
pub(crate) fn str_at(text: &str, pointer: &str) -> (r: Option<String>)
    ensures
        r.is_some() == json_str(text@, pointer@).is_some(),
        r.is_some() ==> r.unwrap()@ == json_str(text@, pointer@).unwrap(),
{
    let v: serde_json::Value = serde_json::from_str(text).ok()?;
    Some(v.pointer(pointer)?.as_str()?.to_string())
}

/// `serde_json::from_str::<Value>(text)` followed by `Value::pointer` and
/// `Value::to_string`: the named result `json_raw`.
#[verifier::external_body]
pub(crate) fn raw_at(text: &str, pointer: &str) -> (r: Option<String>)
    ensures
        r.is_some() == json_raw(text@, pointer@).is_some(),
        r.is_some() ==> r.unwrap()@ == json_raw(text@, pointer@).unwrap(),
{
    let v: serde_json::Value = serde_json::from_str(text).ok()?;
    Some(v.pointer(pointer)?.to_string())
}

/// `serde_json::from_str::<Value>(text)` followed by `Value::pointer` and
/// `Value::as_object`, keys in the map's order: the named result `json_keys`.
#[verifier::external_body]
pub(crate) fn keys_at(text: &str, pointer: &str) -> (r: Option<Vec<String>>)
    ensures
        r.is_some() == json_keys(text@, pointer@).is_some(),
        r.is_some() ==> r.unwrap()@.len() == json_keys(text@, pointer@).unwrap().len(),
        r.is_some() ==> forall|i: int| 0 <= i < r.unwrap()@.len() ==> #[trigger] r.unwrap()@[i]@ == json_keys(text@, pointer@).unwrap()[i],
{
    let v: serde_json::Value = serde_json::from_str(text).ok()?;
    Some(v.pointer(pointer)?.as_object()?.keys().cloned().collect())
}

/// `serde_json::from_str::<Value>(text).err()`, displayed: the named result `json_error`.
#[verifier::external_body]
pub(crate) fn parse_error(text: &str) -> (r: Option<String>)
    ensures
        r.is_some() == json_error(text@).is_some(),
        r.is_some() ==> r.unwrap()@ == json_error(text@).unwrap(),
{
    let e = serde_json::from_str::<serde_json::Value>(text).err()?;
    Some(e.to_string())
}

/// `o`'s value, or `d` where there is none.
pub open spec fn or_default(o: Option<Seq<char>>, d: Seq<char>) -> Seq<char> {
    match o {
        Some(v) => v,
        None => d,
    }
}

/// The integer at `pointer` of `text`, or `d`.
pub open spec fn int_or_default(text: Seq<char>, pointer: Seq<char>, d: int) -> int {
    match json_int(text, pointer) {
        Some(v) => v as int,
        None => d,
    }
}

/// The string at `pointer` of `text`, or `default` where there is none.
pub fn str_or(text: &str, pointer: &str, default: &str) -> (r: String)
    ensures
        r@ == or_default(json_str(text@, pointer@), default@),
{
    match str_at(text, pointer) {
        Some(v) => v,
        None => String::from_str(default),
    }
}

/// The integer at `pointer` of `text`, or `default` where there is none.
pub fn int_or(text: &str, pointer: &str, default: i64) -> (r: i64)
    ensures
        r == int_or_default(text@, pointer@, default as int),
{
    match int_at(text, pointer) {
        Some(v) => v,
        None => default,
    }
}

/// Appends the field `k: v` to an object's fields.
pub fn push_field(fs: &mut Vec<(String, JsonValue)>, k: &str, v: JsonValue)
    ensures
        fields_view(final(fs)@) == fields_view(old(fs)@).push((k@, json_view(v))),
{
    fs.push((String::from_str(k), v));
    assert(fs@.drop_last() =~= old(fs)@);
}

/// The JSON string `s`.
pub fn str_value(s: &str) -> (v: JsonValue)
    ensures
        json_view(v) == JsonView::Str(s@),
{
    JsonValue::Str(String::from_str(s))
}

} // verus!
