//! A minimal model of JSON values, holding exactly what the schema
//! parser reads: strings and arrays carry their content, while numbers
//! and objects are kept only as markers (the parser never looks inside
//! them).

use vstd::prelude::*;

verus! {

/// Mathematical counterpart of `JsonValue`.
pub enum JsonVal {
    Null,
    Bool(bool),
    Number,
    Text(Seq<char>),
    Arr(Seq<JsonVal>),
    Object,
}

/// One decoded JSON value.
#[derive(Debug, PartialEq, Eq)]
pub enum JsonValue {
    Null,
    Bool(bool),
    Number,
    Text(String),
    Arr(Vec<JsonValue>),
    Object,
}

/// The views of the first `n` elements of a decoded array, in order.
pub open spec fn vals_view_to(a: &Vec<JsonValue>, n: int) -> Seq<JsonVal>
    decreases a, n,
{
    if n <= 0 || a@.len() < n {
        Seq::empty()
    } else {
        vals_view_to(a, n - 1).push(a@[n - 1]@)
    }
}

/// The views of a decoded array's elements, in order.
pub open spec fn vals_view(a: &Vec<JsonValue>) -> Seq<JsonVal> {
    vals_view_to(a, a@.len() as int)
}

impl View for JsonValue {
    type V = JsonVal;

    closed spec fn view(&self) -> JsonVal
        decreases self, 0int,
    {
        match self {
            JsonValue::Null => JsonVal::Null,
            JsonValue::Bool(b) => JsonVal::Bool(*b),
            JsonValue::Number => JsonVal::Number,
            JsonValue::Text(s) => JsonVal::Text(s@),
            JsonValue::Arr(a) => JsonVal::Arr(vals_view_to(a, a@.len() as int)),
            JsonValue::Object => JsonVal::Object,
        }
    }
}

/// The length of a viewed element prefix is the prefix length.
pub proof fn lemma_vals_view_len(a: &Vec<JsonValue>, n: int)
    requires
        0 <= n <= a@.len(),
    ensures
        vals_view_to(a, n).len() == n,
    decreases n,
{
    if n > 0 {
        lemma_vals_view_len(a, n - 1);
        assert(vals_view_to(a, n) == vals_view_to(a, n - 1).push(a@[n - 1]@));
    } else {
        assert(vals_view_to(a, n) == Seq::<JsonVal>::empty());
    }
    assert(vals_view_to(a, n).len() == n);
}

/// Each place of a viewed element prefix is that element's view.
pub proof fn lemma_vals_view_at(a: &Vec<JsonValue>, n: int, i: int)
    requires
        0 <= i < n <= a@.len(),
    ensures
        vals_view_to(a, n).len() == n,
        vals_view_to(a, n)[i] == a@[i]@,
    decreases n,
{
    lemma_vals_view_len(a, n);
    lemma_vals_view_len(a, n - 1);
    assert(vals_view_to(a, n) == vals_view_to(a, n - 1).push(a@[n - 1]@));
    if i < n - 1 {
        lemma_vals_view_at(a, n - 1, i);
        assert(vals_view_to(a, n)[i] == a@[i]@);
    } else {
        assert(vals_view_to(a, n)[i] == a@[i]@);
    }
}

/// The view of each `JsonValue` variant, made explicit for callers.
pub proof fn lemma_json_view(v: &JsonValue)
    ensures
        *v matches JsonValue::Null ==> v@ == JsonVal::Null,
        *v matches JsonValue::Bool(b) ==> v@ == JsonVal::Bool(b),
        *v matches JsonValue::Number ==> v@ == JsonVal::Number,
        *v matches JsonValue::Text(s) ==> v@ == JsonVal::Text(s@),
        *v matches JsonValue::Arr(a) ==> v@ == JsonVal::Arr(vals_view(&a)),
        *v matches JsonValue::Object ==> v@ == JsonVal::Object,
{
    assert(*v matches JsonValue::Null ==> v@ == JsonVal::Null);
    assert(*v matches JsonValue::Bool(b) ==> v@ == JsonVal::Bool(b));
    assert(*v matches JsonValue::Number ==> v@ == JsonVal::Number);
    assert(*v matches JsonValue::Text(s) ==> v@ == JsonVal::Text(s@));
    assert(*v matches JsonValue::Arr(a) ==> v@ == JsonVal::Arr(vals_view(&a)));
    assert(*v matches JsonValue::Object ==> v@ == JsonVal::Object);
}

/// The text of a `Text` value, or `None` for any other shape.
pub open spec fn as_text(v: JsonVal) -> Option<Seq<char>> {
    match v {
        JsonVal::Text(s) => Some(s),
        _ => None,
    }
}

/// The elements of an `Arr` value, or `None` for any other shape.
pub open spec fn as_arr(v: JsonVal) -> Option<Seq<JsonVal>> {
    match v {
        JsonVal::Arr(a) => Some(a),
        _ => None,
    }
}

/// What `serde_json::from_str::<serde_json::Value>` yields on this text,
/// reduced to the parts of a JSON document that the schema parser reads;
/// `None` when the text is not valid JSON.
pub uninterp spec fn json_of_text(s: Seq<char>) -> Option<JsonVal>;

#[verifier::external_type_specification]
#[verifier::external_body]
pub struct ExValue(serde_json::Value);

/// Relies on serde_json::Value: its variants are told apart one arm each;
/// string and array content is carried over, number and object content is
/// not read by any caller and is reduced to a marker.
#[verifier::external_body]
fn from_serde_value(v: &serde_json::Value) -> JsonValue {
    match v {
        serde_json::Value::Null => JsonValue::Null,
        serde_json::Value::Bool(b) => JsonValue::Bool(*b),
        serde_json::Value::Number(_) => JsonValue::Number,
        serde_json::Value::String(s) => JsonValue::Text(s.clone()),
        serde_json::Value::Array(a) => JsonValue::Arr(a.iter().map(from_serde_value).collect()),
        serde_json::Value::Object(_) => JsonValue::Object,
    }
}

/// Relies on serde_json::from_str: whether the text is valid JSON, and the
/// document it denotes, are functions of the text alone.
#[verifier::external_body]
pub(crate) fn parse_json_text(s: &str) -> (r: Option<JsonValue>)
    ensures
        match r {
            Some(v) => json_of_text(s@) == Some(v@),
            None => json_of_text(s@) is None,
        },
{
    match serde_json::from_str::<serde_json::Value>(s) {
        Ok(v) => Some(from_serde_value(&v)),
        Err(_) => None,
    }
}

} // verus!
