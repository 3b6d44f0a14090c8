//! An owned model of the JSON values the protocol exchanges. The trusted
//! boundary is one parser wrapper; everything that reads or builds a value
//! is verified against it. Numbers carry the integer part the protocol
//! uses; a non-integer number reads as null.

use vstd::prelude::*;
use crate::text::str_eq;

verus! {

pub enum JsonValue {
    Null,
    Bool(bool),
    Int(i64),
    Str(String),
    Arr(Vec<JsonValue>),
    Obj(Vec<(String, JsonValue)>),
}

/// The elements of an array value; empty for anything else.
pub open spec fn elems(v: JsonValue) -> Seq<JsonValue> {
    match v {
        JsonValue::Arr(a) => a@,
        _ => Seq::empty(),
    }
}

/// The key-value pairs of an object value; empty for anything else.
pub open spec fn fields(v: JsonValue) -> Seq<(String, JsonValue)> {
    match v {
        JsonValue::Obj(es) => es@,
        _ => Seq::empty(),
    }
}

/// A size measure on values: every element and every field value weighs
/// less than the value that holds it.
pub open spec fn jheight(v: JsonValue) -> nat
    decreases v, 1int, 0int,
{
    match v {
        JsonValue::Arr(_) => 1 + jheight_elems(v, 0),
        JsonValue::Obj(_) => 1 + jheight_fields(v, 0),
        _ => 0,
    }
}

pub open spec fn jheight_elems(v: JsonValue, i: int) -> nat
    decreases v, 0int, elems(v).len() - i,
{
    if 0 <= i < elems(v).len() {
        1 + jheight(elems(v)[i]) + jheight_elems(v, i + 1)
    } else {
        0
    }
}

pub open spec fn jheight_fields(v: JsonValue, i: int) -> nat
    decreases v, 0int, fields(v).len() - i,
{
    if 0 <= i < fields(v).len() {
        1 + jheight(fields(v)[i].1) + jheight_fields(v, i + 1)
    } else {
        0
    }
}

/// The first field of the object `v` named `key`, scanning from `i`.
pub open spec fn get_field_from(v: JsonValue, key: Seq<char>, i: int) -> Option<JsonValue>
    decreases fields(v).len() - i,
{
    if 0 <= i < fields(v).len() {
        if fields(v)[i].0@ == key {
            Some(fields(v)[i].1)
        } else {
            get_field_from(v, key, i + 1)
        }
    } else {
        None
    }
}

/// The value of the field named `key`; nothing on a non-object or a missing
/// key.
pub open spec fn get_field(v: JsonValue, key: Seq<char>) -> Option<JsonValue> {
    get_field_from(v, key, 0)
}

/// An element weighs less than its array.
pub proof fn lemma_elem_height(v: JsonValue, i: int)
    requires
        0 <= i < elems(v).len(),
        v is Arr,
    ensures
        jheight(elems(v)[i]) < jheight(v),
{
    lemma_elem_height_from(v, 0, i);
}

proof fn lemma_elem_height_from(v: JsonValue, a: int, i: int)
    requires
        0 <= a <= i < elems(v).len(),
    ensures
        jheight(elems(v)[i]) < 1 + jheight_elems(v, a),
    decreases i - a,
{
    if a < i {
        lemma_elem_height_from(v, a + 1, i);
    }
}

/// A field's value weighs less than its object.
pub proof fn lemma_field_height(v: JsonValue, key: Seq<char>)
    requires
        get_field(v, key) is Some,
        v is Obj,
    ensures
        jheight(get_field(v, key).unwrap()) < jheight(v),
{
    lemma_field_height_from(v, key, 0);
}

proof fn lemma_field_height_from(v: JsonValue, key: Seq<char>, i: int)
    requires
        0 <= i,
        get_field_from(v, key, i) is Some,
    ensures
        jheight(get_field_from(v, key, i).unwrap()) < 1 + jheight_fields(v, i),
    decreases fields(v).len() - i,
{
    if i < fields(v).len() {
        if fields(v)[i].0@ == key {
        } else {
            lemma_field_height_from(v, key, i + 1);
        }
    }
}

impl JsonValue {
    /// The value of the field named `key`, when this is an object that has
    /// one.
    pub fn get<'a>(&'a self, key: &str) -> (r: Option<&'a JsonValue>)
        ensures
            match r {
                Some(f) => get_field(*self, key@) == Some(*f),
                None => get_field(*self, key@) is None,
            },
    {
        match self {
            JsonValue::Obj(entries) => {
                let n = entries.len();
                let mut i: usize = 0;
                while i < n
                    invariant
                        n == entries@.len(),
                        i <= n,
                        entries@ == fields(*self),
                        get_field(*self, key@) == get_field_from(*self, key@, i as int),
                    decreases n - i,
                {
                    if str_eq(entries[i].0.as_str(), key) {
                        return Some(&entries[i].1);
                    }
                    i += 1;
                }
                None
            },
            _ => None,
        }
    }

    /// The string content, when this is a string.
    pub fn as_str<'a>(&'a self) -> (r: Option<&'a String>)
        ensures
            match r {
                Some(s) => *self == JsonValue::Str(*s),
                None => !(*self is Str),
            },
    {
        match self {
            JsonValue::Str(s) => Some(s),
            _ => None,
        }
    }

    /// The integer content, when this is an integer.
    pub fn as_int(&self) -> (r: Option<i64>)
        ensures
            match r {
                Some(n) => *self == JsonValue::Int(n),
                None => !(*self is Int),
            },
    {
        match self {
            JsonValue::Int(n) => Some(*n),
            _ => None,
        }
    }

    /// The elements, when this is an array.
    pub fn as_arr<'a>(&'a self) -> (r: Option<&'a Vec<JsonValue>>)
        ensures
            match r {
                Some(a) => *self == JsonValue::Arr(*a) && a@ == elems(*self),
                None => !(*self is Arr),
            },
    {
        match self {
            JsonValue::Arr(a) => Some(a),
            _ => None,
        }
    }
}

/// Takes the field named `key` out of an object, handing the value back
/// untouched when there is no such field.
pub fn take_field(v: JsonValue, key: &str) -> (r: Result<JsonValue, JsonValue>)
    ensures
        match r {
            Ok(f) => get_field(v, key@) == Some(f),
            Err(orig) => orig == v && get_field(v, key@) is None,
        },
{
    match v {
        JsonValue::Obj(mut entries) => {
            let n = entries.len();
            let mut i: usize = 0;
            while i < n
                invariant
                    v == JsonValue::Obj(entries),
                    n == entries@.len(),
                    i <= n,
                    get_field(v, key@) == get_field_from(v, key@, i as int),
                decreases n - i,
            {
                if str_eq(entries[i].0.as_str(), key) {
                    let (_, value) = entries.remove(i);
                    return Ok(value);
                }
                i += 1;
            }
            proof {
                assert(JsonValue::Obj(entries) == v);
            }
            Err(JsonValue::Obj(entries))
        },
        other => Err(other),
    }
}

/// Relies on serde_json: `from_str` parses JSON text into a value tree, or
/// refuses malformed text.
#[verifier::external_body]
pub fn json_parse(text: &str) -> (r: Option<JsonValue>)
{
    match serde_json::from_str::<serde_json::Value>(text) {
        Ok(v) => Some(json_from_value(v)),
        Err(_) => None,
    }
}

/// Carries one parsed serde_json value over into the library's model, arm
/// by arm; a number becomes its integer value, or null when it has none.
#[verifier::external_body]
fn json_from_value(v: serde_json::Value) -> JsonValue {
    match v {
        serde_json::Value::Null => JsonValue::Null,
        serde_json::Value::Bool(b) => JsonValue::Bool(b),
        serde_json::Value::Number(n) => n.as_i64().map_or(JsonValue::Null, JsonValue::Int),
        serde_json::Value::String(s) => JsonValue::Str(s),
        serde_json::Value::Array(a) => JsonValue::Arr(a.into_iter().map(json_from_value).collect()),
        serde_json::Value::Object(o) => JsonValue::Obj(o.into_iter().map(|(k, w)| (k, json_from_value(w))).collect()),
    }
}

/// The declared shape of serde_json's value type, so the conversion above
/// can name it.
#[verifier::external_type_specification]
#[verifier::external_body]
pub struct ExValue(serde_json::Value);

} // verus!
