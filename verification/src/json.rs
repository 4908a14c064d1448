//! JSON documents as plain data, read from text by `serde_json`.

use vstd::prelude::*;
use crate::textmap::TextMap;

verus! {

/// The error that `serde_json` reports for text that is not a JSON document.
#[verifier::external_type_specification]
#[verifier::external_body]
pub struct ExJsonError(serde_json::Error);

/// A JSON value as `serde_json` holds it.
#[verifier::external_type_specification]
#[verifier::external_body]
pub struct ExJsonTree(serde_json::Value);

/// A JSON number, in the form in which the parser holds it.
#[derive(Clone, Copy, Debug, PartialEq, Eq)]
pub enum JsonNumber {
    /// A non-negative integer.
    PosInt(u64),
    /// A negative integer.
    NegInt(i64),
    /// Any other number, as the bit pattern of its IEEE 754 binary64 value.
    /// The value is finite.
    Float(u64),
}

/// A JSON value.
#[derive(Debug, PartialEq, Eq)]
pub enum JsonValue {
    Null,
    Bool(bool),
    Number(JsonNumber),
    String(String),
    Array(Vec<JsonValue>),
    /// The members of an object. A parsed object has each name once; of two
    /// members with one name the later counts.
    Object(Vec<(String, JsonValue)>),
}

/// What a JSON value holds: its texts as sequences of characters, its
/// lists as sequences.
pub enum JsonView {
    Null,
    Bool(bool),
    Number(JsonNumber),
    String(Seq<char>),
    Array(Seq<JsonView>),
    Object(Seq<(Seq<char>, JsonView)>),
}

/// What a JSON value holds.
pub open spec fn json_view(value: JsonValue) -> JsonView
    decreases value,
{
    match value {
        JsonValue::Null => JsonView::Null,
        JsonValue::Bool(b) => JsonView::Bool(b),
        JsonValue::Number(n) => JsonView::Number(n),
        JsonValue::String(text) => JsonView::String(text@),
        JsonValue::Array(items) => JsonView::Array(
            Seq::new(
                items@.len(),
                |i: int|
                    if 0 <= i < items@.len() {
                        json_view(items@[i])
                    } else {
                        JsonView::Null
                    },
            ),
        ),
        JsonValue::Object(members) => JsonView::Object(
            Seq::new(
                members@.len(),
                |i: int|
                    if 0 <= i < members@.len() {
                        (members@[i].0@, json_view(members@[i].1))
                    } else {
                        (Seq::empty(), JsonView::Null)
                    },
            ),
        ),
    }
}

impl Clone for JsonValue {
    /// A copy that holds what `self` holds.
    fn clone(&self) -> (copy: Self)
        ensures
            json_view(copy) == json_view(*self),
    {
        self.duplicate()
    }
}

impl JsonValue {
    fn duplicate(&self) -> (copy: Self)
        ensures
            json_view(copy) == json_view(*self),
        decreases self,
    {
        match self {
            JsonValue::Null => JsonValue::Null,
            JsonValue::Bool(b) => JsonValue::Bool(*b),
            JsonValue::Number(n) => JsonValue::Number(*n),
            JsonValue::String(text) => JsonValue::String(text.clone()),
            JsonValue::Array(items) => {
                let mut copies: Vec<JsonValue> = Vec::new();
                let mut i: usize = 0;
                while i < items.len()
                    invariant
                        *self == JsonValue::Array(*items),
                        i <= items@.len(),
                        copies@.len() == i,
                        forall|j: int| 0 <= j < i ==> json_view(#[trigger] copies@[j]) == json_view(items@[j]),
                    decreases items@.len() - i,
                {
                    proof {
                        assert(decreases_to!(*self => self->Array_0));
                        assert(decreases_to!(self->Array_0 => items@[i as int]));
                    }
                    copies.push(items[i].duplicate());
                    i += 1;
                }
                let copy = JsonValue::Array(copies);
                assert(json_view(copy)->Array_0 =~= json_view(*self)->Array_0) by {
                    assert forall|j: int| 0 <= j < copies@.len() implies json_view(
                        copy,
                    )->Array_0[j] == json_view(*self)->Array_0[j] by {
                        assert(json_view(copies@[j]) == json_view(items@[j]));
                    }
                }
                copy
            },
            JsonValue::Object(members) => {
                let mut copies: Vec<(String, JsonValue)> = Vec::new();
                let mut i: usize = 0;
                while i < members.len()
                    invariant
                        *self == JsonValue::Object(*members),
                        i <= members@.len(),
                        copies@.len() == i,
                        forall|j: int|
                            0 <= j < i ==> (#[trigger] copies@[j]).0@ == members@[j].0@
                                && json_view(copies@[j].1) == json_view(members@[j].1),
                    decreases members@.len() - i,
                {
                    proof {
                        assert(decreases_to!(*self => self->Object_0));
                        assert(decreases_to!(self->Object_0 => members@[i as int]));
                        assert(decreases_to!(members@[i as int] => members@[i as int].1));
                    }
                    copies.push((members[i].0.clone(), members[i].1.duplicate()));
                    i += 1;
                }
                let copy = JsonValue::Object(copies);
                assert(json_view(copy)->Object_0 =~= json_view(*self)->Object_0) by {
                    assert forall|j: int| 0 <= j < copies@.len() implies json_view(
                        copy,
                    )->Object_0[j] == json_view(*self)->Object_0[j] by {
                        assert(json_view(copies@[j].1) == json_view(members@[j].1));
                    }
                }
                copy
            },
        }
    }
}

/// The value that a `serde_json::Value` holds.
pub uninterp spec fn tree_value(tree: serde_json::Value) -> JsonValue;

/// The document that a text denotes, or `None` where the text is not JSON.
pub uninterp spec fn json_document(text: Seq<char>) -> Option<JsonValue>;

/// Rewrites a `serde_json::Value` as a [`JsonValue`], variant by variant and
/// member by member, in the order in which `serde_json` hands the members
/// out. A number becomes `PosInt` where `Number::as_u64` gives a value, else
/// `NegInt` where `Number::as_i64` does, else `Float` with the bits of what
/// `Number::as_f64` gives.
#[verifier::external_body]
pub(crate) fn convert_value(tree: serde_json::Value) -> (value: JsonValue)
    ensures
        value == tree_value(tree),
{
    match tree {
        serde_json::Value::Null => JsonValue::Null,
        serde_json::Value::Bool(b) => JsonValue::Bool(b),
        serde_json::Value::Number(n) => n.as_u64().map(JsonNumber::PosInt)
            .or(n.as_i64().map(JsonNumber::NegInt))
            .or(n.as_f64().map(|x| JsonNumber::Float(x.to_bits())))
            .map_or(JsonValue::Null, JsonValue::Number),
        serde_json::Value::String(s) => JsonValue::String(s),
        serde_json::Value::Array(items) => JsonValue::Array(items.into_iter().map(convert_value).collect()),
        serde_json::Value::Object(members) => JsonValue::Object(
            members.into_iter().map(|(k, v)| (k, convert_value(v))).collect(),
        ),
    }
}

/// Calls `serde_json::from_str` for a `serde_json::Value`. The outcome
/// depends on the text alone: an error for text that is not one JSON
/// document, else the document.
#[verifier::external_body]
pub(crate) fn parse_document(text: &str) -> (result: Result<serde_json::Value, serde_json::Error>)
    ensures
        result matches Ok(tree) ==> json_document(text@) == Some(tree_value(tree)),
        result is Err ==> json_document(text@) is None,
{
    serde_json::from_str::<serde_json::Value>(text)
}

/// The error for a document that is not an object, made by `serde_json`'s
/// impl of `serde::de::Error::custom`, as a deserializer makes its errors
/// on a value of the wrong type.
#[verifier::external_body]
pub(crate) fn shape_error() -> (error: serde_json::Error) {
    serde::de::Error::custom("invalid type: expected a JSON object")
}

/// What `serde_json` says of an error, by its `Display`: the reason, and
/// the line and column where the text went wrong.
#[verifier::external_body]
pub(crate) fn error_text(error: &serde_json::Error) -> (line: String) {
    error.to_string()
}

/// The text of the member `name`, where the object has one and it is a string.
pub open spec fn text_at(object: Map<Seq<char>, JsonValue>, name: Seq<char>) -> Option<String> {
    if object.contains_key(name) {
        match object[name] {
            JsonValue::String(text) => Some(text),
            _ => None,
        }
    } else {
        None
    }
}

/// The member `name`, where the object has one and it is a number.
pub open spec fn number_at(object: Map<Seq<char>, JsonValue>, name: Seq<char>) -> Option<
    JsonNumber,
> {
    if object.contains_key(name) {
        match object[name] {
            JsonValue::Number(number) => Some(number),
            _ => None,
        }
    } else {
        None
    }
}

/// The member `name`, where the object has one and it is a non-negative
/// integer.
pub open spec fn u64_at(object: Map<Seq<char>, JsonValue>, name: Seq<char>) -> Option<u64> {
    match number_at(object, name) {
        Some(JsonNumber::PosInt(n)) => Some(n),
        _ => None,
    }
}

/// The member `name`, where the object has one and it is a non-negative
/// integer of at most 32 bits.
pub open spec fn u32_at(object: Map<Seq<char>, JsonValue>, name: Seq<char>) -> Option<u32> {
    match number_at(object, name) {
        Some(JsonNumber::PosInt(n)) => if n <= u32::MAX {
            Some(n as u32)
        } else {
            None
        },
        _ => None,
    }
}

/// The members of the member `name`, where the object has one and it is an
/// object.
pub open spec fn object_at(object: Map<Seq<char>, JsonValue>, name: Seq<char>) -> Option<
    Vec<(String, JsonValue)>,
> {
    if object.contains_key(name) {
        match object[name] {
            JsonValue::Object(members) => Some(members),
            _ => None,
        }
    } else {
        None
    }
}

/// `object` without the member `name` where `taken` says that it was taken.
pub open spec fn without_taken(
    object: Map<Seq<char>, JsonValue>,
    name: Seq<char>,
    taken: bool,
) -> Map<Seq<char>, JsonValue> {
    if taken {
        object.remove(name)
    } else {
        object
    }
}

/// Takes the member `name` out of `object` where it is a string. Any other
/// member of that name stays.
pub fn take_text(object: &mut TextMap<JsonValue>, name: &str) -> (text: Option<String>)
    ensures
        text == text_at(old(object)@, name@),
        final(object)@ == without_taken(old(object)@, name@, text is Some),
{
    let fits = match object.get(name) {
        Some(JsonValue::String(_)) => true,
        _ => false,
    };
    if fits {
        match object.remove(name) {
            Some(JsonValue::String(text)) => Some(text),
            _ => None,
        }
    } else {
        None
    }
}

/// Takes the member `name` out of `object` where it is a number. Any other
/// member of that name stays.
pub fn take_number(object: &mut TextMap<JsonValue>, name: &str) -> (number: Option<JsonNumber>)
    ensures
        number == number_at(old(object)@, name@),
        final(object)@ == without_taken(old(object)@, name@, number is Some),
{
    let fits = match object.get(name) {
        Some(JsonValue::Number(_)) => true,
        _ => false,
    };
    if fits {
        match object.remove(name) {
            Some(JsonValue::Number(number)) => Some(number),
            _ => None,
        }
    } else {
        None
    }
}

/// Takes the member `name` out of `object` where it is a non-negative
/// integer. Any other member of that name stays.
pub fn take_u64(object: &mut TextMap<JsonValue>, name: &str) -> (number: Option<u64>)
    ensures
        number == u64_at(old(object)@, name@),
        final(object)@ == without_taken(old(object)@, name@, number is Some),
{
    let fits = match object.get(name) {
        Some(JsonValue::Number(JsonNumber::PosInt(_))) => true,
        _ => false,
    };
    if fits {
        match object.remove(name) {
            Some(JsonValue::Number(JsonNumber::PosInt(n))) => Some(n),
            _ => None,
        }
    } else {
        None
    }
}

/// Takes the member `name` out of `object` where it is a non-negative
/// integer of at most 32 bits. Any other member of that name stays.
pub fn take_u32(object: &mut TextMap<JsonValue>, name: &str) -> (number: Option<u32>)
    ensures
        number == u32_at(old(object)@, name@),
        final(object)@ == without_taken(old(object)@, name@, number is Some),
{
    let fits = match object.get(name) {
        Some(JsonValue::Number(JsonNumber::PosInt(n))) => *n <= 0xffff_ffff,
        _ => false,
    };
    if fits {
        match object.remove(name) {
            Some(JsonValue::Number(JsonNumber::PosInt(n))) => Some(n as u32),
            _ => None,
        }
    } else {
        None
    }
}

/// Takes the member `name` out of `object` where it is an object, and
/// returns its members. Any other member of that name stays.
pub fn take_object(object: &mut TextMap<JsonValue>, name: &str) -> (members: Option<
    Vec<(String, JsonValue)>,
>)
    ensures
        members == object_at(old(object)@, name@),
        final(object)@ == without_taken(old(object)@, name@, members is Some),
{
    let fits = match object.get(name) {
        Some(JsonValue::Object(_)) => true,
        _ => false,
    };
    if fits {
        match object.remove(name) {
            Some(JsonValue::Object(members)) => Some(members),
            _ => None,
        }
    } else {
        None
    }
}

} // verus!
