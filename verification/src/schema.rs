//! Typed fields of a JSON object: which members fill a field, and what is
//! left of the object when those are taken.

use vstd::prelude::*;
use crate::json::number_at;
use crate::json::object_at;
use crate::json::take_number;
use crate::json::take_object;
use crate::json::take_text;
use crate::json::take_u32;
use crate::json::take_u64;
use crate::json::text_at;
use crate::json::u32_at;
use crate::json::u64_at;
use crate::json::without_taken;
use crate::json::JsonNumber;
use crate::json::JsonValue;
use crate::textmap::TextMap;

verus! {

/// The kind of value that a field takes.
pub enum FieldKind {
    /// A string.
    Text,
    /// A non-negative integer of at most 32 bits.
    U32,
    /// A non-negative integer of at most 64 bits.
    U64,
    /// Any number.
    Number,
    /// An object.
    Object,
}

/// The fields of an object: each name with the kind of its value.
pub type Schema = Seq<(Seq<char>, FieldKind)>;

/// Whether a value is of the kind that a field takes.
pub open spec fn fits(kind: FieldKind, value: JsonValue) -> bool {
    match kind {
        FieldKind::Text => value is String,
        FieldKind::U32 => value matches JsonValue::Number(JsonNumber::PosInt(n)) && n <= u32::MAX,
        FieldKind::U64 => value matches JsonValue::Number(JsonNumber::PosInt(_)),
        FieldKind::Number => value is Number,
        FieldKind::Object => value is Object,
    }
}

/// Whether the member `name` of `object` fills a field of `schema`: the
/// schema has a field of that name, and the member's value is of its kind.
pub open spec fn fills(schema: Schema, object: Map<Seq<char>, JsonValue>, name: Seq<char>) -> bool {
    exists|i: int|
        0 <= i < schema.len() && (#[trigger] schema[i]).0 == name && object.contains_key(name)
            && fits(schema[i].1, object[name])
}

/// What is left of `object` when the members that fill a field of `schema`
/// are taken out.
pub open spec fn members_left(schema: Schema, object: Map<Seq<char>, JsonValue>) -> Map<
    Seq<char>,
    JsonValue,
> {
    object.remove_keys(Set::new(|name: Seq<char>| fills(schema, object, name)))
}

/// Whether no two fields of `schema` have the same name.
pub open spec fn distinct_names(schema: Schema) -> bool {
    forall|i: int, j: int|
        0 <= i < j < schema.len() ==> (#[trigger] schema[i]).0 != (#[trigger] schema[j]).0
}

/// Every member of an object either fills a field or is left with its
/// value, and nothing is left that the object did not have.
pub proof fn lemma_nothing_dropped(schema: Schema, object: Map<Seq<char>, JsonValue>)
    ensures
        forall|name: Seq<char>|
            object.contains_key(name) && !fills(schema, object, name) ==> #[trigger] members_left(
                schema,
                object,
            ).contains_key(name) && members_left(schema, object)[name] == object[name],
        forall|name: Seq<char>| #[trigger]
            members_left(schema, object).contains_key(name) ==> object.contains_key(name)
                && !fills(schema, object, name),
{
}

/// Taking the field at place `at` out of what the fields before it left of
/// `object` leaves what the fields up to it leave.
proof fn lemma_take_field(
    schema: Schema,
    object: Map<Seq<char>, JsonValue>,
    at: int,
    took: bool,
)
    requires
        distinct_names(schema),
        0 <= at < schema.len(),
        took == (object.contains_key(schema[at].0) && fits(schema[at].1, object[schema[at].0])),
    ensures
        members_left(schema.take(at), object).contains_key(schema[at].0) == object.contains_key(
            schema[at].0,
        ),
        object.contains_key(schema[at].0) ==> members_left(schema.take(at), object)[schema[at].0]
            == object[schema[at].0],
        without_taken(members_left(schema.take(at), object), schema[at].0, took) == members_left(
            schema.take(at + 1),
            object,
        ),
{
    let name = schema[at].0;
    let before = schema.take(at);
    let after = schema.take(at + 1);
    assert(!fills(before, object, name)) by {
        if fills(before, object, name) {
            let i = choose|i: int|
                0 <= i < before.len() && (#[trigger] before[i]).0 == name && object.contains_key(
                    name,
                ) && fits(before[i].1, object[name]);
            assert(schema[i].0 != schema[at].0);
        }
    }
    assert forall|other: Seq<char>| fills(after, object, other) <==> (fills(before, object, other)
        || (took && other == name)) by {
        if fills(after, object, other) {
            let i = choose|i: int|
                0 <= i < after.len() && (#[trigger] after[i]).0 == other && object.contains_key(
                    other,
                ) && fits(after[i].1, object[other]);
            if i < at {
                assert(before[i].0 == other);
            }
        }
        if fills(before, object, other) {
            let i = choose|i: int|
                0 <= i < before.len() && (#[trigger] before[i]).0 == other && object.contains_key(
                    other,
                ) && fits(before[i].1, object[other]);
            assert(after[i].0 == other);
        }
        if took && other == name {
            assert(after[at].0 == other);
        }
    }
    assert(without_taken(members_left(before, object), name, took) =~= members_left(
        after,
        object,
    ));
}

/// Takes the string field at place `at` of `schema` out of what the fields
/// before it left of `object`.
pub(crate) fn field_text(
    rest: &mut TextMap<JsonValue>,
    name: &str,
    Ghost(schema): Ghost<Schema>,
    Ghost(object): Ghost<Map<Seq<char>, JsonValue>>,
    Ghost(at): Ghost<int>,
) -> (text: Option<String>)
    requires
        distinct_names(schema),
        0 <= at < schema.len(),
        schema[at] == (name@, FieldKind::Text),
        old(rest)@ == members_left(schema.take(at), object),
    ensures
        text == text_at(object, name@),
        final(rest)@ == members_left(schema.take(at + 1), object),
{
    let text = take_text(rest, name);
    proof {
        lemma_take_field(schema, object, at, text is Some);
    }
    text
}

/// Takes the number field at place `at` of `schema` out of what the fields
/// before it left of `object`.
pub(crate) fn field_number(
    rest: &mut TextMap<JsonValue>,
    name: &str,
    Ghost(schema): Ghost<Schema>,
    Ghost(object): Ghost<Map<Seq<char>, JsonValue>>,
    Ghost(at): Ghost<int>,
) -> (number: Option<JsonNumber>)
    requires
        distinct_names(schema),
        0 <= at < schema.len(),
        schema[at] == (name@, FieldKind::Number),
        old(rest)@ == members_left(schema.take(at), object),
    ensures
        number == number_at(object, name@),
        final(rest)@ == members_left(schema.take(at + 1), object),
{
    let number = take_number(rest, name);
    proof {
        lemma_take_field(schema, object, at, number is Some);
    }
    number
}

/// Takes the 64-bit field at place `at` of `schema` out of what the fields
/// before it left of `object`.
pub(crate) fn field_u64(
    rest: &mut TextMap<JsonValue>,
    name: &str,
    Ghost(schema): Ghost<Schema>,
    Ghost(object): Ghost<Map<Seq<char>, JsonValue>>,
    Ghost(at): Ghost<int>,
) -> (number: Option<u64>)
    requires
        distinct_names(schema),
        0 <= at < schema.len(),
        schema[at] == (name@, FieldKind::U64),
        old(rest)@ == members_left(schema.take(at), object),
    ensures
        number == u64_at(object, name@),
        final(rest)@ == members_left(schema.take(at + 1), object),
{
    let number = take_u64(rest, name);
    proof {
        lemma_take_field(schema, object, at, number is Some);
    }
    number
}

/// Takes the 32-bit field at place `at` of `schema` out of what the fields
/// before it left of `object`.
pub(crate) fn field_u32(
    rest: &mut TextMap<JsonValue>,
    name: &str,
    Ghost(schema): Ghost<Schema>,
    Ghost(object): Ghost<Map<Seq<char>, JsonValue>>,
    Ghost(at): Ghost<int>,
) -> (number: Option<u32>)
    requires
        distinct_names(schema),
        0 <= at < schema.len(),
        schema[at] == (name@, FieldKind::U32),
        old(rest)@ == members_left(schema.take(at), object),
    ensures
        number == u32_at(object, name@),
        final(rest)@ == members_left(schema.take(at + 1), object),
{
    let number = take_u32(rest, name);
    proof {
        lemma_take_field(schema, object, at, number is Some);
    }
    number
}

/// Takes the object field at place `at` of `schema` out of what the fields
/// before it left of `object`.
pub(crate) fn field_object(
    rest: &mut TextMap<JsonValue>,
    name: &str,
    Ghost(schema): Ghost<Schema>,
    Ghost(object): Ghost<Map<Seq<char>, JsonValue>>,
    Ghost(at): Ghost<int>,
) -> (members: Option<Vec<(String, JsonValue)>>)
    requires
        distinct_names(schema),
        0 <= at < schema.len(),
        schema[at] == (name@, FieldKind::Object),
        old(rest)@ == members_left(schema.take(at), object),
    ensures
        members == object_at(object, name@),
        final(rest)@ == members_left(schema.take(at + 1), object),
{
    let members = take_object(rest, name);
    proof {
        lemma_take_field(schema, object, at, members is Some);
    }
    members
}

} // verus!
