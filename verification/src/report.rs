//! What a consumer shows of a message: the remaining time in hours, minutes
//! and seconds, and the details of the device among the fields that the
//! message keeps as they came.

use vstd::prelude::*;
use crate::json::JsonNumber;
use crate::json::JsonValue;
use crate::text::str_eq;
use crate::textmap::entries_map;
use crate::textmap::has_key;
use crate::textmap::lemma_entries_map_dom;
use crate::textmap::TextMap;

verus! {

/// A time span in hours, minutes below sixty and seconds below sixty.
#[derive(Debug, Clone, Copy, PartialEq, Eq)]
pub struct Duration {
    pub hours: u32,
    pub minutes: u32,
    pub seconds: u32,
}

/// Splits a number of seconds into hours, minutes and seconds.
pub fn split_seconds(total: u32) -> (parts: Duration)
    ensures
        parts.hours * 3600 + parts.minutes * 60 + parts.seconds == total,
        parts.minutes < 60,
        parts.seconds < 60,
{
    let hours: u32 = total / 3600;
    let rest: u32 = total % 3600;
    let minutes: u32 = rest / 60;
    let seconds: u32 = rest % 60;
    assert(total == hours * 3600 + rest);
    assert(rest == minutes * 60 + seconds);
    Duration { hours, minutes, seconds }
}

/// The member `name` of an object, of two members with one name the later.
pub open spec fn member_at(members: Seq<(String, JsonValue)>, name: Seq<char>) -> Option<JsonValue> {
    if entries_map(members).contains_key(name) {
        Some(entries_map(members)[name])
    } else {
        None
    }
}

/// The text of a value that is a string.
pub open spec fn text_in(value: Option<JsonValue>) -> Option<Seq<char>> {
    match value {
        Some(JsonValue::String(text)) => Some(text@),
        _ => None,
    }
}

/// The number of a value that is a number.
pub open spec fn number_in(value: Option<JsonValue>) -> Option<JsonNumber> {
    match value {
        Some(JsonValue::Number(number)) => Some(number),
        _ => None,
    }
}

/// The member `name` of a value that is an object.
pub open spec fn member_in(value: Option<JsonValue>, name: Seq<char>) -> Option<JsonValue> {
    match value {
        Some(JsonValue::Object(members)) => member_at(members@, name),
        _ => None,
    }
}

/// The value at `name`, where the map has one.
pub open spec fn value_at(fields: Map<Seq<char>, JsonValue>, name: Seq<char>) -> Option<JsonValue> {
    if fields.contains_key(name) {
        Some(fields[name])
    } else {
        None
    }
}

/// The entry that stands last among those with a key is the one that the
/// map of the entries has at that key.
proof fn lemma_last_entry_counts(members: Seq<(String, JsonValue)>, at: int)
    requires
        0 <= at < members.len(),
        forall|j: int| at < j < members.len() ==> (#[trigger] members[j]).0@ != members[at].0@,
    ensures
        entries_map(members).contains_key(members[at].0@),
        entries_map(members)[members[at].0@] == members[at].1,
    decreases members.len(),
{
    if at < members.len() - 1 {
        let front = members.drop_last();
        assert(members[members.len() - 1].0@ != members[at].0@);
        assert forall|j: int| at < j < front.len() implies (#[trigger] front[j]).0@
            != front[at].0@ by {
            assert(members[j].0@ != members[at].0@);
        }
        lemma_last_entry_counts(front, at);
    }
}

/// The member `name` of an object.
pub fn member<'a>(members: &'a Vec<(String, JsonValue)>, name: &str) -> (value: Option<
    &'a JsonValue,
>)
    ensures
        match value {
            Some(v) => member_at(members@, name@) == Some(*v),
            None => member_at(members@, name@) is None,
        },
{
    let mut i: usize = members.len();
    while i > 0
        invariant
            i <= members@.len(),
            forall|j: int| i <= j < members@.len() ==> (#[trigger] members@[j]).0@ != name@,
        decreases i,
    {
        i -= 1;
        if str_eq(members[i].0.as_str(), name) {
            proof {
                lemma_last_entry_counts(members@, i as int);
            }
            return Some(&members[i].1);
        }
    }
    proof {
        lemma_entries_map_dom(members@);
        assert(!has_key(members@, name@));
    }
    None
}

fn text_value<'a>(value: Option<&'a JsonValue>) -> (text: Option<&'a str>)
    ensures
        match text {
            Some(t) => text_in(deref_of(value)) == Some(t@),
            None => text_in(deref_of(value)) is None,
        },
{
    match value {
        Some(JsonValue::String(text)) => Some(text.as_str()),
        _ => None,
    }
}

fn number_value(value: Option<&JsonValue>) -> (number: Option<JsonNumber>)
    ensures
        number == number_in(deref_of(value)),
{
    match value {
        Some(JsonValue::Number(number)) => Some(*number),
        _ => None,
    }
}

fn member_value<'a>(value: Option<&'a JsonValue>, name: &str) -> (inner: Option<&'a JsonValue>)
    ensures
        deref_of(inner) == member_in(deref_of(value), name@),
{
    match value {
        Some(JsonValue::Object(members)) => member(members, name),
        _ => None,
    }
}

/// The value behind a reference that may be absent.
pub open spec fn deref_of(value: Option<&JsonValue>) -> Option<JsonValue> {
    match value {
        Some(v) => Some(*v),
        None => None,
    }
}

/// The details of a device that a message carries among its extra fields.
#[derive(Debug)]
pub struct DeviceDetails<'a> {
    /// The string at `model`.
    pub model: Option<&'a str>,
    /// The string at `sn`.
    pub serial_number: Option<&'a str>,
    /// The string at `version` in the object at `ota`.
    pub firmware: Option<&'a str>,
    /// The string at `ssid` in the object at `wifi`.
    pub wifi: Option<&'a str>,
    /// The number at `bed_temp` in the object at `temp`.
    pub bed_temperature: Option<JsonNumber>,
    /// The number at `nozzle_temp` in the object at `temp`.
    pub nozzle_temperature: Option<JsonNumber>,
}

/// The text of a slice that may be absent.
pub open spec fn slice_text(text: Option<&str>) -> Option<Seq<char>> {
    match text {
        Some(t) => Some(t@),
        None => None,
    }
}

impl<'a> DeviceDetails<'a> {
    /// Whether `self` holds the details that are found in `fields`.
    pub open spec fn describes(self, fields: Map<Seq<char>, JsonValue>) -> bool {
        &&& slice_text(self.model) == text_in(value_at(fields, "model"@))
        &&& slice_text(self.serial_number) == text_in(value_at(fields, "sn"@))
        &&& slice_text(self.firmware) == text_in(
            member_in(value_at(fields, "ota"@), "version"@),
        )
        &&& slice_text(self.wifi) == text_in(member_in(value_at(fields, "wifi"@), "ssid"@))
        &&& self.bed_temperature == number_in(
            member_in(value_at(fields, "temp"@), "bed_temp"@),
        )
        &&& self.nozzle_temperature == number_in(
            member_in(value_at(fields, "temp"@), "nozzle_temp"@),
        )
    }

    /// Finds the details of the device among the extra fields of a message.
    pub fn from_extra(extra: &'a TextMap<JsonValue>) -> (details: Self)
        ensures
            details.describes(extra@),
    {
        let temp = extra.get("temp");
        DeviceDetails {
            model: text_value(extra.get("model")),
            serial_number: text_value(extra.get("sn")),
            firmware: text_value(member_value(extra.get("ota"), "version")),
            wifi: text_value(member_value(extra.get("wifi"), "ssid")),
            bed_temperature: number_value(member_value(temp, "bed_temp")),
            nozzle_temperature: number_value(member_value(temp, "nozzle_temp")),
        }
    }
}

} // verus!
