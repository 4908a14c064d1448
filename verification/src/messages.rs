//! Device messages: their decoding from JSON, their classification, and the
//! printer status derived from them.
//!
//! A message is a JSON object. Each member whose name and kind match a field
//! fills that field. Every other member, whether its name is unknown or its
//! value is of another kind than the field of that name, is kept as it came
//! in the `extra` map of the object it stood in. So a value of the wrong
//! kind leaves its field absent and fails nothing.

use vstd::prelude::*;
use vstd::string::StringExecFns;
use vstd::utf8::decode_utf8;
use vstd::utf8::encode_utf8_decode_utf8;
use vstd::utf8::valid_utf8;
use crate::json::convert_value;
use crate::json::error_text;
use crate::json::json_document;
use crate::json::number_at;
use crate::json::object_at;
use crate::json::parse_document;
use crate::json::shape_error;
use crate::json::text_at;
use crate::json::u32_at;
use crate::json::u64_at;
use crate::json::JsonNumber;
use crate::json::JsonValue;
use crate::schema::distinct_names;
use crate::schema::field_number;
use crate::schema::field_object;
use crate::schema::field_text;
use crate::schema::field_u32;
use crate::schema::field_u64;
use crate::schema::fills;
use crate::schema::members_left;
use crate::schema::FieldKind;
use crate::schema::Schema;
use crate::text::as_text;
use crate::text::clone_text;
use crate::text::concat2;
use crate::text::str_eq;
use crate::text::text_of;
use crate::text::utf8_text;
use crate::textmap::entries_map;
use crate::textmap::TextMap;

verus! {

/// Why a payload could not be decoded.
#[derive(Debug)]
pub enum MessageError {
    /// The text is not a JSON document, or the document is not an object.
    JsonParseError(serde_json::Error),
    UnknownMessageType(String),
    MissingField(String),
    InvalidFormat,
    /// The payload is not UTF-8 text.
    InvalidEncoding,
}

/// Whether `line` is the line that a [`MessageError`] prints. For text that
/// is no JSON document the line ends with what the parser said, which is
/// not stated here.
pub open spec fn is_message_error_text(error: MessageError, line: Seq<char>) -> bool {
    match error {
        MessageError::JsonParseError(_) => "Failed to parse JSON: "@.is_prefix_of(line),
        MessageError::UnknownMessageType(kind) => line == "Unknown message type: "@ + kind@,
        MessageError::MissingField(field) => line == "Missing required field: "@ + field@,
        MessageError::InvalidFormat => line == "Invalid message format"@,
        MessageError::InvalidEncoding => line == "Payload is not valid UTF-8"@,
    }
}

impl MessageError {
    /// The line to print for this error.
    pub fn message(&self) -> (line: String)
        ensures
            is_message_error_text(*self, line@),
    {
        match self {
            MessageError::JsonParseError(error) => {
                let detail = error_text(error);
                concat2("Failed to parse JSON: ", detail.as_str())
            },
            MessageError::UnknownMessageType(kind) => concat2(
                "Unknown message type: ",
                kind.as_str(),
            ),
            MessageError::MissingField(field) => concat2("Missing required field: ", field.as_str()),
            MessageError::InvalidFormat => String::from_str("Invalid message format"),
            MessageError::InvalidEncoding => String::from_str("Payload is not valid UTF-8"),
        }
    }
}

/// The `print` object of a message.
#[derive(Debug, Clone)]
pub struct PrintInfo {
    pub command: Option<String>,
    pub msg: Option<u32>,
    pub state: Option<String>,
    pub fail_reason: Option<String>,
    pub utc_time: Option<u64>,
    pub gcode_state: Option<String>,
    pub percent: Option<u32>,
    pub eta: Option<String>,
    pub total_time: Option<u32>,
    pub remaining_time: Option<u32>,
    pub nozzle_temper: Option<JsonNumber>,
    pub bed_temper: Option<JsonNumber>,
    pub mc_remaining_time: Option<u32>,
    pub layer_num: Option<u32>,
    pub wifi_signal: Option<String>,
    pub fan_gear: Option<u32>,
    pub extra: TextMap<JsonValue>,
}

/// The `system` object of a message.
#[derive(Debug, Clone)]
pub struct SystemInfo {
    pub command: Option<String>,
    pub msg: Option<u32>,
    pub sequence_id: Option<String>,
    pub extra: TextMap<JsonValue>,
}

/// The `info` object of a message.
#[derive(Debug, Clone)]
pub struct DeviceInfo {
    pub command: Option<String>,
    pub sequence_id: Option<String>,
    pub extra: TextMap<JsonValue>,
}

/// The `pushing` object of a message.
#[derive(Debug, Clone)]
pub struct PushingInfo {
    pub command: Option<String>,
    pub version: Option<u32>,
    pub sequence_id: Option<String>,
    pub extra: TextMap<JsonValue>,
}

/// A decoded message.
#[derive(Debug, Clone)]
pub struct DeviceMessage {
    pub print: Option<PrintInfo>,
    pub system: Option<SystemInfo>,
    pub info: Option<DeviceInfo>,
    pub pushing: Option<PushingInfo>,
    pub sequence_id: Option<String>,
    pub extra: TextMap<JsonValue>,
}

/// The fields of a `print` object.
pub open spec fn print_schema() -> Schema {
    seq![
        ("command"@, FieldKind::Text),
        ("msg"@, FieldKind::U32),
        ("state"@, FieldKind::Text),
        ("fail_reason"@, FieldKind::Text),
        ("utc_time"@, FieldKind::U64),
        ("gcode_state"@, FieldKind::Text),
        ("percent"@, FieldKind::U32),
        ("eta"@, FieldKind::Text),
        ("total_time"@, FieldKind::U32),
        ("remaining_time"@, FieldKind::U32),
        ("nozzle_temper"@, FieldKind::Number),
        ("bed_temper"@, FieldKind::Number),
        ("mc_remaining_time"@, FieldKind::U32),
        ("layer_num"@, FieldKind::U32),
        ("wifi_signal"@, FieldKind::Text),
        ("fan_gear"@, FieldKind::U32),
    ]
}

/// The fields of a `system` object.
pub open spec fn system_schema() -> Schema {
    seq![
        ("command"@, FieldKind::Text),
        ("msg"@, FieldKind::U32),
        ("sequence_id"@, FieldKind::Text),
    ]
}

/// The fields of an `info` object.
pub open spec fn info_schema() -> Schema {
    seq![("command"@, FieldKind::Text), ("sequence_id"@, FieldKind::Text)]
}

/// The fields of a `pushing` object.
pub open spec fn pushing_schema() -> Schema {
    seq![
        ("command"@, FieldKind::Text),
        ("version"@, FieldKind::U32),
        ("sequence_id"@, FieldKind::Text),
    ]
}

/// The fields of a message.
pub open spec fn message_schema() -> Schema {
    seq![
        ("print"@, FieldKind::Object),
        ("system"@, FieldKind::Object),
        ("info"@, FieldKind::Object),
        ("pushing"@, FieldKind::Object),
        ("sequence_id"@, FieldKind::Text),
    ]
}

/// No two fields of a `print` object have the same name.
pub proof fn lemma_print_schema_distinct()
    ensures
        distinct_names(print_schema()),
{
    reveal_strlit("command");
    reveal_strlit("msg");
    reveal_strlit("state");
    reveal_strlit("fail_reason");
    reveal_strlit("utc_time");
    reveal_strlit("gcode_state");
    reveal_strlit("percent");
    reveal_strlit("eta");
    reveal_strlit("total_time");
    reveal_strlit("remaining_time");
    reveal_strlit("nozzle_temper");
    reveal_strlit("bed_temper");
    reveal_strlit("mc_remaining_time");
    reveal_strlit("layer_num");
    reveal_strlit("wifi_signal");
    reveal_strlit("fan_gear");
    let names = print_schema();
    assert forall|i: int, j: int| 0 <= i < j < names.len() implies (#[trigger] names[i]).0 != (
    #[trigger] names[j]).0 by {
        let a = names[i].0;
        let b = names[j].0;
        if a.len() == b.len() {
            assert(a[0] != b[0]);
        }
    }
}

/// No two fields of a `system`, `info` or `pushing` object, or of a
/// message, have the same name.
pub proof fn lemma_small_schemas_distinct()
    ensures
        distinct_names(system_schema()),
        distinct_names(info_schema()),
        distinct_names(pushing_schema()),
        distinct_names(message_schema()),
{
    reveal_strlit("command");
    reveal_strlit("msg");
    reveal_strlit("version");
    reveal_strlit("sequence_id");
    reveal_strlit("print");
    reveal_strlit("system");
    reveal_strlit("info");
    reveal_strlit("pushing");
    assert forall|i: int, j: int| 0 <= i < j < system_schema().len() implies (#[trigger] system_schema()[i]).0
        != (#[trigger] system_schema()[j]).0 by {
        let a = system_schema()[i].0;
        let b = system_schema()[j].0;
        if a.len() == b.len() {
            assert(a[0] != b[0]);
        }
    }
    assert forall|i: int, j: int| 0 <= i < j < info_schema().len() implies (#[trigger] info_schema()[i]).0
        != (#[trigger] info_schema()[j]).0 by {
        let a = info_schema()[i].0;
        let b = info_schema()[j].0;
        if a.len() == b.len() {
            assert(a[0] != b[0]);
        }
    }
    assert forall|i: int, j: int| 0 <= i < j < pushing_schema().len() implies (#[trigger] pushing_schema()[i]).0
        != (#[trigger] pushing_schema()[j]).0 by {
        let a = pushing_schema()[i].0;
        let b = pushing_schema()[j].0;
        if a.len() == b.len() {
            assert(a[0] != b[0]);
        }
    }
    assert forall|i: int, j: int| 0 <= i < j < message_schema().len() implies (#[trigger] message_schema()[i]).0
        != (#[trigger] message_schema()[j]).0 by {
        let a = message_schema()[i].0;
        let b = message_schema()[j].0;
        if a.len() == b.len() {
            assert(a[0] != b[0]);
        }
    }
}

impl PrintInfo {
    /// Whether `self` is what the JSON object `object` decodes to.
    pub open spec fn decodes(self, object: Map<Seq<char>, JsonValue>) -> bool {
        &&& self.command == text_at(object, "command"@)
        &&& self.msg == u32_at(object, "msg"@)
        &&& self.state == text_at(object, "state"@)
        &&& self.fail_reason == text_at(object, "fail_reason"@)
        &&& self.utc_time == u64_at(object, "utc_time"@)
        &&& self.gcode_state == text_at(object, "gcode_state"@)
        &&& self.percent == u32_at(object, "percent"@)
        &&& self.eta == text_at(object, "eta"@)
        &&& self.total_time == u32_at(object, "total_time"@)
        &&& self.remaining_time == u32_at(object, "remaining_time"@)
        &&& self.nozzle_temper == number_at(object, "nozzle_temper"@)
        &&& self.bed_temper == number_at(object, "bed_temper"@)
        &&& self.mc_remaining_time == u32_at(object, "mc_remaining_time"@)
        &&& self.layer_num == u32_at(object, "layer_num"@)
        &&& self.wifi_signal == text_at(object, "wifi_signal"@)
        &&& self.fan_gear == u32_at(object, "fan_gear"@)
        &&& self.extra@ == members_left(print_schema(), object)
    }

    /// Decodes the members of a `print` object.
    pub fn from_members(members: Vec<(String, JsonValue)>) -> (info: Self)
        ensures
            info.decodes(entries_map(members@)),
    {
        let mut rest = TextMap::from_entries(members);
        let ghost object = rest@;
        let ghost schema = print_schema();
        proof {
            lemma_print_schema_distinct();
            assert(rest@ =~= members_left(schema.take(0), object));
        }
        let command = field_text(&mut rest, "command", Ghost(schema), Ghost(object), Ghost(0));
        let msg = field_u32(&mut rest, "msg", Ghost(schema), Ghost(object), Ghost(1));
        let state = field_text(&mut rest, "state", Ghost(schema), Ghost(object), Ghost(2));
        let fail_reason = field_text(&mut rest, "fail_reason", Ghost(schema), Ghost(object), Ghost(3));
        let utc_time = field_u64(&mut rest, "utc_time", Ghost(schema), Ghost(object), Ghost(4));
        let gcode_state = field_text(&mut rest, "gcode_state", Ghost(schema), Ghost(object), Ghost(5));
        let percent = field_u32(&mut rest, "percent", Ghost(schema), Ghost(object), Ghost(6));
        let eta = field_text(&mut rest, "eta", Ghost(schema), Ghost(object), Ghost(7));
        let total_time = field_u32(&mut rest, "total_time", Ghost(schema), Ghost(object), Ghost(8));
        let remaining_time = field_u32(&mut rest, "remaining_time", Ghost(schema), Ghost(object), Ghost(9));
        let nozzle_temper = field_number(&mut rest, "nozzle_temper", Ghost(schema), Ghost(object), Ghost(10));
        let bed_temper = field_number(&mut rest, "bed_temper", Ghost(schema), Ghost(object), Ghost(11));
        let mc_remaining_time = field_u32(&mut rest, "mc_remaining_time", Ghost(schema), Ghost(object), Ghost(12));
        let layer_num = field_u32(&mut rest, "layer_num", Ghost(schema), Ghost(object), Ghost(13));
        let wifi_signal = field_text(&mut rest, "wifi_signal", Ghost(schema), Ghost(object), Ghost(14));
        let fan_gear = field_u32(&mut rest, "fan_gear", Ghost(schema), Ghost(object), Ghost(15));
        proof {
            assert(schema.take(16) =~= schema);
        }
        PrintInfo {
            command,
            msg,
            state,
            fail_reason,
            utc_time,
            gcode_state,
            percent,
            eta,
            total_time,
            remaining_time,
            nozzle_temper,
            bed_temper,
            mc_remaining_time,
            layer_num,
            wifi_signal,
            fan_gear,
            extra: rest,
        }
    }
}

impl SystemInfo {
    /// Whether `self` is what the JSON object `object` decodes to.
    pub open spec fn decodes(self, object: Map<Seq<char>, JsonValue>) -> bool {
        &&& self.command == text_at(object, "command"@)
        &&& self.msg == u32_at(object, "msg"@)
        &&& self.sequence_id == text_at(object, "sequence_id"@)
        &&& self.extra@ == members_left(system_schema(), object)
    }

    /// Decodes the members of a `system` object.
    pub fn from_members(members: Vec<(String, JsonValue)>) -> (info: Self)
        ensures
            info.decodes(entries_map(members@)),
    {
        let mut rest = TextMap::from_entries(members);
        let ghost object = rest@;
        let ghost schema = system_schema();
        proof {
            lemma_small_schemas_distinct();
            assert(rest@ =~= members_left(schema.take(0), object));
        }
        let command = field_text(&mut rest, "command", Ghost(schema), Ghost(object), Ghost(0));
        let msg = field_u32(&mut rest, "msg", Ghost(schema), Ghost(object), Ghost(1));
        let sequence_id = field_text(
            &mut rest,
            "sequence_id",
            Ghost(schema),
            Ghost(object),
            Ghost(2),
        );
        proof {
            assert(schema.take(3) =~= schema);
        }
        SystemInfo { command, msg, sequence_id, extra: rest }
    }
}

impl DeviceInfo {
    /// Whether `self` is what the JSON object `object` decodes to.
    pub open spec fn decodes(self, object: Map<Seq<char>, JsonValue>) -> bool {
        &&& self.command == text_at(object, "command"@)
        &&& self.sequence_id == text_at(object, "sequence_id"@)
        &&& self.extra@ == members_left(info_schema(), object)
    }

    /// Decodes the members of an `info` object.
    pub fn from_members(members: Vec<(String, JsonValue)>) -> (info: Self)
        ensures
            info.decodes(entries_map(members@)),
    {
        let mut rest = TextMap::from_entries(members);
        let ghost object = rest@;
        let ghost schema = info_schema();
        proof {
            lemma_small_schemas_distinct();
            assert(rest@ =~= members_left(schema.take(0), object));
        }
        let command = field_text(&mut rest, "command", Ghost(schema), Ghost(object), Ghost(0));
        let sequence_id = field_text(
            &mut rest,
            "sequence_id",
            Ghost(schema),
            Ghost(object),
            Ghost(1),
        );
        proof {
            assert(schema.take(2) =~= schema);
        }
        DeviceInfo { command, sequence_id, extra: rest }
    }
}

impl PushingInfo {
    /// Whether `self` is what the JSON object `object` decodes to.
    pub open spec fn decodes(self, object: Map<Seq<char>, JsonValue>) -> bool {
        &&& self.command == text_at(object, "command"@)
        &&& self.version == u32_at(object, "version"@)
        &&& self.sequence_id == text_at(object, "sequence_id"@)
        &&& self.extra@ == members_left(pushing_schema(), object)
    }

    /// Decodes the members of a `pushing` object.
    pub fn from_members(members: Vec<(String, JsonValue)>) -> (info: Self)
        ensures
            info.decodes(entries_map(members@)),
    {
        let mut rest = TextMap::from_entries(members);
        let ghost object = rest@;
        let ghost schema = pushing_schema();
        proof {
            lemma_small_schemas_distinct();
            assert(rest@ =~= members_left(schema.take(0), object));
        }
        let command = field_text(&mut rest, "command", Ghost(schema), Ghost(object), Ghost(0));
        let version = field_u32(&mut rest, "version", Ghost(schema), Ghost(object), Ghost(1));
        let sequence_id = field_text(
            &mut rest,
            "sequence_id",
            Ghost(schema),
            Ghost(object),
            Ghost(2),
        );
        proof {
            assert(schema.take(3) =~= schema);
        }
        PushingInfo { command, version, sequence_id, extra: rest }
    }
}

/// Whether `result` is what decoding the JSON value `value` gives: a message
/// for an object, `JsonParseError` for anything else.
pub open spec fn is_decoding_of(value: JsonValue, result: Result<DeviceMessage, MessageError>) -> bool {
    match value {
        JsonValue::Object(members) => result matches Ok(message) && message.decodes(
            entries_map(members@),
        ),
        _ => result matches Err(MessageError::JsonParseError(_)),
    }
}

/// Whether `result` is what parsing `text` gives: `JsonParseError` where the
/// text is no JSON document, else what decoding the document gives.
pub open spec fn is_parse_of(text: Seq<char>, result: Result<DeviceMessage, MessageError>) -> bool {
    match json_document(text) {
        Some(value) => is_decoding_of(value, result),
        None => result matches Err(MessageError::JsonParseError(_)),
    }
}

/// Whether `result` is what decoding the payload `bytes` gives:
/// `InvalidEncoding` where the bytes are not UTF-8, else what parsing the
/// text gives.
pub open spec fn is_payload_of(bytes: Seq<u8>, result: Result<DeviceMessage, MessageError>) -> bool {
    if valid_utf8(bytes) {
        is_parse_of(decode_utf8(bytes), result)
    } else {
        result matches Err(MessageError::InvalidEncoding)
    }
}

/// What kind of message a device sent.
#[derive(Debug, Clone)]
pub enum MessageType {
    PrintPushStatus,
    PushingPushAll,
    SystemPushAll,
    Unknown(String),
}

/// A [`MessageType`] with its command as text.
pub enum MessageKind {
    PrintPushStatus,
    PushingPushAll,
    SystemPushAll,
    Unknown(Seq<char>),
}

impl View for MessageType {
    type V = MessageKind;

    open spec fn view(&self) -> MessageKind {
        match self {
            MessageType::PrintPushStatus => MessageKind::PrintPushStatus,
            MessageType::PushingPushAll => MessageKind::PushingPushAll,
            MessageType::SystemPushAll => MessageKind::SystemPushAll,
            MessageType::Unknown(command) => MessageKind::Unknown(command@),
        }
    }
}

/// The kind of a message: a status update where `print` commands
/// `push_status`; else a full snapshot where `pushing` commands `pushall`;
/// else a system snapshot where `system` commands `pushall`; else unknown,
/// with the first command that is not the empty text, or with `no_command`
/// where there is none.
pub open spec fn classify(message: DeviceMessage) -> MessageKind {
    if message.print_command() == Some("push_status"@) {
        MessageKind::PrintPushStatus
    } else if message.pushing_command() == Some("pushall"@) {
        MessageKind::PushingPushAll
    } else if message.system_command() == Some("pushall"@) {
        MessageKind::SystemPushAll
    } else {
        match message.first_command() {
            Some(command) => MessageKind::Unknown(command),
            None => MessageKind::Unknown("no_command"@),
        }
    }
}

/// The sequence identifier of a message: the first that is present of the
/// message's own, that of `system`, that of `info`, that of `pushing`.
pub open spec fn sequence_id(message: DeviceMessage) -> Option<Seq<char>> {
    if message.sequence_id is Some {
        text_of(message.sequence_id)
    } else if message.system_sequence_id() is Some {
        message.system_sequence_id()
    } else if message.info_sequence_id() is Some {
        message.info_sequence_id()
    } else {
        message.pushing_sequence_id()
    }
}

/// A command, where it is present and not the empty text.
pub open spec fn not_empty(command: Option<Seq<char>>) -> Option<Seq<char>> {
    match command {
        Some(text) => if text.len() > 0 {
            Some(text)
        } else {
            None
        },
        None => None,
    }
}

fn named(field: &Option<String>) -> (command: Option<&String>)
    ensures
        match command {
            Some(text) => not_empty(text_of(*field)) == Some(text@),
            None => not_empty(text_of(*field)) is None,
        },
{
    match field {
        Some(text) => if text.as_str().is_empty() {
            None
        } else {
            Some(text)
        },
        None => None,
    }
}

fn is_command(field: &Option<String>, command: &str) -> (same: bool)
    ensures
        same == (text_of(*field) == Some(command@)),
{
    match field {
        Some(text) => str_eq(text.as_str(), command),
        None => false,
    }
}

impl DeviceMessage {
    /// Whether `self` is what the JSON object `object` decodes to.
    pub open spec fn decodes(self, object: Map<Seq<char>, JsonValue>) -> bool {
        &&& match object_at(object, "print"@) {
            Some(members) => self.print matches Some(print) && print.decodes(
                entries_map(members@),
            ),
            None => self.print is None,
        }
        &&& match object_at(object, "system"@) {
            Some(members) => self.system matches Some(system) && system.decodes(
                entries_map(members@),
            ),
            None => self.system is None,
        }
        &&& match object_at(object, "info"@) {
            Some(members) => self.info matches Some(info) && info.decodes(entries_map(members@)),
            None => self.info is None,
        }
        &&& match object_at(object, "pushing"@) {
            Some(members) => self.pushing matches Some(pushing) && pushing.decodes(
                entries_map(members@),
            ),
            None => self.pushing is None,
        }
        &&& self.sequence_id == text_at(object, "sequence_id"@)
        &&& self.extra@ == members_left(message_schema(), object)
    }

    /// The command of `print`.
    pub open spec fn print_command(self) -> Option<Seq<char>> {
        match self.print {
            Some(print) => text_of(print.command),
            None => None,
        }
    }

    /// The command of `pushing`.
    pub open spec fn pushing_command(self) -> Option<Seq<char>> {
        match self.pushing {
            Some(pushing) => text_of(pushing.command),
            None => None,
        }
    }

    /// The command of `system`.
    pub open spec fn system_command(self) -> Option<Seq<char>> {
        match self.system {
            Some(system) => text_of(system.command),
            None => None,
        }
    }

    /// The command of `info`.
    pub open spec fn info_command(self) -> Option<Seq<char>> {
        match self.info {
            Some(info) => text_of(info.command),
            None => None,
        }
    }

    /// The first command that is present and not the empty text, of those
    /// of `print`, `pushing`, `system` and `info`, in that order.
    pub open spec fn first_command(self) -> Option<Seq<char>> {
        if not_empty(self.print_command()) is Some {
            self.print_command()
        } else if not_empty(self.pushing_command()) is Some {
            self.pushing_command()
        } else if not_empty(self.system_command()) is Some {
            self.system_command()
        } else {
            not_empty(self.info_command())
        }
    }

    /// The sequence identifier of `system`.
    pub open spec fn system_sequence_id(self) -> Option<Seq<char>> {
        match self.system {
            Some(system) => text_of(system.sequence_id),
            None => None,
        }
    }

    /// The sequence identifier of `info`.
    pub open spec fn info_sequence_id(self) -> Option<Seq<char>> {
        match self.info {
            Some(info) => text_of(info.sequence_id),
            None => None,
        }
    }

    /// The sequence identifier of `pushing`.
    pub open spec fn pushing_sequence_id(self) -> Option<Seq<char>> {
        match self.pushing {
            Some(pushing) => text_of(pushing.sequence_id),
            None => None,
        }
    }

    /// Decodes the members of a message.
    pub fn from_members(members: Vec<(String, JsonValue)>) -> (message: Self)
        ensures
            message.decodes(entries_map(members@)),
    {
        let mut rest = TextMap::from_entries(members);
        let ghost object = rest@;
        let ghost schema = message_schema();
        proof {
            lemma_small_schemas_distinct();
            assert(rest@ =~= members_left(schema.take(0), object));
        }
        let print = match field_object(&mut rest, "print", Ghost(schema), Ghost(object), Ghost(0)) {
            Some(members) => Some(PrintInfo::from_members(members)),
            None => None,
        };
        let system = match field_object(
            &mut rest,
            "system",
            Ghost(schema),
            Ghost(object),
            Ghost(1),
        ) {
            Some(members) => Some(SystemInfo::from_members(members)),
            None => None,
        };
        let info = match field_object(&mut rest, "info", Ghost(schema), Ghost(object), Ghost(2)) {
            Some(members) => Some(DeviceInfo::from_members(members)),
            None => None,
        };
        let pushing = match field_object(
            &mut rest,
            "pushing",
            Ghost(schema),
            Ghost(object),
            Ghost(3),
        ) {
            Some(members) => Some(PushingInfo::from_members(members)),
            None => None,
        };
        let sequence_id = field_text(
            &mut rest,
            "sequence_id",
            Ghost(schema),
            Ghost(object),
            Ghost(4),
        );
        proof {
            assert(schema.take(5) =~= schema);
        }
        DeviceMessage { print, system, info, pushing, sequence_id, extra: rest }
    }

    /// Decodes a JSON value: an object gives a message, anything else is
    /// refused.
    pub fn from_json(value: JsonValue) -> (result: Result<Self, MessageError>)
        ensures
            is_decoding_of(value, result),
    {
        match value {
            JsonValue::Object(members) => Ok(DeviceMessage::from_members(members)),
            _ => Err(MessageError::JsonParseError(shape_error())),
        }
    }

    /// Parses a JSON text and decodes it.
    pub fn parse(json_data: &str) -> (result: Result<Self, MessageError>)
        ensures
            is_parse_of(json_data@, result),
    {
        match parse_document(json_data) {
            Ok(tree) => DeviceMessage::from_json(convert_value(tree)),
            Err(error) => Err(MessageError::JsonParseError(error)),
        }
    }

    /// Decodes a payload as it came from the broker.
    pub fn decode(payload: &[u8]) -> (result: Result<Self, MessageError>)
        ensures
            is_payload_of(payload@, result),
    {
        match utf8_text(payload) {
            Some(text) => {
                proof {
                    encode_utf8_decode_utf8(text@);
                }
                DeviceMessage::parse(text)
            },
            None => Err(MessageError::InvalidEncoding),
        }
    }

    /// The kind of the message.
    pub fn get_message_type(&self) -> (kind: MessageType)
        ensures
            kind@ == classify(*self),
    {
        if let Some(print) = &self.print {
            if is_command(&print.command, "push_status") {
                return MessageType::PrintPushStatus;
            }
        }
        if let Some(pushing) = &self.pushing {
            if is_command(&pushing.command, "pushall") {
                return MessageType::PushingPushAll;
            }
        }
        if let Some(system) = &self.system {
            if is_command(&system.command, "pushall") {
                return MessageType::SystemPushAll;
            }
        }
        if let Some(print) = &self.print {
            if let Some(command) = named(&print.command) {
                return MessageType::Unknown(command.clone());
            }
        }
        if let Some(pushing) = &self.pushing {
            if let Some(command) = named(&pushing.command) {
                return MessageType::Unknown(command.clone());
            }
        }
        if let Some(system) = &self.system {
            if let Some(command) = named(&system.command) {
                return MessageType::Unknown(command.clone());
            }
        }
        if let Some(info) = &self.info {
            if let Some(command) = named(&info.command) {
                return MessageType::Unknown(command.clone());
            }
        }
        MessageType::Unknown(String::from_str("no_command"))
    }

    /// The sequence identifier of the message.
    pub fn get_sequence_id(&self) -> (id: Option<&str>)
        ensures
            match id {
                Some(text) => sequence_id(*self) == Some(text@),
                None => sequence_id(*self) is None,
            },
    {
        if let Some(id) = as_text(&self.sequence_id) {
            return Some(id);
        }
        if let Some(system) = &self.system {
            if let Some(id) = as_text(&system.sequence_id) {
                return Some(id);
            }
        }
        if let Some(info) = &self.info {
            if let Some(id) = as_text(&info.sequence_id) {
                return Some(id);
            }
        }
        if let Some(pushing) = &self.pushing {
            if let Some(id) = as_text(&pushing.sequence_id) {
                return Some(id);
            }
        }
        None
    }
}

/// What a printer is doing.
#[derive(Debug, Clone, PartialEq)]
pub enum PrintState {
    Idle,
    Printing,
    Paused,
    Failed,
    Finished,
    Unknown(String),
}

/// A [`PrintState`] with its unknown name as text.
pub enum PrintStateView {
    Idle,
    Printing,
    Paused,
    Failed,
    Finished,
    Unknown(Seq<char>),
}

impl View for PrintState {
    type V = PrintStateView;

    open spec fn view(&self) -> PrintStateView {
        match self {
            PrintState::Idle => PrintStateView::Idle,
            PrintState::Printing => PrintStateView::Printing,
            PrintState::Paused => PrintStateView::Paused,
            PrintState::Failed => PrintStateView::Failed,
            PrintState::Finished => PrintStateView::Finished,
            PrintState::Unknown(name) => PrintStateView::Unknown(name@),
        }
    }
}

/// The state that a device names `name`.
pub open spec fn state_named(name: Seq<char>) -> PrintStateView {
    if name == "idle"@ {
        PrintStateView::Idle
    } else if name == "printing"@ {
        PrintStateView::Printing
    } else if name == "paused"@ {
        PrintStateView::Paused
    } else if name == "failed"@ {
        PrintStateView::Failed
    } else if name == "finished"@ {
        PrintStateView::Finished
    } else {
        PrintStateView::Unknown(name)
    }
}

/// `from` states its result in its own `ensures`, over the view: no spec
/// function can make the `String` that an unknown name is kept in.
impl vstd::std_specs::convert::FromSpecImpl<&str> for PrintState {
    open spec fn obeys_from_spec() -> bool {
        false
    }

    open spec fn from_spec(state: &str) -> Self {
        PrintState::Idle
    }
}

impl From<&str> for PrintState {
    /// The state that a device names `state`.
    fn from(state: &str) -> (result: Self)
        ensures
            result@ == state_named(state@),
    {
        if str_eq(state, "idle") {
            PrintState::Idle
        } else if str_eq(state, "printing") {
            PrintState::Printing
        } else if str_eq(state, "paused") {
            PrintState::Paused
        } else if str_eq(state, "failed") {
            PrintState::Failed
        } else if str_eq(state, "finished") {
            PrintState::Finished
        } else {
            PrintState::Unknown(String::from_str(state))
        }
    }
}

/// The nozzle temperature, in degrees, above which a printer that names no
/// state is taken to print.
pub const HOT_NOZZLE_DEGREES: u64 = 50;

/// The bit pattern of `HOT_NOZZLE_DEGREES` as an IEEE 754 binary64 value.
pub const HOT_NOZZLE_BITS: u64 = 0x4049_0000_0000_0000;

/// The bit pattern of positive infinity as an IEEE 754 binary64 value.
pub const INFINITY_BITS: u64 = 0x7ff0_0000_0000_0000;

/// Whether a temperature exceeds `HOT_NOZZLE_DEGREES`. The bit patterns of
/// the binary64 values that are not negative and no NaN are ordered as the
/// values are, so a value is above the threshold where its bits are above
/// the threshold's and at most infinity's.
pub open spec fn is_hot(temperature: JsonNumber) -> bool {
    match temperature {
        JsonNumber::PosInt(degrees) => degrees > HOT_NOZZLE_DEGREES,
        JsonNumber::NegInt(_) => false,
        JsonNumber::Float(bits) => HOT_NOZZLE_BITS < bits <= INFINITY_BITS,
    }
}

/// The state of a printer as its `print` object shows it: the state it
/// names; or, where it names none, printing where time remains or the
/// nozzle is hot, else idle.
pub open spec fn projected_state(print: PrintInfo) -> PrintStateView {
    match print.state {
        Some(name) => state_named(name@),
        None => if print.mc_remaining_time matches Some(seconds) && seconds > 0 {
            PrintStateView::Printing
        } else if print.nozzle_temper matches Some(temperature) && is_hot(temperature) {
            PrintStateView::Printing
        } else {
            PrintStateView::Idle
        },
    }
}

/// The time that remains: what the device's own counter says, else the
/// general one.
pub open spec fn projected_remaining(print: PrintInfo) -> Option<u32> {
    if print.mc_remaining_time is Some {
        print.mc_remaining_time
    } else {
        print.remaining_time
    }
}

/// The status of a printer.
#[derive(Debug, Clone)]
pub struct PrinterStatus {
    pub state: PrintState,
    pub progress: Option<u32>,
    pub eta: Option<String>,
    pub remaining_time: Option<u32>,
    pub total_time: Option<u32>,
    pub fail_reason: Option<String>,
}

impl PrinterStatus {
    /// Whether `self` is the status that `print` shows.
    pub open spec fn projects(self, print: PrintInfo) -> bool {
        &&& self.state@ == projected_state(print)
        &&& self.progress == print.percent
        &&& self.eta == print.eta
        &&& self.remaining_time == projected_remaining(print)
        &&& self.total_time == print.total_time
        &&& self.fail_reason == print.fail_reason
    }

    /// The status that a message shows, where it has a `print` object.
    pub fn from_device_message(msg: &DeviceMessage) -> (status: Option<Self>)
        ensures
            match msg.print {
                Some(print) => status matches Some(s) && s.projects(print),
                None => status is None,
            },
    {
        let print = match &msg.print {
            Some(print) => print,
            None => {
                return None;
            },
        };
        let state = match &print.state {
            Some(name) => PrintState::from(name.as_str()),
            None => {
                let time_remains = match print.mc_remaining_time {
                    Some(seconds) => seconds > 0,
                    None => false,
                };
                let nozzle_hot = match print.nozzle_temper {
                    Some(JsonNumber::PosInt(degrees)) => degrees > HOT_NOZZLE_DEGREES,
                    Some(JsonNumber::NegInt(_)) => false,
                    Some(JsonNumber::Float(bits)) => HOT_NOZZLE_BITS < bits && bits
                        <= INFINITY_BITS,
                    None => false,
                };
                if time_remains || nozzle_hot {
                    PrintState::Printing
                } else {
                    PrintState::Idle
                }
            },
        };
        let remaining_time = match print.mc_remaining_time {
            Some(seconds) => Some(seconds),
            None => print.remaining_time,
        };
        Some(
            PrinterStatus {
                state,
                progress: print.percent,
                eta: clone_text(&print.eta),
                remaining_time,
                total_time: print.total_time,
                fail_reason: clone_text(&print.fail_reason),
            },
        )
    }
}

/// A message whose `print` object commands `push_status` is a status
/// update, whatever its other objects command.
pub proof fn lemma_push_status_wins(message: DeviceMessage)
    requires
        message.print_command() == Some("push_status"@),
    ensures
        classify(message) == MessageKind::PrintPushStatus,
{
}

/// A message that is no status update and whose `pushing` object commands
/// `pushall` is a full snapshot, whatever its `system` object commands.
pub proof fn lemma_pushing_before_system(message: DeviceMessage)
    requires
        message.print_command() != Some("push_status"@),
        message.pushing_command() == Some("pushall"@),
    ensures
        classify(message) == MessageKind::PushingPushAll,
{
}

/// A message without any command, or with none but empty ones, is unknown
/// with `no_command` for its command.
pub proof fn lemma_no_command(message: DeviceMessage)
    requires
        not_empty(message.print_command()) is None,
        not_empty(message.pushing_command()) is None,
        not_empty(message.system_command()) is None,
        not_empty(message.info_command()) is None,
    ensures
        classify(message) == MessageKind::Unknown("no_command"@),
{
    reveal_strlit("push_status");
    reveal_strlit("pushall");
}

/// An empty command is passed over: a message that is none of the three
/// known kinds is unknown with the first command that is not the empty
/// text.
pub proof fn lemma_empty_command_skipped(message: DeviceMessage)
    requires
        not_empty(message.print_command()) is None,
        message.pushing_command() != Some("pushall"@),
        message.system_command() != Some("pushall"@),
    ensures
        classify(message) == match message.first_command() {
            Some(command) => MessageKind::Unknown(command),
            None => MessageKind::Unknown("no_command"@),
        },
        message.first_command() == if not_empty(message.pushing_command()) is Some {
            message.pushing_command()
        } else if not_empty(message.system_command()) is Some {
            message.system_command()
        } else {
            not_empty(message.info_command())
        },
{
    reveal_strlit("push_status");
}

/// The empty object decodes to a message with nothing in it, and that
/// message is unknown with `no_command` for its command.
pub proof fn lemma_empty_object(message: DeviceMessage)
    requires
        message.decodes(Map::empty()),
    ensures
        message.print is None,
        message.system is None,
        message.info is None,
        message.pushing is None,
        message.sequence_id is None,
        message.extra@ == Map::<Seq<char>, JsonValue>::empty(),
        sequence_id(message) is None,
        classify(message) == MessageKind::Unknown("no_command"@),
{
    assert(message.extra@ =~= Map::<Seq<char>, JsonValue>::empty());
}

/// A member of a message's object that is none of the message's fields is
/// in `extra` with its value.
pub proof fn lemma_unknown_member_kept(
    message: DeviceMessage,
    object: Map<Seq<char>, JsonValue>,
    name: Seq<char>,
)
    requires
        message.decodes(object),
        object.contains_key(name),
        forall|i: int| 0 <= i < message_schema().len() ==> (#[trigger] message_schema()[i]).0 != name,
    ensures
        message.extra@.contains_key(name),
        message.extra@[name] == object[name],
{
}

/// A member of a `print` object that is none of its fields is in the
/// `extra` of `print` with its value.
pub proof fn lemma_unknown_print_member_kept(
    print: PrintInfo,
    object: Map<Seq<char>, JsonValue>,
    name: Seq<char>,
)
    requires
        print.decodes(object),
        object.contains_key(name),
        forall|i: int| 0 <= i < print_schema().len() ==> (#[trigger] print_schema()[i]).0 != name,
    ensures
        print.extra@.contains_key(name),
        print.extra@[name] == object[name],
{
}

/// Every member of a message's object either fills a field of the message
/// or is in `extra` with its value.
pub proof fn lemma_message_keeps_all(message: DeviceMessage, object: Map<Seq<char>, JsonValue>)
    requires
        message.decodes(object),
    ensures
        forall|name: Seq<char>|
            object.contains_key(name) ==> fills(message_schema(), object, name) || (
            #[trigger] message.extra@.contains_key(name) && message.extra@[name] == object[name]),
{
}

/// The message's own sequence identifier, where it has one, is the one
/// that counts.
pub proof fn lemma_own_sequence_id_wins(message: DeviceMessage)
    requires
        message.sequence_id is Some,
    ensures
        sequence_id(message) == text_of(message.sequence_id),
{
}

/// Where the message has no sequence identifier of its own and `system`
/// has one, that one counts.
pub proof fn lemma_system_sequence_id_next(message: DeviceMessage)
    requires
        message.sequence_id is None,
        message.system_sequence_id() is Some,
    ensures
        sequence_id(message) == message.system_sequence_id(),
{
}

/// A printer that names no state and whose own counter says that time
/// remains is printing.
pub proof fn lemma_time_remaining_prints(print: PrintInfo)
    requires
        print.state is None,
        print.mc_remaining_time matches Some(seconds) && seconds > 0,
    ensures
        projected_state(print) == PrintStateView::Printing,
{
}

} // verus!
