//! Printer profiles and the store that keeps them by name.

use vstd::prelude::*;
use vstd::string::StringExecFns;
use vstd::utf8::encode_utf8;
use crate::text::clone_text;
use crate::text::concat2;
use crate::text::concat3;
use crate::text::decimal_text;
use crate::text::push_decimal;
use crate::text::bytes_before;
use crate::text::lemma_bytes_order_total;
use crate::text::lemma_bytes_order_transitive;
use crate::text::lemma_same_bytes_same_text;
use crate::text::str_before;
use crate::text::str_eq;
use crate::textmap::TextMap;

verus! {

/// The port on which a printer's broker listens unless a profile says otherwise.
pub const DEFAULT_PORT: u16 = 8883;

/// How to reach one printer.
#[derive(Debug)]
pub struct PrinterConfig {
    pub name: String,
    pub ip: String,
    pub device_id: String,
    pub access_code: String,
    pub port: u16,
    pub use_tls: bool,
    pub model: Option<String>,
    pub firmware_version: Option<String>,
}

/// The topic on which the device with the given identifier reports.
pub open spec fn report_topic_text(device_id: Seq<char>) -> Seq<char> {
    "device/"@ + device_id + "/report"@
}

/// The topic on which the device with the given identifier takes requests.
pub open spec fn request_topic_text(device_id: Seq<char>) -> Seq<char> {
    "device/"@ + device_id + "/request"@
}

/// The broker's address as a URL: scheme, host, port.
pub open spec fn mqtt_url_text(use_tls: bool, ip: Seq<char>, port: u16) -> Seq<char> {
    (if use_tls {
        "mqtts"@
    } else {
        "mqtt"@
    }) + "://"@ + ip + ":"@ + decimal_text(port as nat)
}

impl Clone for PrinterConfig {
    fn clone(&self) -> (copy: Self)
        ensures
            copy == *self,
    {
        PrinterConfig {
            name: self.name.clone(),
            ip: self.ip.clone(),
            device_id: self.device_id.clone(),
            access_code: self.access_code.clone(),
            port: self.port,
            use_tls: self.use_tls,
            model: clone_text(&self.model),
            firmware_version: clone_text(&self.firmware_version),
        }
    }
}

impl PrinterConfig {
    /// A profile with the default port, transport security on, and no model
    /// or firmware recorded.
    pub fn new(name: String, ip: String, device_id: String, access_code: String) -> (config: Self)
        ensures
            config == (PrinterConfig {
                name,
                ip,
                device_id,
                access_code,
                port: DEFAULT_PORT,
                use_tls: true,
                model: None,
                firmware_version: None,
            }),
    {
        PrinterConfig {
            name,
            ip,
            device_id,
            access_code,
            port: DEFAULT_PORT,
            use_tls: true,
            model: None,
            firmware_version: None,
        }
    }

    /// The broker's address as a URL.
    pub fn mqtt_url(&self) -> (url: String)
        ensures
            url@ == mqtt_url_text(self.use_tls, self.ip@, self.port),
    {
        let protocol = if self.use_tls {
            "mqtts"
        } else {
            "mqtt"
        };
        let mut url = concat3(protocol, "://", self.ip.as_str());
        url.append(":");
        push_decimal(&mut url, self.port);
        url
    }

    /// The topic on which the printer reports its status.
    pub fn report_topic(&self) -> (topic: String)
        ensures
            topic@ == report_topic_text(self.device_id@),
    {
        concat3("device/", self.device_id.as_str(), "/report")
    }

    /// The topic on which the printer takes requests.
    pub fn request_topic(&self) -> (topic: String)
        ensures
            topic@ == request_topic_text(self.device_id@),
    {
        concat3("device/", self.device_id.as_str(), "/request")
    }
}

/// Settings of the broker connection.
#[derive(Debug, Clone, Copy)]
pub struct MqttSettings {
    pub keep_alive_secs: u64,
    pub connection_timeout_secs: u64,
    pub retry_attempts: u32,
    pub retry_delay_secs: u64,
    pub queue_size: usize,
}

impl Default for MqttSettings {
    fn default() -> (settings: Self)
        ensures
            settings == (MqttSettings {
                keep_alive_secs: 30,
                connection_timeout_secs: 10,
                retry_attempts: 5,
                retry_delay_secs: 5,
                queue_size: 10,
            }),
    {
        MqttSettings {
            keep_alive_secs: 30,
            connection_timeout_secs: 10,
            retry_attempts: 5,
            retry_delay_secs: 5,
            queue_size: 10,
        }
    }
}

/// Why an operation on the store failed. Each variant carries the message
/// for the user.
#[derive(Debug)]
pub enum ConfigError {
    IoError(String),
    ParseError(String),
    SerializeError(String),
    PrinterExists(String),
    PrinterNotFound(String),
    NoDefaultPrinter(String),
}

/// The line that a [`ConfigError`] prints: what kind of failure, then the
/// message it carries.
pub open spec fn config_error_text(error: ConfigError) -> Seq<char> {
    match error {
        ConfigError::IoError(m) => "IO error: "@ + m@,
        ConfigError::ParseError(m) => "Parse error: "@ + m@,
        ConfigError::SerializeError(m) => "Serialize error: "@ + m@,
        ConfigError::PrinterExists(m) => "Printer already exists: "@ + m@,
        ConfigError::PrinterNotFound(m) => "Printer not found: "@ + m@,
        ConfigError::NoDefaultPrinter(m) => "No default printer: "@ + m@,
    }
}

impl ConfigError {
    /// The line to print for this error.
    pub fn message(&self) -> (line: String)
        ensures
            line@ == config_error_text(*self),
    {
        match self {
            ConfigError::IoError(m) => concat2("IO error: ", m.as_str()),
            ConfigError::ParseError(m) => concat2("Parse error: ", m.as_str()),
            ConfigError::SerializeError(m) => concat2("Serialize error: ", m.as_str()),
            ConfigError::PrinterExists(m) => concat2("Printer already exists: ", m.as_str()),
            ConfigError::PrinterNotFound(m) => concat2("Printer not found: ", m.as_str()),
            ConfigError::NoDefaultPrinter(m) => concat2("No default printer: ", m.as_str()),
        }
    }
}

/// The message of the error for a name that is already taken.
pub open spec fn exists_text(name: Seq<char>) -> Seq<char> {
    "Printer '"@ + name + "' already exists"@
}

/// The message of the error for a name that no profile has.
pub open spec fn not_found_text(name: Seq<char>) -> Seq<char> {
    "Printer '"@ + name + "' not found"@
}

fn not_found(name: &str) -> (error: ConfigError)
    ensures
        error matches ConfigError::PrinterNotFound(m) && m@ == not_found_text(name@),
{
    ConfigError::PrinterNotFound(concat3("Printer '", name, "' not found"))
}

/// The stored profiles, the name of the one used by default, and the
/// connection settings.
#[derive(Debug)]
pub struct AppConfig {
    pub printers: TextMap<PrinterConfig>,
    pub default_printer: Option<String>,
    pub mqtt_settings: MqttSettings,
}

impl Clone for AppConfig {
    /// A copy with the same profiles in the same order, the same default
    /// and the same settings.
    fn clone(&self) -> (copy: Self)
        ensures
            copy.printers@ == self.printers@,
            copy.printers.key_order() == self.printers.key_order(),
            copy.default_printer == self.default_printer,
            copy.mqtt_settings == self.mqtt_settings,
    {
        let printers = self.printers.clone();
        proof {
            assert forall|key: Seq<char>| self.printers@.contains_key(key) implies printers@[key]
                == self.printers@[key] by {
                assert(vstd::pervasive::cloned(self.printers@[key], printers@[key]));
            }
            assert(printers@ =~= self.printers@);
        }
        AppConfig {
            printers,
            default_printer: clone_text(&self.default_printer),
            mqtt_settings: self.mqtt_settings,
        }
    }
}

impl Default for AppConfig {
    fn default() -> (config: Self)
        ensures
            config.printers@ == Map::<Seq<char>, PrinterConfig>::empty(),
            config.printers.key_order() == Seq::<Seq<char>>::empty(),
            config.default_printer is None,
            config.default_is_stored(),
            config.mqtt_settings == (MqttSettings {
                keep_alive_secs: 30,
                connection_timeout_secs: 10,
                retry_attempts: 5,
                retry_delay_secs: 5,
                queue_size: 10,
            }),
    {
        AppConfig {
            printers: TextMap::new(),
            default_printer: None,
            mqtt_settings: MqttSettings::default(),
        }
    }
}

impl AppConfig {
    /// Whether the default, where one is set, names a stored profile. The
    /// operations on the store keep this; a store that was put together by
    /// hand or read from a file may lack it.
    pub open spec fn default_is_stored(self) -> bool {
        self.default_printer matches Some(name) ==> self.printers@.contains_key(name@)
    }

    /// Stores `printer` under `name`, which must be free. The first profile
    /// stored becomes the default.
    pub fn add_printer(&mut self, name: String, printer: PrinterConfig) -> (result: Result<
        (),
        ConfigError,
    >)
        ensures
            old(self).default_is_stored() ==> final(self).default_is_stored(),
            old(self).printers@.contains_key(name@) ==> *final(self) == *old(self) && (
            result matches Err(ConfigError::PrinterExists(m)) && m@ == exists_text(name@)),
            !old(self).printers@.contains_key(name@) ==> result is Ok && final(self).printers@
                == old(self).printers@.insert(name@, printer)
                && final(self).printers.key_order() == old(self).printers.key_order().push(name@)
                && final(self).default_printer == (if old(self).default_printer is None {
                Some(name)
            } else {
                old(self).default_printer
            }) && final(self).mqtt_settings == old(self).mqtt_settings,
    {
        if self.printers.contains_key(name.as_str()) {
            return Err(
                ConfigError::PrinterExists(concat3("Printer '", name.as_str(), "' already exists")),
            );
        }
        self.printers.insert(name.clone(), printer);
        if self.default_printer.is_none() {
            self.default_printer = Some(name);
        }
        Ok(())
    }

    /// Takes the profile `name` out of the store and returns it. Where it
    /// was the default, the first profile that is left becomes the default.
    pub fn remove_printer(&mut self, name: &str) -> (result: Result<PrinterConfig, ConfigError>)
        ensures
            old(self).default_is_stored() ==> final(self).default_is_stored(),
            !old(self).printers@.contains_key(name@) ==> *final(self) == *old(self) && (
            result matches Err(ConfigError::PrinterNotFound(m)) && m@ == not_found_text(name@)),
            old(self).printers@.contains_key(name@) ==> result == Ok::<PrinterConfig, ConfigError>(
                old(self).printers@[name@],
            ) && final(self).printers@ == old(self).printers@.remove(name@)
                && final(self).printers.key_order() == crate::textmap::without_key(
                old(self).printers.key_order(),
                name@,
            ) && final(self).mqtt_settings == old(self).mqtt_settings,
            old(self).printers@.contains_key(name@) && !was_default(
                old(self).default_printer,
                name@,
            ) ==> final(self).default_printer == old(self).default_printer,
            old(self).printers@.contains_key(name@) && was_default(
                old(self).default_printer,
                name@,
            ) ==> match final(self).default_printer {
                Some(d) => final(self).printers.key_order().len() > 0 && d@
                    == final(self).printers.key_order()[0] && final(self).printers@.contains_key(d@),
                None => final(self).printers@ == Map::<Seq<char>, PrinterConfig>::empty(),
            },
    {
        if !self.printers.contains_key(name) {
            return Err(not_found(name));
        }
        let removed = self.printers.remove(name);
        let is_default = match &self.default_printer {
            Some(d) => str_eq(d.as_str(), name),
            None => false,
        };
        if is_default {
            self.default_printer = match self.printers.first_key() {
                Some(k) => Some(k.clone()),
                None => None,
            };
        }
        match removed {
            Some(printer) => Ok(printer),
            None => Err(not_found(name)),
        }
    }

    /// The profile stored under `name`.
    pub fn get_printer(&self, name: &str) -> (result: Result<&PrinterConfig, ConfigError>)
        ensures
            match result {
                Ok(printer) => self.printers@.contains_key(name@) && *printer
                    == self.printers@[name@],
                Err(error) => !self.printers@.contains_key(name@) && (
                error matches ConfigError::PrinterNotFound(m) && m@ == not_found_text(name@)),
            },
    {
        match self.printers.get(name) {
            Some(printer) => Ok(printer),
            None => Err(not_found(name)),
        }
    }

    /// The profile that the default name stands for.
    pub fn get_default_printer(&self) -> (result: Result<&PrinterConfig, ConfigError>)
        ensures
            match self.default_printer {
                None => result matches Err(ConfigError::NoDefaultPrinter(m)) && m@
                    == "No default printer configured"@,
                Some(d) => match result {
                    Ok(printer) => self.printers@.contains_key(d@) && *printer
                        == self.printers@[d@],
                    Err(error) => !self.printers@.contains_key(d@) && (
                    error matches ConfigError::PrinterNotFound(m) && m@ == not_found_text(d@)),
                },
            },
    {
        match &self.default_printer {
            None => Err(
                ConfigError::NoDefaultPrinter(String::from_str("No default printer configured")),
            ),
            Some(name) => self.get_printer(name.as_str()),
        }
    }

    /// Makes `name`, which must be stored, the default.
    pub fn set_default_printer(&mut self, name: &str) -> (result: Result<(), ConfigError>)
        ensures
            old(self).default_is_stored() ==> final(self).default_is_stored(),
            final(self).printers == old(self).printers,
            final(self).mqtt_settings == old(self).mqtt_settings,
            match result {
                Ok(_) => old(self).printers@.contains_key(name@) && (
                final(self).default_printer matches Some(d) && d@ == name@),
                Err(error) => !old(self).printers@.contains_key(name@)
                    && final(self).default_printer == old(self).default_printer && (
                error matches ConfigError::PrinterNotFound(m) && m@ == not_found_text(name@)),
            },
    {
        if !self.printers.contains_key(name) {
            return Err(not_found(name));
        }
        self.default_printer = Some(String::from_str(name));
        Ok(())
    }

    /// Every stored profile with its name and with whether it is the
    /// default, the names ascending byte by byte.
    pub fn sorted_listing(&self) -> (list: Vec<(&String, &PrinterConfig, bool)>)
        ensures
            list@.len() == self.printers@.dom().len(),
            is_listing_of(list@, *self),
            names_ascend(list@),
            forall|key: Seq<char>| self.printers@.contains_key(key) ==> lists_name(list@, key),
    {
        let entries = self.printers.entries();
        let mut list: Vec<(&String, &PrinterConfig, bool)> = Vec::new();
        let mut n: usize = 0;
        while n < entries.len()
            invariant
                n <= entries@.len(),
                list@.len() == n,
                is_listing_of(list@, *self),
                names_ascend(list@),
                forall|i: int|
                    0 <= i < entries@.len() ==> self.printers@.contains_key(
                        (#[trigger] entries@[i]).0@,
                    ) && *entries@[i].1 == self.printers@[entries@[i].0@],
                forall|i: int, j: int|
                    0 <= i < j < entries@.len() ==> (#[trigger] entries@[i]).0@ != (
                    #[trigger] entries@[j]).0@,
                forall|j: int| 0 <= j < n ==> lists_name(list@, (#[trigger] entries@[j]).0@),
                forall|i: int|
                    0 <= i < list@.len() ==> among_first(entries@, n as int, (#[trigger] list@[i]).0@),
            decreases entries@.len() - n,
        {
            let name: &String = entries[n].0;
            let printer: &PrinterConfig = entries[n].1;
            let is_default = match &self.default_printer {
                Some(default) => str_eq(default.as_str(), name.as_str()),
                None => false,
            };
            let mut at: usize = 0;
            while at < list.len() && str_before(list[at].0.as_str(), name.as_str())
                invariant
                    at <= list@.len(),
                    forall|q: int|
                        0 <= q < at ==> bytes_before(
                            encode_utf8((#[trigger] list@[q]).0@),
                            encode_utf8(name@),
                        ),
                decreases list@.len() - at,
            {
                at += 1;
            }
            let ghost before = list@;
            proof {
                assert forall|q: int| at <= q < before.len() implies bytes_before(
                    encode_utf8(name@),
                    encode_utf8((#[trigger] before[q]).0@),
                ) by {
                    let first = before[at as int].0@;
                    assert(among_first(entries@, n as int, before[at as int].0@));
                    let j = choose|j: int|
                        0 <= j < n && j < entries@.len() && (#[trigger] entries@[j]).0@ == first;
                    assert(entries@[j].0@ != entries@[n as int].0@);
                    if encode_utf8(first) == encode_utf8(name@) {
                        lemma_same_bytes_same_text(first, name@);
                    }
                    lemma_bytes_order_total(encode_utf8(first), encode_utf8(name@));
                    if q > at {
                        lemma_bytes_order_transitive(
                            encode_utf8(name@),
                            encode_utf8(first),
                            encode_utf8(before[q].0@),
                        );
                    }
                }
            }
            list.insert(at, (name, printer, is_default));
            proof {
                let after = list@;
                assert(after.len() == before.len() + 1);
                assert(after[at as int] == (name, printer, is_default));
                assert forall|i: int| 0 <= i < after.len() && i != at implies #[trigger] after[i]
                    == before[if i < at {
                    i
                } else {
                    i - 1
                }] by {}
                assert(is_listing_of(after, *self)) by {
                    assert forall|i: int| 0 <= i < after.len() implies self.printers@.contains_key(
                        (#[trigger] after[i]).0@,
                    ) && *after[i].1 == self.printers@[after[i].0@] && after[i].2 == was_default(
                        self.default_printer,
                        after[i].0@,
                    ) by {
                        if i != at {
                            let old_i = if i < at {
                                i
                            } else {
                                i - 1
                            };
                            assert(after[i] == before[old_i]);
                        } else {
                            assert(entries@[n as int].0@ == name@);
                        }
                    }
                }
                assert(names_ascend(after)) by {
                    assert forall|i: int, j: int| 0 <= i < j < after.len() implies bytes_before(
                        encode_utf8((#[trigger] after[i]).0@),
                        encode_utf8((#[trigger] after[j]).0@),
                    ) by {
                        let old_i = if i < at {
                            i
                        } else {
                            i - 1
                        };
                        let old_j = if j < at {
                            j
                        } else {
                            j - 1
                        };
                        if i == at {
                            assert(after[j] == before[old_j]);
                        } else if j == at {
                            assert(after[i] == before[old_i]);
                        } else {
                            assert(after[i] == before[old_i]);
                            assert(after[j] == before[old_j]);
                        }
                    }
                }
                assert forall|j: int| 0 <= j < n + 1 implies lists_name(
                    after,
                    (#[trigger] entries@[j]).0@,
                ) by {
                    if j < n {
                        assert(lists_name(before, entries@[j].0@));
                        let i = choose|i: int|
                            0 <= i < before.len() && (#[trigger] before[i]).0@ == entries@[j].0@;
                        let new_i = if i < at {
                            i
                        } else {
                            i + 1
                        };
                        assert(after[new_i] == before[i]);
                    } else {
                        assert(after[at as int].0@ == entries@[j].0@);
                    }
                }
                assert forall|i: int| 0 <= i < after.len() implies among_first(
                    entries@,
                    n + 1,
                    (#[trigger] after[i]).0@,
                ) by {
                    if i != at {
                        let old_i = if i < at {
                            i
                        } else {
                            i - 1
                        };
                        assert(after[i] == before[old_i]);
                        assert(among_first(entries@, n as int, before[old_i].0@));
                        let j = choose|j: int|
                            0 <= j < n && j < entries@.len() && (#[trigger] entries@[j]).0@
                                == before[old_i].0@;
                        assert(entries@[j].0@ == after[i].0@);
                    } else {
                        assert(entries@[n as int].0@ == after[i].0@);
                    }
                }
            }
            n += 1;
        }
        proof {
            assert forall|key: Seq<char>| self.printers@.contains_key(key) implies lists_name(
                list@,
                key,
            ) by {
                let j = choose|j: int| 0 <= j < entries@.len() && (#[trigger] entries@[j]).0@ == key;
                assert(lists_name(list@, entries@[j].0@));
            }
        }
        list
    }

    /// Every stored profile with its name, in the order in which the names
    /// were first stored.
    pub fn list_printers(&self) -> (list: Vec<(&String, &PrinterConfig)>)
        ensures
            list@.len() == self.printers.key_order().len(),
            forall|i: int|
                0 <= i < list@.len() ==> (#[trigger] list@[i]).0@ == self.printers.key_order()[i]
                    && self.printers@.contains_key(list@[i].0@) && *list@[i].1
                    == self.printers@[list@[i].0@],
            forall|i: int, j: int|
                0 <= i < j < list@.len() ==> (#[trigger] list@[i]).0@ != (#[trigger] list@[j]).0@,
            forall|key: Seq<char>|
                self.printers@.contains_key(key) ==> exists|i: int|
                    0 <= i < list@.len() && (#[trigger] list@[i]).0@ == key,
            list@.len() == self.printers@.dom().len(),
    {
        self.printers.entries()
    }
}

/// Whether a listing names a stored profile at every place, with its
/// profile and with whether it is the default.
pub open spec fn is_listing_of(list: Seq<(&String, &PrinterConfig, bool)>, config: AppConfig) -> bool {
    forall|i: int|
        0 <= i < list.len() ==> config.printers@.contains_key((#[trigger] list[i]).0@) && *list[i].1
            == config.printers@[list[i].0@] && list[i].2 == was_default(
            config.default_printer,
            list[i].0@,
        )
}

/// Whether a listing has the name `name` at some place.
pub open spec fn lists_name(list: Seq<(&String, &PrinterConfig, bool)>, name: Seq<char>) -> bool {
    exists|i: int| 0 <= i < list.len() && (#[trigger] list[i]).0@ == name
}

/// Whether `name` is among the first `count` names of `entries`.
spec fn among_first(entries: Seq<(&String, &PrinterConfig)>, count: int, name: Seq<char>) -> bool {
    exists|j: int| 0 <= j < count && j < entries.len() && (#[trigger] entries[j]).0@ == name
}

/// Whether the names of a listing ascend, byte by byte in UTF-8.
pub open spec fn names_ascend(list: Seq<(&String, &PrinterConfig, bool)>) -> bool {
    forall|i: int, j: int|
        0 <= i < j < list.len() ==> bytes_before(
            encode_utf8((#[trigger] list[i]).0@),
            encode_utf8((#[trigger] list[j]).0@),
        )
}

/// Whether `default` names the profile `name`.
pub open spec fn was_default(default: Option<String>, name: Seq<char>) -> bool {
    default matches Some(d) && d@ == name
}

} // verus!
