//! What the command line takes from its user: the checks on an address, a
//! device identifier and an access code, and the choice of the printer to
//! monitor.

use vstd::prelude::*;
use vstd::string::StringExecFns;
use vstd::string::StringSliceAdditionalSpecFns;
use vstd::utf8::encode_utf8;
use crate::config::not_found_text;
use crate::config::AppConfig;
use crate::config::ConfigError;
use crate::config::PrinterConfig;
use crate::config::DEFAULT_PORT;
use crate::text::as_text;
use crate::text::concat2;
use crate::text::text_of;

verus! {

/// Whether a byte is an ASCII digit.
pub open spec fn is_digit(byte: u8) -> bool {
    0x30 <= byte <= 0x39
}

/// The number that a run of digits writes in decimal.
pub open spec fn decimal_value(digits: Seq<u8>) -> nat
    decreases digits.len(),
{
    if digits.len() == 0 {
        0
    } else {
        decimal_value(digits.drop_last()) * 10 + (digits.last() - 0x30) as nat
    }
}

/// Whether `text` writes one part of an address: one to three digits, with
/// no zero in front of another digit, for a number of at most 255.
pub open spec fn is_octet(text: Seq<u8>) -> bool {
    &&& 1 <= text.len() <= 3
    &&& forall|i: int| 0 <= i < text.len() ==> is_digit(#[trigger] text[i])
    &&& (text.len() > 1 ==> text[0] != 0x30)
    &&& decimal_value(text) <= 255
}

/// Whether `text`, from `start` to its end, is `parts` parts of an address
/// with a dot between each two.
pub open spec fn is_dotted(text: Seq<u8>, start: int, parts: nat) -> bool
    decreases parts,
{
    if parts == 0 {
        false
    } else if parts == 1 {
        0 <= start <= text.len() && is_octet(text.subrange(start, text.len() as int))
    } else {
        exists|end: int|
            0 <= start < end < text.len() && text[end] == 0x2e && is_octet(
                #[trigger] text.subrange(start, end),
            ) && is_dotted(text, end + 1, (parts - 1) as nat)
    }
}

/// Whether `text` is an IPv4 address in dotted decimal: four numbers of at
/// most 255, without sign, space or a zero in front, and a dot between
/// each two.
pub open spec fn is_ipv4(text: Seq<u8>) -> bool {
    is_dotted(text, 0, 4)
}

/// An IPv4 address is four parts with three dots between them, and the
/// text holds nothing else.
pub proof fn lemma_ipv4_is_four_parts(text: Seq<u8>)
    ensures
        is_ipv4(text) <==> exists|i: int, j: int, k: int|
            0 < i < j < k < text.len() && text[i] == 0x2e && text[j] == 0x2e && text[k] == 0x2e
                && is_octet(#[trigger] text.subrange(0, i)) && is_octet(
                #[trigger] text.subrange(i + 1, j),
            ) && is_octet(#[trigger] text.subrange(j + 1, k)) && is_octet(
                text.subrange(k + 1, text.len() as int),
            ),
{
    reveal_with_fuel(is_dotted, 5);
    if is_ipv4(text) {
        let i = choose|end: int|
            0 <= 0 < end < text.len() && text[end] == 0x2e && is_octet(
                #[trigger] text.subrange(0, end),
            ) && is_dotted(text, end + 1, 3);
        let j = choose|end: int|
            0 <= i + 1 < end < text.len() && text[end] == 0x2e && is_octet(
                #[trigger] text.subrange(i + 1, end),
            ) && is_dotted(text, end + 1, 2);
        let k = choose|end: int|
            0 <= j + 1 < end < text.len() && text[end] == 0x2e && is_octet(
                #[trigger] text.subrange(j + 1, end),
            ) && is_dotted(text, end + 1, 1);
        assert(is_octet(text.subrange(0, i)) && is_octet(text.subrange(i + 1, j)) && is_octet(
            text.subrange(j + 1, k),
        ));
    }
    if exists|i: int, j: int, k: int|
        0 < i < j < k < text.len() && text[i] == 0x2e && text[j] == 0x2e && text[k] == 0x2e
            && is_octet(#[trigger] text.subrange(0, i)) && is_octet(
            #[trigger] text.subrange(i + 1, j),
        ) && is_octet(#[trigger] text.subrange(j + 1, k)) && is_octet(
            text.subrange(k + 1, text.len() as int),
        ) {
        let (i, j, k) = choose|i: int, j: int, k: int|
            0 < i < j < k < text.len() && text[i] == 0x2e && text[j] == 0x2e && text[k] == 0x2e
                && is_octet(#[trigger] text.subrange(0, i)) && is_octet(
                #[trigger] text.subrange(i + 1, j),
            ) && is_octet(#[trigger] text.subrange(j + 1, k)) && is_octet(
                text.subrange(k + 1, text.len() as int),
            );
        assert(is_dotted(text, k + 1, 1));
        assert(is_octet(text.subrange(j + 1, k)));
        assert(is_dotted(text, j + 1, 2));
        assert(is_octet(text.subrange(i + 1, j)));
        assert(is_dotted(text, i + 1, 3));
        assert(is_octet(text.subrange(0, i)));
        assert(is_dotted(text, 0, 4));
    }
}

/// What is wrong with a device identifier, if anything: it is empty, or
/// shorter than five bytes.
pub open spec fn device_id_fault(device_id: Seq<u8>) -> Option<InputError> {
    if device_id.len() == 0 {
        Some(InputError::DeviceIdEmpty)
    } else if device_id.len() < 5 {
        Some(InputError::DeviceIdTooShort)
    } else {
        None
    }
}

/// What is wrong with an access code, if anything: it is empty, or not
/// eight bytes long, or not made of digits.
pub open spec fn access_code_fault(access_code: Seq<u8>) -> Option<InputError> {
    if access_code.len() == 0 {
        Some(InputError::AccessCodeEmpty)
    } else if access_code.len() != 8 {
        Some(InputError::AccessCodeLength)
    } else if exists|i: int| 0 <= i < access_code.len() && !is_digit(#[trigger] access_code[i]) {
        Some(InputError::AccessCodeNotDigits)
    } else {
        None
    }
}

/// Why the user's input was refused.
#[derive(Debug)]
pub enum InputError {
    /// The address, which this carries, is no IPv4 address.
    InvalidIp(String),
    DeviceIdEmpty,
    DeviceIdTooShort,
    AccessCodeEmpty,
    AccessCodeLength,
    AccessCodeNotDigits,
    /// No printer is stored and none was given in full.
    NoPrinters,
    /// The store refused.
    Config(ConfigError),
}

/// The line that an [`InputError`] prints.
pub open spec fn input_error_text(error: InputError) -> Seq<char> {
    match error {
        InputError::InvalidIp(ip) => "Invalid IP address: "@ + ip@,
        InputError::DeviceIdEmpty => "Device ID cannot be empty"@,
        InputError::DeviceIdTooShort => "Device ID seems too short (should be like '01S00A000000000')"@,
        InputError::AccessCodeEmpty => "Access code cannot be empty"@,
        InputError::AccessCodeLength => "Access code should be exactly 8 characters"@,
        InputError::AccessCodeNotDigits => "Access code should contain only digits"@,
        InputError::NoPrinters => "No printers configured. Use 'add' command to add a printer."@,
        InputError::Config(error) => crate::config::config_error_text(error),
    }
}

impl InputError {
    /// The line to print for this error.
    pub fn message(&self) -> (line: String)
        ensures
            line@ == input_error_text(*self),
    {
        match self {
            InputError::InvalidIp(ip) => concat2("Invalid IP address: ", ip.as_str()),
            InputError::DeviceIdEmpty => String::from_str("Device ID cannot be empty"),
            InputError::DeviceIdTooShort => String::from_str(
                "Device ID seems too short (should be like '01S00A000000000')",
            ),
            InputError::AccessCodeEmpty => String::from_str("Access code cannot be empty"),
            InputError::AccessCodeLength => String::from_str(
                "Access code should be exactly 8 characters",
            ),
            InputError::AccessCodeNotDigits => String::from_str(
                "Access code should contain only digits",
            ),
            InputError::NoPrinters => String::from_str(
                "No printers configured. Use 'add' command to add a printer.",
            ),
            InputError::Config(error) => error.message(),
        }
    }
}

/// Reads the part of an address that starts at `start`, and returns where
/// it ends. The part ends where the text ends or a byte that is no digit
/// stands.
fn read_octet(text: &[u8], start: usize) -> (end: Option<usize>)
    requires
        start <= text@.len(),
    ensures
        end matches Some(e) ==> start < e <= text@.len() && is_octet(
            text@.subrange(start as int, e as int),
        ) && (e == text@.len() || !is_digit(text@[e as int])),
        forall|e: int|
            start <= e <= text@.len() && (e == text@.len() || !is_digit(text@[e])) && is_octet(
                #[trigger] text@.subrange(start as int, e),
            ) ==> end == Some(e as usize),
{
    let mut end: usize = start;
    let mut value: u32 = 0;
    while end < text.len() && end - start < 4 && 0x30 <= text[end] && text[end] <= 0x39
        invariant
            start <= end <= text@.len(),
            end - start <= 4,
            forall|i: int| start <= i < end ==> is_digit(#[trigger] text@[i]),
            value == decimal_value(text@.subrange(start as int, end as int)),
            value <= 9999,
        decreases text@.len() - end,
    {
        proof {
            let longer = text@.subrange(start as int, end + 1);
            assert(longer.drop_last() =~= text@.subrange(start as int, end as int));
            assert(longer.last() == text@[end as int]);
            lemma_value_bound(text@.subrange(start as int, end as int));
        }
        let digit: u8 = text[end] - 0x30;
        value = value * 10 + digit as u32;
        end = end + 1;
        proof {
            lemma_value_bound(text@.subrange(start as int, end as int));
        }
    }
    let length = end - start;
    let run = Ghost(text@.subrange(start as int, end as int));
    let accepted = 1 <= length && length <= 3 && (length == 1 || text[start] != 0x30) && value
        <= 255;
    proof {
        assert(forall|i: int| 0 <= i < run@.len() ==> run@[i] == text@[start + i]);
        assert(accepted == is_octet(run@));
        assert forall|e: int|
            start <= e <= text@.len() && (e == text@.len() || !is_digit(text@[e])) && is_octet(
                #[trigger] text@.subrange(start as int, e),
            ) implies e == end && accepted by {
            let part = text@.subrange(start as int, e);
            if e < end {
                assert(is_digit(text@[e]));
            } else if e > end {
                assert(part[end - start] == text@[end as int]);
                if length < 4 {
                    assert(!is_digit(text@[end as int]));
                    assert(is_digit(part[end - start]));
                }
            }
        }
    }
    if accepted {
        Some(end)
    } else {
        None
    }
}

/// A run of at most four digits writes a number below ten thousand.
proof fn lemma_value_bound(digits: Seq<u8>)
    requires
        digits.len() <= 4,
        forall|i: int| 0 <= i < digits.len() ==> is_digit(#[trigger] digits[i]),
    ensures
        digits.len() == 0 ==> decimal_value(digits) == 0,
        digits.len() <= 1 ==> decimal_value(digits) <= 9,
        digits.len() <= 2 ==> decimal_value(digits) <= 99,
        digits.len() <= 3 ==> decimal_value(digits) <= 999,
        decimal_value(digits) <= 9999,
    decreases digits.len(),
{
    if digits.len() > 0 {
        assert(is_digit(digits[digits.len() - 1]));
        lemma_value_bound(digits.drop_last());
    }
}

/// Checks that `ip` is an IPv4 address in dotted decimal.
pub fn validate_ip_address(ip: &str) -> (result: Result<(), InputError>)
    ensures
        match result {
            Ok(_) => is_ipv4(ip.spec_bytes()),
            Err(error) => !is_ipv4(ip.spec_bytes()) && (error matches InputError::InvalidIp(text)
                && text@ == ip@),
        },
{
    let text = ip.as_bytes();
    let mut start: usize = 0;
    let mut parts: usize = 4;
    let mut valid = false;
    let mut done = false;
    while !done
        invariant
            text@ == ip.spec_bytes(),
            start <= text@.len(),
            1 <= parts <= 4,
            !done ==> (is_ipv4(text@) <==> is_dotted(text@, start as int, parts as nat)),
            done ==> valid == is_ipv4(text@),
        decreases parts, (if done { 0int } else { 1int }),
    {
        let end = read_octet(text, start);
        if parts == 1 {
            valid = match end {
                Some(e) => e == text.len(),
                None => false,
            };
            done = true;
        } else {
            let next = match end {
                Some(e) => if e < text.len() && text[e] == 0x2e {
                    Some(e + 1)
                } else {
                    None
                },
                None => None,
            };
            match next {
                Some(after) => {
                    assert(is_dotted(text@, start as int, parts as nat) <==> is_dotted(
                        text@,
                        after as int,
                        (parts - 1) as nat,
                    )) by {
                        let e = after - 1;
                        assert(is_octet(text@.subrange(start as int, e)));
                    }
                    start = after;
                    parts = parts - 1;
                },
                None => {
                    assert(!is_dotted(text@, start as int, parts as nat));
                    valid = false;
                    done = true;
                },
            }
        }
    }
    if valid {
        Ok(())
    } else {
        Err(InputError::InvalidIp(String::from_str(ip)))
    }
}

/// Checks that a device identifier is at least five bytes long.
pub fn validate_device_id(device_id: &str) -> (result: Result<(), InputError>)
    ensures
        result == match device_id_fault(device_id.spec_bytes()) {
            Some(error) => Err::<(), InputError>(error),
            None => Ok::<(), InputError>(()),
        },
{
    let bytes = device_id.as_bytes();
    if bytes.len() == 0 {
        return Err(InputError::DeviceIdEmpty);
    }
    if bytes.len() < 5 {
        return Err(InputError::DeviceIdTooShort);
    }
    Ok(())
}

/// Checks that an access code is eight digits.
pub fn validate_access_code(access_code: &str) -> (result: Result<(), InputError>)
    ensures
        result == match access_code_fault(access_code.spec_bytes()) {
            Some(error) => Err::<(), InputError>(error),
            None => Ok::<(), InputError>(()),
        },
{
    let bytes = access_code.as_bytes();
    if bytes.len() == 0 {
        return Err(InputError::AccessCodeEmpty);
    }
    if bytes.len() != 8 {
        return Err(InputError::AccessCodeLength);
    }
    let mut i: usize = 0;
    while i < bytes.len()
        invariant
            bytes@ == access_code.spec_bytes(),
            bytes@.len() == 8,
            i <= bytes@.len(),
            forall|j: int| 0 <= j < i ==> is_digit(#[trigger] bytes@[j]),
        decreases bytes@.len() - i,
    {
        if bytes[i] < 0x30 || bytes[i] > 0x39 {
            assert(!is_digit(bytes@[i as int]));
            return Err(InputError::AccessCodeNotDigits);
        }
        i += 1;
    }
    Ok(())
}

/// Whether the address, the device identifier and the access code, as far
/// as they are given, pass their checks.
pub open spec fn inputs_valid(
    ip: Option<Seq<char>>,
    device_id: Option<Seq<char>>,
    access_code: Option<Seq<char>>,
) -> bool {
    &&& ip matches Some(text) ==> is_ipv4(encode_utf8(text))
    &&& device_id matches Some(text) ==> device_id_fault(encode_utf8(text)) is None
    &&& access_code matches Some(text) ==> access_code_fault(encode_utf8(text)) is None
}

/// Whether `error` is what the first input that fails its check is refused
/// with, the address being checked first, then the device identifier, then
/// the access code.
pub open spec fn is_input_fault(
    error: InputError,
    ip: Option<Seq<char>>,
    device_id: Option<Seq<char>>,
    access_code: Option<Seq<char>>,
) -> bool {
    if ip is Some && !is_ipv4(encode_utf8(ip->0)) {
        error matches InputError::InvalidIp(refused) && refused@ == ip->0
    } else if device_id is Some && device_id_fault(encode_utf8(device_id->0)) is Some {
        Some(error) == device_id_fault(encode_utf8(device_id->0))
    } else if access_code is Some && access_code_fault(encode_utf8(access_code->0)) is Some {
        Some(error) == access_code_fault(encode_utf8(access_code->0))
    } else {
        false
    }
}

/// Checks the inputs that are given: the address, then the device
/// identifier, then the access code.
pub fn validate_inputs(
    ip: Option<&str>,
    device_id: Option<&str>,
    access_code: Option<&str>,
) -> (result: Result<(), InputError>)
    ensures
        match result {
            Ok(_) => inputs_valid(view_of(ip), view_of(device_id), view_of(access_code)),
            Err(error) => is_input_fault(
                error,
                view_of(ip),
                view_of(device_id),
                view_of(access_code),
            ),
        },
{
    if let Some(text) = ip {
        if let Err(error) = validate_ip_address(text) {
            return Err(error);
        }
    }
    if let Some(text) = device_id {
        if let Err(error) = validate_device_id(text) {
            return Err(error);
        }
    }
    if let Some(text) = access_code {
        if let Err(error) = validate_access_code(text) {
            return Err(error);
        }
    }
    Ok(())
}

/// The text of a slice that may be absent.
pub open spec fn view_of(text: Option<&str>) -> Option<Seq<char>> {
    match text {
        Some(t) => Some(t@),
        None => None,
    }
}

/// The stored profile that is asked for: the one of the name given, or the
/// default one where no name is given.
pub open spec fn stored_profile(name: Option<Seq<char>>, stored: AppConfig) -> Option<
    PrinterConfig,
> {
    match name {
        Some(n) => if stored.printers@.contains_key(n) {
            Some(stored.printers@[n])
        } else {
            None
        },
        None => match stored.default_printer {
            Some(d) => if stored.printers@.contains_key(d@) {
                Some(stored.printers@[d@])
            } else {
                None
            },
            None => None,
        },
    }
}

/// Whether `error` says why no stored profile is found: the name given is
/// not stored; or, no name being given, nothing is stored, or no default is
/// set, or the default is not stored.
pub open spec fn is_lookup_fault(error: InputError, name: Option<Seq<char>>, stored: AppConfig) -> bool {
    match name {
        Some(n) => error matches InputError::Config(ConfigError::PrinterNotFound(m)) && m@
            == not_found_text(n),
        None => if stored.printers@ == Map::<Seq<char>, PrinterConfig>::empty() {
            error == InputError::NoPrinters
        } else {
            match stored.default_printer {
                Some(d) => error matches InputError::Config(ConfigError::PrinterNotFound(m)) && m@
                    == not_found_text(d@),
                None => error matches InputError::Config(ConfigError::NoDefaultPrinter(m)) && m@
                    == "No default printer configured"@,
            }
        },
    }
}

/// `base` with the address, the device identifier and the access code that
/// are given in place of its own.
pub open spec fn with_overrides(
    base: PrinterConfig,
    ip: Option<String>,
    device_id: Option<String>,
    access_code: Option<String>,
) -> PrinterConfig {
    PrinterConfig {
        ip: match ip {
            Some(text) => text,
            None => base.ip,
        },
        device_id: match device_id {
            Some(text) => text,
            None => base.device_id,
        },
        access_code: match access_code {
            Some(text) => text,
            None => base.access_code,
        },
        ..base
    }
}

/// Whether `result` is the printer to monitor. Where address, device
/// identifier and access code are all given, they make a new profile,
/// named as asked or `manual`, and the store is not looked at. Else the
/// stored profile that is asked for is taken, with what is given in place
/// of its own. The inputs that are given are checked in either case.
pub open spec fn is_loaded(
    name: Option<String>,
    ip: Option<String>,
    device_id: Option<String>,
    access_code: Option<String>,
    stored: AppConfig,
    result: Result<PrinterConfig, InputError>,
) -> bool {
    if ip is Some && device_id is Some && access_code is Some {
        match result {
            Ok(config) => inputs_valid(text_of(ip), text_of(device_id), text_of(access_code))
                && config.name@ == (match name {
                Some(n) => n@,
                None => "manual"@,
            }) && config.ip == ip->0 && config.device_id == device_id->0 && config.access_code
                == access_code->0 && config.port == DEFAULT_PORT && config.use_tls
                && config.model is None && config.firmware_version is None,
            Err(error) => is_input_fault(
                error,
                text_of(ip),
                text_of(device_id),
                text_of(access_code),
            ),
        }
    } else {
        match stored_profile(text_of(name), stored) {
            Some(base) => match result {
                Ok(config) => inputs_valid(text_of(ip), text_of(device_id), text_of(access_code))
                    && config == with_overrides(base, ip, device_id, access_code),
                Err(error) => is_input_fault(
                    error,
                    text_of(ip),
                    text_of(device_id),
                    text_of(access_code),
                ),
            },
            None => result matches Err(error) && is_lookup_fault(error, text_of(name), stored),
        }
    }
}

/// Whether the store need not be read to choose the printer: address,
/// device identifier and access code are all given.
pub fn is_complete_override(
    ip: &Option<String>,
    device_id: &Option<String>,
    access_code: &Option<String>,
) -> (complete: bool)
    ensures
        complete == (*ip is Some && *device_id is Some && *access_code is Some),
{
    ip.is_some() && device_id.is_some() && access_code.is_some()
}

/// Chooses the printer to monitor from what the user gave and what is
/// stored. `stored` is not looked at where `is_complete_override` holds.
pub fn load_printer_config(
    name: &Option<String>,
    ip: &Option<String>,
    device_id: &Option<String>,
    access_code: &Option<String>,
    stored: &AppConfig,
) -> (result: Result<PrinterConfig, InputError>)
    ensures
        is_loaded(*name, *ip, *device_id, *access_code, *stored, result),
{
    if let (Some(ip_text), Some(device_text), Some(code_text)) = (ip, device_id, access_code) {
        if let Err(error) = validate_inputs(
            Some(ip_text.as_str()),
            Some(device_text.as_str()),
            Some(code_text.as_str()),
        ) {
            return Err(error);
        }
        let profile_name = match name {
            Some(n) => n.clone(),
            None => String::from_str("manual"),
        };
        return Ok(
            PrinterConfig::new(profile_name, ip_text.clone(), device_text.clone(), code_text.clone()),
        );
    }
    let base = match name {
        Some(printer_name) => match stored.get_printer(printer_name.as_str()) {
            Ok(printer) => printer.clone(),
            Err(error) => {
                return Err(InputError::Config(error));
            },
        },
        None => {
            if stored.printers.is_empty() {
                return Err(InputError::NoPrinters);
            }
            match stored.get_default_printer() {
                Ok(printer) => printer.clone(),
                Err(error) => {
                    return Err(InputError::Config(error));
                },
            }
        },
    };
    if let Err(error) = validate_inputs(as_text(ip), as_text(device_id), as_text(access_code)) {
        return Err(error);
    }
    let mut config = base;
    if let Some(text) = ip {
        config.ip = text.clone();
    }
    if let Some(text) = device_id {
        config.device_id = text.clone();
    }
    if let Some(text) = access_code {
        config.access_code = text.clone();
    }
    Ok(config)
}

/// Whether `profile` is the new profile of a printer that is added by its
/// name, address, device identifier and access code.
pub open spec fn is_new_profile(
    profile: PrinterConfig,
    name: Seq<char>,
    ip: Seq<char>,
    device_id: Seq<char>,
    access_code: Seq<char>,
) -> bool {
    &&& profile.name@ == name
    &&& profile.ip@ == ip
    &&& profile.device_id@ == device_id
    &&& profile.access_code@ == access_code
    &&& profile.port == DEFAULT_PORT
    &&& profile.use_tls
    &&& profile.model is None
    &&& profile.firmware_version is None
}

/// Whether `after` is the store `before` with a new printer added under
/// `name`, and made the default where that is asked or none was set.
pub open spec fn is_added(
    before: AppConfig,
    after: AppConfig,
    name: Seq<char>,
    ip: Seq<char>,
    device_id: Seq<char>,
    access_code: Seq<char>,
    set_default: bool,
) -> bool {
    &&& !before.printers@.contains_key(name)
    &&& after.printers@.dom() == before.printers@.dom().insert(name)
    &&& is_new_profile(after.printers@[name], name, ip, device_id, access_code)
    &&& forall|other: Seq<char>|
        other != name && before.printers@.contains_key(other) ==> #[trigger] after.printers@[other]
            == before.printers@[other]
    &&& text_of(after.default_printer) == if set_default || before.default_printer is None {
        Some(name)
    } else {
        text_of(before.default_printer)
    }
    &&& after.mqtt_settings == before.mqtt_settings
}

/// Adds a printer to the store, and makes it the default where that is
/// asked. The inputs are checked first; then the name must be free.
pub fn handle_add_printer(
    app_config: &mut AppConfig,
    name: &str,
    ip: &str,
    device_id: &str,
    access_code: &str,
    set_default: bool,
) -> (result: Result<(), InputError>)
    ensures
        match result {
            Ok(_) => inputs_valid(Some(ip@), Some(device_id@), Some(access_code@)) && is_added(
                *old(app_config),
                *final(app_config),
                name@,
                ip@,
                device_id@,
                access_code@,
                set_default,
            ),
            Err(error) => *final(app_config) == *old(app_config) && (if inputs_valid(
                Some(ip@),
                Some(device_id@),
                Some(access_code@),
            ) {
                old(app_config).printers@.contains_key(name@) && (
                error matches InputError::Config(ConfigError::PrinterExists(m)) && m@
                    == crate::config::exists_text(name@))
            } else {
                is_input_fault(error, Some(ip@), Some(device_id@), Some(access_code@))
            }),
        },
{
    if let Err(error) = validate_inputs(Some(ip), Some(device_id), Some(access_code)) {
        return Err(error);
    }
    let printer = PrinterConfig::new(
        String::from_str(name),
        String::from_str(ip),
        String::from_str(device_id),
        String::from_str(access_code),
    );
    if let Err(error) = app_config.add_printer(String::from_str(name), printer) {
        return Err(InputError::Config(error));
    }
    if set_default {
        if let Err(error) = app_config.set_default_printer(name) {
            return Err(InputError::Config(error));
        }
    }
    Ok(())
}

} // verus!
