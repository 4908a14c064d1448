use pulseprint::cli::handle_add_printer;
use pulseprint::cli::is_complete_override;
use pulseprint::cli::load_printer_config;
use pulseprint::cli::validate_access_code;
use pulseprint::cli::validate_device_id;
use pulseprint::cli::validate_inputs;
use pulseprint::cli::validate_ip_address;
use pulseprint::cli::InputError;
use pulseprint::config::AppConfig;
use pulseprint::config::ConfigError;
use pulseprint::config::PrinterConfig;

fn some(text: &str) -> Option<String> {
    Some(text.to_string())
}

fn is_dotted_quad(text: &str) -> bool {
    let parts: Vec<&str> = text.split('.').collect();
    parts.len() == 4
        && parts.iter().all(|part| {
            !part.is_empty()
                && part.len() <= 3
                && part.bytes().all(|b| b.is_ascii_digit())
                && (part.len() == 1 || !part.starts_with('0'))
                && part.parse::<u32>().unwrap() <= 255
        })
}

fn stored() -> AppConfig {
    let mut app_config = AppConfig::default();
    let mut first = PrinterConfig::new(
        "first".to_string(),
        "192.168.1.10".to_string(),
        "01S00A000000001".to_string(),
        "11111111".to_string(),
    );
    first.port = 1883;
    first.use_tls = false;
    first.model = Some("X1".to_string());
    app_config.add_printer("first".to_string(), first).unwrap();
    app_config
        .add_printer(
            "second".to_string(),
            PrinterConfig::new(
                "second".to_string(),
                "192.168.1.20".to_string(),
                "01S00A000000002".to_string(),
                "22222222".to_string(),
            ),
        )
        .unwrap();
    app_config
}

#[test]
fn addresses_in_dotted_decimal_pass() {
    for ip in [
        "192.168.1.100",
        "0.0.0.0",
        "255.255.255.255",
        "1.2.3.4",
        "10.0.0.1",
        "127.0.0.1",
        "9.99.199.249",
        "250.251.252.253",
        "100.200.0.10",
    ] {
        assert!(validate_ip_address(ip).is_ok(), "{}", ip);
        assert!(is_dotted_quad(ip), "{}", ip);
    }
}

#[test]
fn anything_else_is_no_address() {
    for ip in [
        "",
        "999.999.999.999",
        "256.1.1.1",
        "1.256.1.1",
        "1.1.1.256",
        "1.1.1.300",
        "1.2.3",
        "1.2.3.4.5",
        "1.2.3.",
        ".1.2.3",
        "1..2.3",
        "1.2.3.4.",
        "01.2.3.4",
        "1.02.3.4",
        "1.2.3.04",
        "00.0.0.0",
        "1.2.3.0004",
        "1234.1.1.1",
        "1.2.3.4 ",
        " 1.2.3.4",
        "1.2.3.-4",
        "+1.2.3.4",
        "a.b.c.d",
        "1.2.3.4a",
        "1,2,3,4",
        "1.2.3.\u{663}",
        "localhost",
        "::1",
        "0x1.2.3.4",
        "1.2.3.4\n",
        "...",
        "1",
    ] {
        match validate_ip_address(ip) {
            Err(InputError::InvalidIp(text)) => assert_eq!(text, ip),
            other => panic!("{:?} passed or failed otherwise: {:?}", ip, other),
        }
        assert!(!is_dotted_quad(ip), "{}", ip);
    }
}

#[test]
fn the_check_agrees_with_splitting_at_the_dots_on_many_texts() {
    let pieces = ["", "0", "1", "9", "00", "01", "10", "99", "100", "255", "256", "999", "1000", "a", "-1", " "];
    let mut seed: u64 = 0x9e37_79b9_7f4a_7c15;
    for _ in 0..4000 {
        let mut text = String::new();
        seed = seed.wrapping_mul(6364136223846793005).wrapping_add(1442695040888963407);
        let count = 3 + (seed >> 60) % 3;
        for part in 0..count {
            seed = seed.wrapping_mul(6364136223846793005).wrapping_add(1442695040888963407);
            if part > 0 {
                text.push('.');
            }
            text.push_str(pieces[((seed >> 33) % pieces.len() as u64) as usize]);
        }
        assert_eq!(
            validate_ip_address(&text).is_ok(),
            is_dotted_quad(&text),
            "{}",
            text
        );
    }
}

#[test]
fn a_device_identifier_needs_five_bytes() {
    assert!(matches!(validate_device_id(""), Err(InputError::DeviceIdEmpty)));
    assert!(matches!(validate_device_id("1"), Err(InputError::DeviceIdTooShort)));
    assert!(matches!(validate_device_id("1234"), Err(InputError::DeviceIdTooShort)));
    assert!(validate_device_id("12345").is_ok());
    assert!(validate_device_id("01S00A000000000").is_ok());
    assert!(validate_device_id("\u{e9}\u{e9}\u{e9}").is_ok());
    assert!(matches!(validate_device_id("\u{e9}\u{e9}"), Err(InputError::DeviceIdTooShort)));
}

#[test]
fn an_access_code_is_eight_digits() {
    assert!(matches!(validate_access_code(""), Err(InputError::AccessCodeEmpty)));
    assert!(matches!(validate_access_code("123"), Err(InputError::AccessCodeLength)));
    assert!(matches!(validate_access_code("1234567"), Err(InputError::AccessCodeLength)));
    assert!(matches!(validate_access_code("123456789"), Err(InputError::AccessCodeLength)));
    assert!(matches!(validate_access_code("abcdefghi"), Err(InputError::AccessCodeLength)));
    assert!(matches!(validate_access_code("1234567a"), Err(InputError::AccessCodeNotDigits)));
    assert!(matches!(validate_access_code("a2345678"), Err(InputError::AccessCodeNotDigits)));
    assert!(matches!(validate_access_code("1234 678"), Err(InputError::AccessCodeNotDigits)));
    assert!(matches!(validate_access_code("123456/8"), Err(InputError::AccessCodeNotDigits)));
    assert!(matches!(validate_access_code("123456:8"), Err(InputError::AccessCodeNotDigits)));
    assert!(matches!(validate_access_code("\u{e9}123456"), Err(InputError::AccessCodeNotDigits)));
    assert!(matches!(validate_access_code("\u{e9}1234567"), Err(InputError::AccessCodeLength)));
    assert!(validate_access_code("12345678").is_ok());
    assert!(validate_access_code("00000000").is_ok());
    assert!(validate_access_code("99999999").is_ok());
}

#[test]
fn the_first_input_that_fails_is_reported() {
    assert!(validate_inputs(None, None, None).is_ok());
    assert!(validate_inputs(Some("1.2.3.4"), Some("12345"), Some("12345678")).is_ok());
    assert!(matches!(
        validate_inputs(Some("1.2.3"), Some(""), Some("")),
        Err(InputError::InvalidIp(_))
    ));
    assert!(matches!(
        validate_inputs(Some("1.2.3.4"), Some(""), Some("")),
        Err(InputError::DeviceIdEmpty)
    ));
    assert!(matches!(
        validate_inputs(None, Some("123"), Some("1")),
        Err(InputError::DeviceIdTooShort)
    ));
    assert!(matches!(
        validate_inputs(None, None, Some("1")),
        Err(InputError::AccessCodeLength)
    ));
    assert!(matches!(
        validate_inputs(Some("1.2.3.4"), Some("12345"), Some("1234567x")),
        Err(InputError::AccessCodeNotDigits)
    ));
}

#[test]
fn error_lines_are_the_documented_ones() {
    assert_eq!(
        validate_ip_address("999.999.999.999").unwrap_err().message(),
        "Invalid IP address: 999.999.999.999"
    );
    assert_eq!(InputError::DeviceIdEmpty.message(), "Device ID cannot be empty");
    assert_eq!(
        InputError::DeviceIdTooShort.message(),
        "Device ID seems too short (should be like '01S00A000000000')"
    );
    assert_eq!(InputError::AccessCodeEmpty.message(), "Access code cannot be empty");
    assert_eq!(
        validate_access_code("123").unwrap_err().message(),
        "Access code should be exactly 8 characters"
    );
    assert_eq!(
        InputError::AccessCodeNotDigits.message(),
        "Access code should contain only digits"
    );
    assert_eq!(
        InputError::NoPrinters.message(),
        "No printers configured. Use 'add' command to add a printer."
    );
    assert_eq!(
        InputError::Config(ConfigError::PrinterNotFound("Printer 'x' not found".to_string()))
            .message(),
        "Printer not found: Printer 'x' not found"
    );
}

#[test]
fn a_complete_override_makes_a_new_profile() {
    assert!(is_complete_override(&some("a"), &some("b"), &some("c")));
    assert!(!is_complete_override(&None, &some("b"), &some("c")));
    assert!(!is_complete_override(&some("a"), &None, &some("c")));
    assert!(!is_complete_override(&some("a"), &some("b"), &None));

    let config = load_printer_config(
        &None,
        &some("192.168.1.100"),
        &some("01S00A000000000"),
        &some("12345678"),
        &AppConfig::default(),
    )
    .unwrap();
    assert_eq!(config.name, "manual");
    assert_eq!(config.ip, "192.168.1.100");
    assert_eq!(config.device_id, "01S00A000000000");
    assert_eq!(config.access_code, "12345678");
    assert_eq!(config.port, 8883);
    assert!(config.use_tls);
    assert_eq!(config.model, None);

    let config = load_printer_config(
        &some("first"),
        &some("10.0.0.1"),
        &some("device9"),
        &some("87654321"),
        &stored(),
    )
    .unwrap();
    assert_eq!(config.name, "first");
    assert_eq!(config.ip, "10.0.0.1");
    assert_eq!(config.port, 8883);
    assert!(config.use_tls);
    assert_eq!(config.model, None);

    assert!(matches!(
        load_printer_config(&None, &some("1.2.3"), &some("x"), &some("y"), &stored()),
        Err(InputError::InvalidIp(_))
    ));
    assert!(matches!(
        load_printer_config(&None, &some("1.2.3.4"), &some("x"), &some("y"), &stored()),
        Err(InputError::DeviceIdTooShort)
    ));
    assert!(matches!(
        load_printer_config(&None, &some("1.2.3.4"), &some("device"), &some("y"), &stored()),
        Err(InputError::AccessCodeLength)
    ));
}

#[test]
fn a_stored_profile_is_taken_with_what_is_given_in_place() {
    let config = load_printer_config(&some("first"), &None, &None, &None, &stored()).unwrap();
    assert_eq!(config.name, "first");
    assert_eq!(config.ip, "192.168.1.10");
    assert_eq!(config.device_id, "01S00A000000001");
    assert_eq!(config.access_code, "11111111");
    assert_eq!(config.port, 1883);
    assert!(!config.use_tls);
    assert_eq!(config.model, Some("X1".to_string()));

    let config = load_printer_config(&None, &None, &None, &None, &stored()).unwrap();
    assert_eq!(config.name, "first");

    let config =
        load_printer_config(&some("second"), &some("10.9.8.7"), &None, &None, &stored()).unwrap();
    assert_eq!(config.name, "second");
    assert_eq!(config.ip, "10.9.8.7");
    assert_eq!(config.device_id, "01S00A000000002");
    assert_eq!(config.access_code, "22222222");

    let config =
        load_printer_config(&None, &None, &some("device7"), &some("00000000"), &stored()).unwrap();
    assert_eq!(config.name, "first");
    assert_eq!(config.ip, "192.168.1.10");
    assert_eq!(config.device_id, "device7");
    assert_eq!(config.access_code, "00000000");
    assert_eq!(config.port, 1883);
}

#[test]
fn a_profile_that_is_not_found_is_reported_before_the_inputs() {
    match load_printer_config(&some("ghost"), &some("bad"), &None, &None, &stored()) {
        Err(InputError::Config(ConfigError::PrinterNotFound(message))) => {
            assert_eq!(message, "Printer 'ghost' not found")
        }
        other => panic!("unexpected {:?}", other),
    }
    assert!(matches!(
        load_printer_config(&None, &some("bad"), &None, &None, &AppConfig::default()),
        Err(InputError::NoPrinters)
    ));
    assert!(matches!(
        load_printer_config(&None, &None, &None, &None, &AppConfig::default()),
        Err(InputError::NoPrinters)
    ));
    let mut no_default = stored();
    no_default.default_printer = None;
    assert!(matches!(
        load_printer_config(&None, &None, &None, &None, &no_default),
        Err(InputError::Config(ConfigError::NoDefaultPrinter(_)))
    ));
    let mut lost_default = stored();
    lost_default.default_printer = some("ghost");
    assert!(matches!(
        load_printer_config(&None, &None, &None, &None, &lost_default),
        Err(InputError::Config(ConfigError::PrinterNotFound(_)))
    ));
    assert!(matches!(
        load_printer_config(&some("first"), &some("bad"), &None, &None, &stored()),
        Err(InputError::InvalidIp(_))
    ));
    assert!(matches!(
        load_printer_config(&some("first"), &None, &None, &some("bad"), &stored()),
        Err(InputError::AccessCodeLength)
    ));
}

#[test]
fn adding_a_printer_checks_stores_and_sets_the_default() {
    let mut app_config = AppConfig::default();
    handle_add_printer(&mut app_config, "one", "192.168.1.1", "device1", "12345678", false)
        .unwrap();
    assert_eq!(app_config.default_printer, some("one"));
    handle_add_printer(&mut app_config, "two", "192.168.1.2", "device2", "12345678", false)
        .unwrap();
    assert_eq!(app_config.default_printer, some("one"));
    handle_add_printer(&mut app_config, "three", "192.168.1.3", "device3", "12345678", true)
        .unwrap();
    assert_eq!(app_config.default_printer, some("three"));
    assert_eq!(app_config.printers.len(), 3);
    let two = app_config.get_printer("two").unwrap();
    assert_eq!(two.name, "two");
    assert_eq!(two.ip, "192.168.1.2");
    assert_eq!(two.device_id, "device2");
    assert_eq!(two.access_code, "12345678");
    assert_eq!(two.port, 8883);
    assert!(two.use_tls);

    assert!(matches!(
        handle_add_printer(&mut app_config, "two", "192.168.1.9", "device9", "12345678", true),
        Err(InputError::Config(ConfigError::PrinterExists(_)))
    ));
    assert_eq!(app_config.default_printer, some("three"));
    assert_eq!(app_config.get_printer("two").unwrap().ip, "192.168.1.2");

    assert!(matches!(
        handle_add_printer(&mut app_config, "four", "999.1.1.1", "device4", "12345678", true),
        Err(InputError::InvalidIp(_))
    ));
    assert!(matches!(
        handle_add_printer(&mut app_config, "four", "1.1.1.1", "dev", "12345678", true),
        Err(InputError::DeviceIdTooShort)
    ));
    assert!(matches!(
        handle_add_printer(&mut app_config, "four", "1.1.1.1", "device4", "123", true),
        Err(InputError::AccessCodeLength)
    ));
    assert_eq!(app_config.printers.len(), 3);
    assert!(!app_config.printers.contains_key("four"));
}
