use pulseprint::config::AppConfig;
use pulseprint::config::ConfigError;
use pulseprint::config::MqttSettings;
use pulseprint::config::PrinterConfig;

fn sample(name: &str, ip: &str, device_id: &str, access_code: &str) -> PrinterConfig {
    PrinterConfig::new(
        name.to_string(),
        ip.to_string(),
        device_id.to_string(),
        access_code.to_string(),
    )
}

#[test]
fn config_test_printer_config_creation() {
    let config = PrinterConfig::new(
        "test_printer".to_string(),
        "192.168.1.100".to_string(),
        "device123".to_string(),
        "access123".to_string(),
    );

    assert_eq!(config.name, "test_printer");
    assert_eq!(config.ip, "192.168.1.100");
    assert_eq!(config.device_id, "device123");
    assert_eq!(config.access_code, "access123");
    assert_eq!(config.port, 8883);
    assert_eq!(config.use_tls, true);
    assert_eq!(config.model, None);
    assert_eq!(config.firmware_version, None);
}

#[test]
fn tests_test_printer_config_creation() {
    let config = PrinterConfig::new(
        "test_printer".to_string(),
        "192.168.1.100".to_string(),
        "device123".to_string(),
        "access123".to_string(),
    );

    assert_eq!(config.name, "test_printer");
    assert_eq!(config.ip, "192.168.1.100");
    assert_eq!(config.device_id, "device123");
    assert_eq!(config.access_code, "access123");
    assert_eq!(config.port, 8883);
    assert_eq!(config.use_tls, true);
    assert_eq!(config.model, None);
    assert_eq!(config.firmware_version, None);

    let config = PrinterConfig::new(
        "test_printer".to_string(),
        "192.168.1.100".to_string(),
        "01S00A000000000".to_string(),
        "12345678".to_string(),
    );

    assert_eq!(config.ip, "192.168.1.100");
    assert_eq!(config.device_id, "01S00A000000000");
    assert_eq!(config.access_code, "12345678");
}

#[test]
fn config_test_printer_config_topics() {
    let config = PrinterConfig::new(
        "test".to_string(),
        "192.168.1.100".to_string(),
        "device123".to_string(),
        "access123".to_string(),
    );

    assert_eq!(config.report_topic(), "device/device123/report");
    assert_eq!(config.request_topic(), "device/device123/request");
}

#[test]
fn tests_test_printer_config_topics() {
    let config = PrinterConfig::new(
        "test".to_string(),
        "192.168.1.100".to_string(),
        "device123".to_string(),
        "access123".to_string(),
    );

    assert_eq!(config.report_topic(), "device/device123/report");
    assert_eq!(config.request_topic(), "device/device123/request");
}

#[test]
fn config_test_printer_config_mqtt_url() {
    let mut config = PrinterConfig::new(
        "test".to_string(),
        "192.168.1.100".to_string(),
        "device123".to_string(),
        "access123".to_string(),
    );

    assert_eq!(config.mqtt_url(), "mqtts://192.168.1.100:8883");

    config.use_tls = false;
    assert_eq!(config.mqtt_url(), "mqtt://192.168.1.100:8883");

    config.port = 1883;
    assert_eq!(config.mqtt_url(), "mqtt://192.168.1.100:1883");
}

#[test]
fn tests_test_printer_config_mqtt_url() {
    let mut config = PrinterConfig::new(
        "test".to_string(),
        "192.168.1.100".to_string(),
        "device123".to_string(),
        "access123".to_string(),
    );

    assert_eq!(config.mqtt_url(), "mqtts://192.168.1.100:8883");

    config.use_tls = false;
    assert_eq!(config.mqtt_url(), "mqtt://192.168.1.100:8883");

    config.port = 1883;
    assert_eq!(config.mqtt_url(), "mqtt://192.168.1.100:1883");
}

#[test]
fn config_test_app_config_default() {
    let config = AppConfig::default();
    assert!(config.printers.is_empty());
    assert_eq!(config.default_printer, None);
    assert_eq!(config.mqtt_settings.keep_alive_secs, 30);
    assert_eq!(config.mqtt_settings.retry_attempts, 5);
}

#[test]
fn tests_test_app_config_default() {
    let config = AppConfig::default();
    assert!(config.printers.is_empty());
    assert_eq!(config.default_printer, None);
    assert_eq!(config.mqtt_settings.keep_alive_secs, 30);
    assert_eq!(config.mqtt_settings.retry_attempts, 5);
}

#[test]
fn config_test_app_config_add_remove_printer() {
    let mut app_config = AppConfig::default();
    let printer_config = PrinterConfig::new(
        "test_printer".to_string(),
        "192.168.1.100".to_string(),
        "device123".to_string(),
        "access123".to_string(),
    );

    // Add printer
    assert!(
        app_config
            .add_printer("test_printer".to_string(), printer_config.clone())
            .is_ok()
    );
    assert_eq!(app_config.printers.len(), 1);
    assert_eq!(app_config.default_printer, Some("test_printer".to_string()));

    // Try to add duplicate printer
    assert!(
        app_config
            .add_printer("test_printer".to_string(), printer_config.clone())
            .is_err()
    );

    // Remove printer
    let removed = app_config.remove_printer("test_printer").unwrap();
    assert_eq!(removed.name, "test_printer");
    assert!(app_config.printers.is_empty());
    assert_eq!(app_config.default_printer, None);
}

#[test]
fn tests_test_app_config_add_remove_printer() {
    let mut app_config = AppConfig::default();
    let printer_config = PrinterConfig::new(
        "test_printer".to_string(),
        "192.168.1.100".to_string(),
        "device123".to_string(),
        "access123".to_string(),
    );

    // Add printer
    assert!(
        app_config
            .add_printer("test_printer".to_string(), printer_config.clone())
            .is_ok()
    );
    assert_eq!(app_config.printers.len(), 1);
    assert_eq!(app_config.default_printer, Some("test_printer".to_string()));

    // Try to add duplicate printer
    assert!(
        app_config
            .add_printer("test_printer".to_string(), printer_config.clone())
            .is_err()
    );

    // Remove printer
    let removed = app_config.remove_printer("test_printer").unwrap();
    assert_eq!(removed.name, "test_printer");
    assert!(app_config.printers.is_empty());
    assert_eq!(app_config.default_printer, None);
}

#[test]
fn config_test_get_printer() {
    let mut app_config = AppConfig::default();
    let printer_config = PrinterConfig::new(
        "test_printer".to_string(),
        "192.168.1.100".to_string(),
        "device123".to_string(),
        "access123".to_string(),
    );

    app_config
        .add_printer("test_printer".to_string(), printer_config)
        .unwrap();

    // Get existing printer
    let retrieved = app_config.get_printer("test_printer").unwrap();
    assert_eq!(retrieved.name, "test_printer");
    assert_eq!(retrieved.ip, "192.168.1.100");

    // Try to get non-existent printer
    assert!(app_config.get_printer("nonexistent").is_err());
}

#[test]
fn tests_test_get_printer() {
    let mut app_config = AppConfig::default();
    let printer_config = PrinterConfig::new(
        "test_printer".to_string(),
        "192.168.1.100".to_string(),
        "device123".to_string(),
        "access123".to_string(),
    );

    app_config
        .add_printer("test_printer".to_string(), printer_config)
        .unwrap();

    // Get existing printer
    let retrieved = app_config.get_printer("test_printer").unwrap();
    assert_eq!(retrieved.name, "test_printer");
    assert_eq!(retrieved.ip, "192.168.1.100");

    // Try to get non-existent printer
    assert!(app_config.get_printer("nonexistent").is_err());
}

#[test]
fn config_test_default_printer_operations() {
    let mut app_config = AppConfig::default();
    let printer1 = PrinterConfig::new(
        "printer1".to_string(),
        "192.168.1.100".to_string(),
        "device1".to_string(),
        "access1".to_string(),
    );
    let printer2 = PrinterConfig::new(
        "printer2".to_string(),
        "192.168.1.101".to_string(),
        "device2".to_string(),
        "access2".to_string(),
    );

    // No printers, should fail
    assert!(app_config.get_default_printer().is_err());

    // Add first printer
    app_config
        .add_printer("printer1".to_string(), printer1)
        .unwrap();
    let default = app_config.get_default_printer().unwrap();
    assert_eq!(default.name, "printer1");

    // Add second printer
    app_config
        .add_printer("printer2".to_string(), printer2)
        .unwrap();

    // Set new default
    assert!(app_config.set_default_printer("printer2").is_ok());
    let default = app_config.get_default_printer().unwrap();
    assert_eq!(default.name, "printer2");

    // Try to set non-existent printer as default
    assert!(app_config.set_default_printer("nonexistent").is_err());
}

#[test]
fn tests_test_default_printer_operations() {
    let mut app_config = AppConfig::default();
    let printer1 = PrinterConfig::new(
        "printer1".to_string(),
        "192.168.1.100".to_string(),
        "device1".to_string(),
        "access1".to_string(),
    );
    let printer2 = PrinterConfig::new(
        "printer2".to_string(),
        "192.168.1.101".to_string(),
        "device2".to_string(),
        "access2".to_string(),
    );

    // No printers, should fail
    assert!(app_config.get_default_printer().is_err());

    // Add first printer
    app_config
        .add_printer("printer1".to_string(), printer1)
        .unwrap();
    let default = app_config.get_default_printer().unwrap();
    assert_eq!(default.name, "printer1");

    // Add second printer
    app_config
        .add_printer("printer2".to_string(), printer2)
        .unwrap();

    // Set new default
    assert!(app_config.set_default_printer("printer2").is_ok());
    let default = app_config.get_default_printer().unwrap();
    assert_eq!(default.name, "printer2");

    // Try to set non-existent printer as default
    assert!(app_config.set_default_printer("nonexistent").is_err());
}

#[test]
fn config_test_list_printers() {
    let mut app_config = AppConfig::default();

    // Empty list
    let printers = app_config.list_printers();
    assert!(printers.is_empty());

    // Add printers
    let printer1 = PrinterConfig::new(
        "printer1".to_string(),
        "192.168.1.100".to_string(),
        "device1".to_string(),
        "access1".to_string(),
    );
    let printer2 = PrinterConfig::new(
        "printer2".to_string(),
        "192.168.1.101".to_string(),
        "device2".to_string(),
        "access2".to_string(),
    );

    app_config
        .add_printer("printer1".to_string(), printer1)
        .unwrap();
    app_config
        .add_printer("printer2".to_string(), printer2)
        .unwrap();

    let printers = app_config.list_printers();
    assert_eq!(printers.len(), 2);

    let names: Vec<&String> = printers.iter().map(|(name, _)| *name).collect();
    assert!(names.contains(&&"printer1".to_string()));
    assert!(names.contains(&&"printer2".to_string()));
}

#[test]
fn tests_test_list_printers() {
    let mut app_config = AppConfig::default();

    // Empty list
    let printers = app_config.list_printers();
    assert!(printers.is_empty());

    // Add printers
    let printer1 = PrinterConfig::new(
        "printer1".to_string(),
        "192.168.1.100".to_string(),
        "device1".to_string(),
        "access1".to_string(),
    );
    let printer2 = PrinterConfig::new(
        "printer2".to_string(),
        "192.168.1.101".to_string(),
        "device2".to_string(),
        "access2".to_string(),
    );

    app_config
        .add_printer("printer1".to_string(), printer1)
        .unwrap();
    app_config
        .add_printer("printer2".to_string(), printer2)
        .unwrap();

    let printers = app_config.list_printers();
    assert_eq!(printers.len(), 2);

    let names: Vec<&String> = printers.iter().map(|(name, _)| *name).collect();
    assert!(names.contains(&&"printer1".to_string()));
    assert!(names.contains(&&"printer2".to_string()));
}

#[test]
fn config_test_error_conditions() {
    let mut app_config = AppConfig::default();
    let printer_config = PrinterConfig::new(
        "test_printer".to_string(),
        "192.168.1.100".to_string(),
        "device123".to_string(),
        "access123".to_string(),
    );

    // Test PrinterExists error
    app_config
        .add_printer("test_printer".to_string(), printer_config.clone())
        .unwrap();
    let err = app_config
        .add_printer("test_printer".to_string(), printer_config)
        .unwrap_err();
    assert!(matches!(err, ConfigError::PrinterExists(_)));

    // Test PrinterNotFound error
    let err = app_config.remove_printer("nonexistent").unwrap_err();
    assert!(matches!(err, ConfigError::PrinterNotFound(_)));

    let err = app_config.get_printer("nonexistent").unwrap_err();
    assert!(matches!(err, ConfigError::PrinterNotFound(_)));

    let err = app_config.set_default_printer("nonexistent").unwrap_err();
    assert!(matches!(err, ConfigError::PrinterNotFound(_)));

    // Remove all printers and test NoDefaultPrinter
    app_config.remove_printer("test_printer").unwrap();
    let err = app_config.get_default_printer().unwrap_err();
    assert!(matches!(err, ConfigError::NoDefaultPrinter(_)));
}

#[test]
fn tests_test_error_conditions() {
    let mut app_config = AppConfig::default();
    let printer_config = PrinterConfig::new(
        "test_printer".to_string(),
        "192.168.1.100".to_string(),
        "device123".to_string(),
        "access123".to_string(),
    );

    // Test PrinterExists error
    app_config
        .add_printer("test_printer".to_string(), printer_config.clone())
        .unwrap();
    let err = app_config
        .add_printer("test_printer".to_string(), printer_config)
        .unwrap_err();
    assert!(matches!(err, ConfigError::PrinterExists(_)));

    // Test PrinterNotFound error
    let err = app_config.remove_printer("nonexistent").unwrap_err();
    assert!(matches!(err, ConfigError::PrinterNotFound(_)));

    let err = app_config.get_printer("nonexistent").unwrap_err();
    assert!(matches!(err, ConfigError::PrinterNotFound(_)));

    let err = app_config.set_default_printer("nonexistent").unwrap_err();
    assert!(matches!(err, ConfigError::PrinterNotFound(_)));

    // Remove all printers and test NoDefaultPrinter
    app_config.remove_printer("test_printer").unwrap();
    let err = app_config.get_default_printer().unwrap_err();
    assert!(matches!(err, ConfigError::NoDefaultPrinter(_)));
}

#[test]
fn test_printer_config_clone() {
    let config = PrinterConfig::new(
        "test_printer".to_string(),
        "192.168.1.100".to_string(),
        "01S00A000000000".to_string(),
        "12345678".to_string(),
    );

    let cloned_config = config.clone();
    assert_eq!(config.ip, cloned_config.ip);
    assert_eq!(config.device_id, cloned_config.device_id);
    assert_eq!(config.access_code, cloned_config.access_code);
}

#[test]
fn test_report_topic_format() {
    let device_id = "01S00A000000000";
    let expected_topic = format!("device/{}/report", device_id);
    assert_eq!(expected_topic, "device/01S00A000000000/report");
    let config = PrinterConfig::new(
        "test".to_string(),
        "192.168.1.100".to_string(),
        device_id.to_string(),
        "12345678".to_string(),
    );
    assert_eq!(config.report_topic(), expected_topic);
}

#[test]
fn test_printer_config_debug_format() {
    let config = PrinterConfig::new(
        "test_printer".to_string(),
        "192.168.1.100".to_string(),
        "test_device".to_string(),
        "secret".to_string(),
    );

    let debug_output = format!("{:?}", config);
    assert!(debug_output.contains("192.168.1.100"));
    assert!(debug_output.contains("test_device"));
    assert!(debug_output.contains("secret"));
}

#[test]
fn test_empty_config_values() {
    let config = PrinterConfig::new(
        "empty_printer".to_string(),
        "".to_string(),
        "".to_string(),
        "".to_string(),
    );

    assert_eq!(config.ip, "");
    assert_eq!(config.device_id, "");
    assert_eq!(config.access_code, "");
}

#[test]
fn test_config_with_special_characters() {
    let config = PrinterConfig::new(
        "special_printer".to_string(),
        "192.168.1.100".to_string(),
        "device-with_special.chars".to_string(),
        "access@code#123".to_string(),
    );

    assert_eq!(config.device_id, "device-with_special.chars");
    assert_eq!(config.access_code, "access@code#123");
}

#[test]
fn default_settings_are_the_documented_ones() {
    let settings = MqttSettings::default();
    assert_eq!(settings.keep_alive_secs, 30);
    assert_eq!(settings.connection_timeout_secs, 10);
    assert_eq!(settings.retry_attempts, 5);
    assert_eq!(settings.retry_delay_secs, 5);
    assert_eq!(settings.queue_size, 10);
}

#[test]
fn mqtt_url_writes_every_port_in_decimal() {
    let mut config = sample("p", "10.0.0.1", "device1", "12345678");
    config.port = 0;
    assert_eq!(config.mqtt_url(), "mqtts://10.0.0.1:0");
    config.port = 7;
    assert_eq!(config.mqtt_url(), "mqtts://10.0.0.1:7");
    config.port = 10;
    assert_eq!(config.mqtt_url(), "mqtts://10.0.0.1:10");
    config.port = 65535;
    assert_eq!(config.mqtt_url(), "mqtts://10.0.0.1:65535");
    config.port = 1001;
    assert_eq!(config.mqtt_url(), "mqtts://10.0.0.1:1001");
}

#[test]
fn removing_the_default_promotes_the_first_that_is_left() {
    let mut app_config = AppConfig::default();
    for name in ["a", "b", "c"] {
        app_config
            .add_printer(name.to_string(), sample(name, "1.2.3.4", "device1", "12345678"))
            .unwrap();
    }
    assert_eq!(app_config.default_printer, Some("a".to_string()));
    app_config.remove_printer("b").unwrap();
    assert_eq!(app_config.default_printer, Some("a".to_string()));
    app_config.remove_printer("a").unwrap();
    assert_eq!(app_config.default_printer, Some("c".to_string()));
    assert_eq!(app_config.printers.len(), 1);
    assert!(app_config.printers.contains_key("c"));
    assert!(!app_config.printers.contains_key("a"));
}

#[test]
fn a_refused_add_changes_nothing() {
    let mut app_config = AppConfig::default();
    app_config
        .add_printer("a".to_string(), sample("a", "1.2.3.4", "device1", "12345678"))
        .unwrap();
    let err = app_config
        .add_printer("a".to_string(), sample("other", "5.6.7.8", "device2", "87654321"))
        .unwrap_err();
    match err {
        ConfigError::PrinterExists(message) => assert_eq!(message, "Printer 'a' already exists"),
        other => panic!("unexpected error {:?}", other),
    }
    assert_eq!(app_config.printers.len(), 1);
    assert_eq!(app_config.get_printer("a").unwrap().ip, "1.2.3.4");
}

#[test]
fn error_messages_name_the_printer() {
    let mut app_config = AppConfig::default();
    match app_config.get_printer("ghost").unwrap_err() {
        ConfigError::PrinterNotFound(message) => assert_eq!(message, "Printer 'ghost' not found"),
        other => panic!("unexpected error {:?}", other),
    }
    match app_config.get_default_printer().unwrap_err() {
        ConfigError::NoDefaultPrinter(message) => {
            assert_eq!(message, "No default printer configured")
        }
        other => panic!("unexpected error {:?}", other),
    }
    let err = app_config.set_default_printer("ghost").unwrap_err();
    assert_eq!(err.message(), "Printer not found: Printer 'ghost' not found");
    assert_eq!(
        ConfigError::IoError("disk".to_string()).message(),
        "IO error: disk"
    );
    assert_eq!(
        ConfigError::ParseError("bad".to_string()).message(),
        "Parse error: bad"
    );
    assert_eq!(
        ConfigError::SerializeError("bad".to_string()).message(),
        "Serialize error: bad"
    );
    assert_eq!(
        ConfigError::PrinterExists("x".to_string()).message(),
        "Printer already exists: x"
    );
    assert_eq!(
        ConfigError::NoDefaultPrinter("x".to_string()).message(),
        "No default printer: x"
    );
}

#[test]
fn a_default_that_is_not_stored_is_not_found() {
    let mut app_config = AppConfig::default();
    app_config.default_printer = Some("ghost".to_string());
    let err = app_config.get_default_printer().unwrap_err();
    assert!(matches!(err, ConfigError::PrinterNotFound(_)));
}

#[test]
fn list_keeps_the_order_of_storing() {
    let mut app_config = AppConfig::default();
    for name in ["zeta", "alpha", "mid"] {
        app_config
            .add_printer(name.to_string(), sample(name, "1.2.3.4", "device1", "12345678"))
            .unwrap();
    }
    let names: Vec<String> = app_config
        .list_printers()
        .iter()
        .map(|(name, _)| (*name).clone())
        .collect();
    assert_eq!(names, vec!["zeta", "alpha", "mid"]);
    for (name, printer) in app_config.list_printers() {
        assert_eq!(*name, printer.name);
    }
}

#[test]
fn the_sorted_listing_ascends_by_name_and_marks_the_default() {
    let mut app_config = AppConfig::default();
    assert!(app_config.sorted_listing().is_empty());
    for name in ["zeta", "alpha", "mid", "Zeta", "al", "alphabet", "\u{e9}cole", "10", "9"] {
        app_config
            .add_printer(name.to_string(), sample(name, "1.2.3.4", "device1", "12345678"))
            .unwrap();
    }
    app_config.set_default_printer("mid").unwrap();
    let listing = app_config.sorted_listing();
    let names: Vec<&str> = listing.iter().map(|(name, _, _)| name.as_str()).collect();
    assert_eq!(
        names,
        vec!["10", "9", "Zeta", "al", "alpha", "alphabet", "mid", "zeta", "\u{e9}cole"]
    );
    let mut sorted = names.clone();
    sorted.sort();
    assert_eq!(names, sorted);
    for (name, printer, is_default) in listing {
        assert_eq!(*name, printer.name);
        assert_eq!(is_default, name == "mid");
    }
    app_config.default_printer = None;
    assert!(app_config.sorted_listing().iter().all(|(_, _, is_default)| !is_default));
}

#[test]
fn a_copy_of_the_store_holds_the_same() {
    let mut app_config = AppConfig::default();
    for name in ["b", "a"] {
        app_config
            .add_printer(name.to_string(), sample(name, "1.2.3.4", "device1", "12345678"))
            .unwrap();
    }
    app_config.mqtt_settings.queue_size = 3;
    let mut copy = app_config.clone();
    assert_eq!(copy.default_printer, Some("b".to_string()));
    assert_eq!(copy.mqtt_settings.queue_size, 3);
    let names: Vec<String> = copy.list_printers().iter().map(|(name, _)| (*name).clone()).collect();
    assert_eq!(names, vec!["b", "a"]);
    assert_eq!(copy.get_printer("a").unwrap().ip, "1.2.3.4");
    copy.remove_printer("a").unwrap();
    assert_eq!(app_config.printers.len(), 2);
    assert_eq!(copy.printers.len(), 1);
}
