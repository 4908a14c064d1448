use pulseprint::json::JsonNumber;
use pulseprint::json::JsonValue;
use pulseprint::messages::DeviceMessage;
use pulseprint::report::member;
use pulseprint::report::split_seconds;
use pulseprint::report::DeviceDetails;
use pulseprint::report::Duration;
use pulseprint::text::concat2;
use pulseprint::text::concat3;
use pulseprint::text::push_decimal;
use pulseprint::text::str_before;
use pulseprint::text::str_eq;
use pulseprint::textmap::TextMap;

#[test]
fn seconds_split_into_hours_minutes_seconds() {
    assert_eq!(split_seconds(0), Duration { hours: 0, minutes: 0, seconds: 0 });
    assert_eq!(split_seconds(59), Duration { hours: 0, minutes: 0, seconds: 59 });
    assert_eq!(split_seconds(60), Duration { hours: 0, minutes: 1, seconds: 0 });
    assert_eq!(split_seconds(3599), Duration { hours: 0, minutes: 59, seconds: 59 });
    assert_eq!(split_seconds(3600), Duration { hours: 1, minutes: 0, seconds: 0 });
    assert_eq!(split_seconds(3725), Duration { hours: 1, minutes: 2, seconds: 5 });
    assert_eq!(
        split_seconds(u32::MAX),
        Duration { hours: 1193046, minutes: 28, seconds: 15 }
    );
}

#[test]
fn device_details_are_found_among_the_extra_fields() {
    let message = DeviceMessage::parse(
        r#"{"model":"X1C","sn":"01S00A","ota":{"version":"1.2.3","other":1},
        "wifi":{"ssid":"home"},"temp":{"bed_temp":60.5,"nozzle_temp":215},"more":[1]}"#,
    )
    .unwrap();
    let details = DeviceDetails::from_extra(&message.extra);
    assert_eq!(details.model, Some("X1C"));
    assert_eq!(details.serial_number, Some("01S00A"));
    assert_eq!(details.firmware, Some("1.2.3"));
    assert_eq!(details.wifi, Some("home"));
    assert_eq!(details.bed_temperature, Some(JsonNumber::Float(60.5f64.to_bits())));
    assert_eq!(details.nozzle_temperature, Some(JsonNumber::PosInt(215)));
}

#[test]
fn details_of_another_kind_are_absent() {
    let message = DeviceMessage::parse(
        r#"{"model":7,"sn":null,"ota":"1.2.3","wifi":{"ssid":false,"name":"home"},
        "temp":{"bed_temp":"warm"}}"#,
    )
    .unwrap();
    let details = DeviceDetails::from_extra(&message.extra);
    assert_eq!(details.model, None);
    assert_eq!(details.serial_number, None);
    assert_eq!(details.firmware, None);
    assert_eq!(details.wifi, None);
    assert_eq!(details.bed_temperature, None);
    assert_eq!(details.nozzle_temperature, None);
    let nothing = DeviceMessage::parse("{}").unwrap();
    let empty = DeviceDetails::from_extra(&nothing.extra);
    assert_eq!(empty.model, None);
    assert_eq!(empty.nozzle_temperature, None);
}

#[test]
fn the_later_of_two_members_with_one_name_is_found() {
    let members = vec![
        ("a".to_string(), JsonValue::Bool(false)),
        ("b".to_string(), JsonValue::Null),
        ("a".to_string(), JsonValue::Bool(true)),
    ];
    assert_eq!(member(&members, "a"), Some(&JsonValue::Bool(true)));
    assert_eq!(member(&members, "b"), Some(&JsonValue::Null));
    assert_eq!(member(&members, "c"), None);
    assert_eq!(member(&Vec::new(), "a"), None);
}

#[test]
fn a_text_map_keeps_one_value_for_each_key() {
    let mut map: TextMap<u32> = TextMap::new();
    assert!(map.is_empty());
    assert_eq!(map.len(), 0);
    assert_eq!(map.first_key(), None);
    assert_eq!(map.insert("b".to_string(), 1), None);
    assert_eq!(map.insert("a".to_string(), 2), None);
    assert_eq!(map.insert("b".to_string(), 3), Some(1));
    assert_eq!(map.len(), 2);
    assert!(!map.is_empty());
    assert!(map.contains_key("a"));
    assert!(!map.contains_key("c"));
    assert!(!map.contains_key(""));
    assert_eq!(map.get("b"), Some(&3));
    assert_eq!(map.get("c"), None);
    assert_eq!(map.first_key(), Some(&"b".to_string()));
    let entries: Vec<(String, u32)> = map.entries().iter().map(|(k, v)| ((*k).clone(), **v)).collect();
    assert_eq!(entries, vec![("b".to_string(), 3), ("a".to_string(), 2)]);
    assert_eq!(map.remove("c"), None);
    assert_eq!(map.remove("b"), Some(3));
    assert_eq!(map.remove("b"), None);
    assert_eq!(map.len(), 1);
    assert_eq!(map.first_key(), Some(&"a".to_string()));
    assert_eq!(map.remove("a"), Some(2));
    assert!(map.is_empty());
}

#[test]
fn a_text_map_from_entries_lets_the_later_count() {
    let map = TextMap::from_entries(vec![
        ("x".to_string(), 1),
        ("y".to_string(), 2),
        ("x".to_string(), 3),
    ]);
    assert_eq!(map.len(), 2);
    assert_eq!(map.get("x"), Some(&3));
    assert_eq!(map.get("y"), Some(&2));
    let empty: TextMap<u32> = TextMap::from_entries(Vec::new());
    assert!(empty.is_empty());
}

#[test]
fn texts_compare_and_join() {
    assert!(str_eq("", ""));
    assert!(str_eq("pushall", "pushall"));
    assert!(!str_eq("pushall", "pushal"));
    assert!(!str_eq("pushall", "pushalL"));
    assert!(!str_eq("a", ""));
    assert!(str_eq("\u{e9}", "\u{e9}"));
    assert!(!str_eq("\u{e9}", "e"));
    assert_eq!(concat2("ab", "cd"), "abcd");
    assert_eq!(concat2("", ""), "");
    assert_eq!(concat3("a", "", "c"), "ac");
    let mut text = "port ".to_string();
    push_decimal(&mut text, 0);
    text.push(' ');
    push_decimal(&mut text, 9);
    text.push(' ');
    push_decimal(&mut text, 4096);
    text.push(' ');
    push_decimal(&mut text, 65535);
    assert_eq!(text, "port 0 9 4096 65535");
}

#[test]
fn texts_are_ordered_byte_by_byte() {
    let texts = ["", "0", "10", "9", "A", "a", "ab", "abc", "b", "\u{e9}", "\u{10348}"];
    for a in texts {
        for b in texts {
            assert_eq!(str_before(a, b), a < b, "{:?} {:?}", a, b);
        }
    }
}

#[test]
fn a_copy_of_a_text_map_holds_the_same() {
    let mut map: TextMap<Vec<u8>> = TextMap::new();
    map.insert("b".to_string(), vec![1]);
    map.insert("a".to_string(), vec![2, 3]);
    let mut copy = map.clone();
    assert_eq!(copy.len(), 2);
    assert_eq!(copy.get("a"), Some(&vec![2, 3]));
    assert_eq!(copy.first_key(), Some(&"b".to_string()));
    copy.insert("b".to_string(), vec![]);
    assert_eq!(map.get("b"), Some(&vec![1]));
    let value = JsonValue::Array(vec![JsonValue::Object(vec![("k".to_string(), JsonValue::Null)])]);
    assert_eq!(value.clone(), value);
}
