use domo_wot_bridge::actions::{
    change_mode_text, control_radiator_valve_text, empty_text, set_dimmer_text, set_led_dimmer_text,
    set_output_text, set_rgbw_text, set_shutter_text,
};
use domo_wot_bridge::base64code::{base64_to_bytes, text_to_base64};
use domo_wot_bridge::hexcode::{bytes_to_hex, hex_to_bytes};
use domo_wot_bridge::messages::BleBeaconMessage;
use domo_wot_bridge::text::{
    chars_of, decimal_string, join2, mac_with_colons, parse_signed, str_contains, str_eq, str_split,
    str_without,
};

#[test]
fn strings_are_equal_by_their_characters() {
    assert!(str_eq("", ""));
    assert!(str_eq("shelly_1", "shelly_1"));
    assert!(!str_eq("shelly_1", "shelly_1pm"));
    assert!(!str_eq("shelly_1", "shelly_2"));
    assert!(str_eq("caf\u{e9}", "caf\u{e9}"));
    assert!(!str_eq("caf\u{e9}", "cafe"));
}

#[test]
fn characters_of_a_string() {
    assert_eq!(chars_of("a\u{e9}b"), vec!['a', '\u{e9}', 'b']);
    assert_eq!(chars_of(""), Vec::<char>::new());
}

#[test]
fn contains_finds_a_pattern_anywhere() {
    assert!(str_contains("shelly_25-AABBCCDDEEFF.local", "shelly"));
    assert!(str_contains("shelly_25-AABBCCDDEEFF.local", ".local"));
    assert!(str_contains("shelly_25-AABBCCDDEEFF.local", "shelly_25-AABBCCDDEEFF.local"));
    assert!(!str_contains("shelly_25-AABBCCDDEEFF.local", "shelly_1plus"));
    assert!(str_contains("abc", ""));
    assert!(str_contains("", ""));
    assert!(!str_contains("", "a"));
    assert!(!str_contains("ab", "abc"));
}

#[test]
fn split_gives_the_pieces_between_separators() {
    assert_eq!(str_split("a b c", ' '), vec!["a", "b", "c"]);
    assert_eq!(str_split("abc", ' '), vec!["abc"]);
    assert_eq!(str_split("", ' '), vec![""]);
    assert_eq!(str_split(" a  b ", ' '), vec!["", "a", "", "b", ""]);
    assert_eq!(str_split("shelly_25-AABBCCDDEEFF", '-'), vec!["shelly_25", "AABBCCDDEEFF"]);
}

#[test]
fn without_takes_every_occurrence_out() {
    assert_eq!(str_without("e4:aa:ec:53:9e:2b", ":"), "e4aaec539e2b");
    assert_eq!(str_without("shelly_25-AABBCCDDEEFF.local", ".local"), "shelly_25-AABBCCDDEEFF");
    assert_eq!(str_without("aaa", "aa"), "a");
    assert_eq!(str_without("abc", ""), "abc");
    assert_eq!(str_without("abcabc", "abc"), "");
    assert_eq!(str_without("ab", "abc"), "ab");
}

#[test]
fn colon_form_of_an_address() {
    assert_eq!(mac_with_colons("AABBCCDDEEFF").unwrap(), "AA:BB:CC:DD:EE:FF");
    assert_eq!(mac_with_colons("e4aaec539e2b").unwrap(), "e4:aa:ec:53:9e:2b");
    assert_eq!(mac_with_colons("e4aaec539e2b.local").unwrap(), "e4:aa:ec:53:9e:2b");
    assert!(mac_with_colons("e4aaec539e2").is_none());
    assert!(mac_with_colons("").is_none());
}

#[test]
fn signed_numbers_are_read_as_the_standard_library_reads_them() {
    for text in [
        "0", "-0", "+7", "-53", "42", "007", "9223372036854775807", "-9223372036854775808",
        "9223372036854775808", "-9223372036854775809", "99999999999999999999999", "", "-", "+", "1a", " 1",
        "1 ", "--1", "1.5", "\u{663}",
    ] {
        assert_eq!(parse_signed(text), text.parse::<i64>().ok(), "{}", text);
    }
}

#[test]
fn decimal_text_of_a_number() {
    assert_eq!(decimal_string(0), "0");
    assert_eq!(decimal_string(7), "7");
    assert_eq!(decimal_string(42), "42");
    assert_eq!(decimal_string(100), "100");
    assert_eq!(decimal_string(u64::MAX), "18446744073709551615");
}

#[test]
fn join_two_strings() {
    assert_eq!(join2("output", "7"), "output7");
    assert_eq!(join2("", ""), "");
}

#[test]
fn hexadecimal_text_to_bytes() {
    assert_eq!(hex_to_bytes("0102030f10").unwrap(), vec![1, 2, 3, 15, 16]);
    assert_eq!(hex_to_bytes("f9B4Ca").unwrap(), vec![0xf9, 0xb4, 0xca]);
    assert_eq!(hex_to_bytes("").unwrap(), Vec::<u8>::new());
    assert!(hex_to_bytes("123").is_none());
    assert!(hex_to_bytes("zz").is_none());
    assert!(hex_to_bytes("\u{e9}").is_none());
}

#[test]
fn bytes_to_hexadecimal_text() {
    assert_eq!(bytes_to_hex(&vec![1, 2, 3, 15, 16]), "0102030f10");
    assert_eq!(bytes_to_hex(&vec![0xf9, 0xb4, 0xca]), "f9b4ca");
    assert_eq!(bytes_to_hex(&vec![]), "");
    let all: Vec<u8> = (0..=255).collect();
    assert_eq!(hex_to_bytes(&bytes_to_hex(&all)).unwrap(), all);
}

#[test]
fn base64_text_to_bytes() {
    assert_eq!(base64_to_bytes("aGVsbG8=").unwrap(), b"hello".to_vec());
    assert_eq!(base64_to_bytes("AgEGGQ==").unwrap(), vec![0x02, 0x01, 0x06, 0x19]);
    assert_eq!(base64_to_bytes("").unwrap(), Vec::<u8>::new());
    assert!(base64_to_bytes("aGVsbG8").is_none());
    assert!(base64_to_bytes("!!!!").is_none());
}

#[test]
fn text_to_base64_text() {
    assert_eq!(text_to_base64("user:password"), "dXNlcjpwYXNzd29yZA==");
    assert_eq!(text_to_base64(""), "");
}

#[test]
fn payload_texts_are_compact_json() {
    assert_eq!(set_output_text(2, true), "{\"output_number\":2,\"value\":true}");
    assert_eq!(set_output_text(0, false), "{\"output_number\":0,\"value\":false}");
    assert_eq!(set_shutter_text(1), "{\"shutter_command\":1}");
    assert_eq!(set_dimmer_text(55), "{\"dim_value\":55}");
    assert_eq!(set_led_dimmer_text("g", 10), "{\"led_dimmer_status\":{\"channel\":\"g\",\"value\":10}}");
    assert_eq!(
        set_rgbw_text(1, 2, 3, 4),
        "{\"rgbw_status\":{\"b\":3,\"g\":2,\"r\":1,\"w\":4}}"
    );
    assert_eq!(
        control_radiator_valve_text("aa:bb", true),
        "{\"mac_address\":\"aa:bb\",\"value\":true}"
    );
    assert_eq!(change_mode_text(1, false), "{\"inverted\":false,\"mode\":1}");
    assert_eq!(empty_text(), "{}");
}

#[test]
fn payload_text_escapes_what_json_escapes() {
    assert_eq!(
        control_radiator_valve_text("a\"b\\c", false),
        "{\"mac_address\":\"a\\\"b\\\\c\",\"value\":false}"
    );
}

#[test]
fn beacon_from_a_forwarded_line() {
    let b = BleBeaconMessage::from("e4aaec539e2b AgEGGQ== -53", "AABBCCDDEEFF").unwrap();
    assert_eq!(b.actuator, "AA:BB:CC:DD:EE:FF");
    assert_eq!(b.mac_address, "e4aaec539e2b");
    assert_eq!(b.payload, "AgEGGQ==");
    assert_eq!(b.rssi, -53);
}

#[test]
fn beacon_from_a_line_with_missing_or_unreadable_parts() {
    let b = BleBeaconMessage::from("e4aaec539e2b 1", "AABBCCDDEEFF").unwrap();
    assert_eq!(b.payload, "1");
    assert_eq!(b.rssi, 0);
    let b = BleBeaconMessage::from("e4aaec539e2b 1 strong", "AABBCCDDEEFF").unwrap();
    assert_eq!(b.rssi, 0);
    let b = BleBeaconMessage::from("", "AABBCCDDEEFF").unwrap();
    assert_eq!(b.mac_address, "");
    assert_eq!(b.payload, "");
    assert_eq!(b.rssi, 0);
    let b = BleBeaconMessage::from("a b -7 more", "AABBCCDDEEFF").unwrap();
    assert_eq!(b.rssi, -7);
}

#[test]
fn beacon_needs_the_address_of_its_actuator() {
    assert!(BleBeaconMessage::from("e4aaec539e2b 1 -53", "AABBCC").is_none());
}
