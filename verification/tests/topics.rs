use domo_wot_bridge::actuator_connection::{ConnectionValue, Topic};
use domo_wot_bridge::bridge::{
    calculate_mode, check_mode, check_radiator_valve_commands, check_shelly_esp32_mode,
    check_shelly_esp8266_mode, get_shelly_discovery_result, get_topic_from_actuator_topic,
    get_topic_from_actuator_topic_inner, handle_ble_contact_update, handle_ble_thermometer_update,
    handle_ble_update_message, handle_ble_valve_update, handle_cache_command, handle_cred_message,
    handle_shelly_command, handle_shelly_message, note_plus_actuator, ping_command, property_status,
    session_login, update_actuator_connection, RecordAddress,
};
use domo_wot_bridge::command_parser::{
    handle_dim_command, handle_rgbw_command, handle_shutter_command, handle_turn_command,
    handle_valve_command, CommandError,
};
use domo_wot_bridge::dhtmanager::{DHTCommand, DHTManager, DhtError, DomoEvent};
use domo_wot_bridge::globalshellymanager::GlobalShellyManager;
use domo_wot_bridge::json::{Json, Number};
use domo_wot_bridge::messages::{AuthCredMessage, BleBeaconMessage, ESP32CommandMessage, ESP32CommandType};
use domo_wot_bridge::shellymanager::{
    authorization_header, get_update_message, gives_up, Frame, FrameOutcome, ShellyManager,
};
use domo_wot_bridge::topic_from_actuator_topic::{
    mangle_domo_floor_valve, mangle_domo_light_dimmable_shelly_dimmer,
    mangle_domo_light_dimmable_shelly_rgbw, mangle_domo_light_siren_switch,
    mangle_domo_pir_sensor_radar_sensor_button_bistable_button, mangle_domo_power_energy_sensor,
    mangle_domo_rgbw_light, mangle_domo_roller_shutter_garage_gate, somo_window_sensor_door_sensor,
    MangleError,
};
use domo_wot_bridge::utils::{ValveCommandManager, ValveData};
use domo_wot_bridge::wssmanager::{
    parse_esp32_message, Esp32Session, SessionAction, SessionEvent, WssManager,
};
use aead::generic_array::GenericArray;
use aead::{Aead, KeyInit, Payload};
use serde_json::Value;

// Values are written as `serde_json` values and handed to the library as
// its own trees; a fraction is held in millionths there.

fn to_json(v: &Value) -> Json {
    match v {
        Value::Null => Json::Null,
        Value::Bool(b) => Json::Bool(*b),
        Value::Number(n) => {
            if let Some(u) = n.as_u64() {
                Json::Number(Number::Unsigned(u))
            } else if let Some(i) = n.as_i64() {
                Json::Number(Number::Signed(i))
            } else {
                Json::Number(Number::Micros((n.as_f64().unwrap() * 1e6).round() as i64))
            }
        }
        Value::String(s) => Json::Text(s.clone()),
        Value::Array(a) => Json::List(a.iter().map(to_json).collect()),
        Value::Object(o) => Json::Object(o.iter().map(|(k, v)| (k.clone(), to_json(v))).collect()),
    }
}

fn to_value(j: &Json) -> Value {
    match j {
        Json::Null => Value::Null,
        Json::Bool(b) => Value::from(*b),
        Json::Number(Number::Unsigned(u)) => Value::from(*u),
        Json::Number(Number::Signed(i)) => Value::from(*i),
        Json::Number(Number::Micros(m)) => Value::from(*m as f64 / 1e6),
        Json::Text(s) => Value::from(s.as_str()),
        Json::List(a) => Value::Array(a.iter().map(to_value).collect()),
        Json::Object(o) => {
            let mut m = serde_json::Map::new();
            for (k, v) in o {
                m.insert(k.clone(), to_value(v));
            }
            Value::Object(m)
        }
    }
}

fn obj(fields: Vec<(&str, Value)>) -> Value {
    let mut m = serde_json::Map::new();
    for (k, v) in fields {
        m.insert(k.to_owned(), v);
    }
    Value::Object(m)
}

fn s(text: &str) -> Value {
    Value::from(text)
}

fn n(number: u64) -> Value {
    Value::from(number)
}

fn f(number: f64) -> Value {
    Value::from(number)
}

fn b(flag: bool) -> Value {
    Value::from(flag)
}

fn list(items: Vec<Value>) -> Value {
    Value::Array(items)
}

fn texts(items: Vec<&str>) -> Value {
    Value::Array(items.into_iter().map(s).collect())
}

fn topic(name: &str, uuid: &str, value: Value) -> Value {
    obj(vec![("topic_name", s(name)), ("topic_uuid", s(uuid)), ("value", value)])
}

fn cache_of(topics: Vec<Value>) -> DHTManager {
    DHTManager { cache: topics.iter().map(to_json).collect(), written: Vec::new() }
}

fn action(name: &str, payload: &str) -> Value {
    obj(vec![(
        "input",
        obj(vec![("action", obj(vec![("action_name", s(name)), ("action_payload", s(payload))]))]),
    )])
}

fn request(shelly_action: Value) -> Value {
    obj(vec![("messageType", s("requestAction")), ("data", obj(vec![("shelly_action", shelly_action)]))])
}

fn light_actuator(props: Vec<&str>) -> Value {
    obj(vec![
        ("output7", s("my_status")),
        ("power7", s("my_power")),
        ("energy7", f(42.5)),
        ("updated_properties", texts(props)),
    ])
}

#[test]
fn light_siren_switch_with_energy() {
    let actuator_topic = to_json(&light_actuator(vec!["prop1", "prop2", "power7", "energy7"]));

    let mut source_topic = to_json(&obj(vec![("value", obj(vec![("status", s("old_status")), ("energy", f(7.5))]))]));

    mangle_domo_light_siren_switch(&mut source_topic, "7", &actuator_topic, "dummy").unwrap();

    assert_eq!(
        to_value(&source_topic),
        obj(vec![(
            "value",
            obj(vec![
                ("status", s("my_status")),
                ("power", s("my_power")),
                ("energy", f(50.)),
                ("updated_properties", texts(vec!["power", "energy"])),
            ])
        )])
    );
}

#[test]
fn light_siren_switch_without_energy() {
    let actuator_topic = to_json(&light_actuator(vec!["prop1", "prop2", "power7", "energy7"]));

    let mut source_topic = to_json(&obj(vec![("value", obj(vec![("status", s("old_status"))]))]));

    mangle_domo_light_siren_switch(&mut source_topic, "7", &actuator_topic, "dummy").unwrap();

    assert_eq!(
        to_value(&source_topic),
        obj(vec![(
            "value",
            obj(vec![
                ("status", s("my_status")),
                ("power", s("my_power")),
                ("energy", f(42.5)),
                ("updated_properties", texts(vec!["power", "energy"])),
            ])
        )])
    );
}

#[test]
fn light_siren_switch_empty_updated_properties() {
    let actuator_topic = to_json(&light_actuator(vec!["prop1"]));

    let mut source_topic = to_json(&obj(vec![("value", obj(vec![("status", s("old_status"))]))]));

    mangle_domo_light_siren_switch(&mut source_topic, "7", &actuator_topic, "dummy").unwrap();

    assert_eq!(
        to_value(&source_topic),
        obj(vec![(
            "value",
            obj(vec![
                ("status", s("my_status")),
                ("power", s("my_power")),
                ("energy", f(42.5)),
                ("updated_properties", texts(vec![])),
            ])
        )])
    );
}

#[test]
fn light_siren_switch_with_shelly_1() {
    let actuator_topic = to_json(&light_actuator(vec!["prop1", "prop2", "power7", "energy7"]));

    let mut source_topic = to_json(&obj(vec![("value", obj(vec![("status", s("old_status")), ("energy", f(7.5))]))]));

    mangle_domo_light_siren_switch(&mut source_topic, "7", &actuator_topic, "shelly_1").unwrap();

    assert_eq!(
        to_value(&source_topic),
        obj(vec![(
            "value",
            obj(vec![
                ("status", s("my_status")),
                ("energy", f(7.5)),
                ("updated_properties", texts(vec!["power", "energy"])),
            ])
        )])
    );
}

#[test]
fn parse_valid_actuator_connection_topic() {
    let data = to_json(&obj(vec![
        (
            "value",
            obj(vec![
                ("target_topic_name", s("str1")),
                ("target_topic_uuid", s("str2")),
                ("target_channel_number", n(42)),
                ("source_topic_name", s("str3")),
            ]),
        ),
        ("topic_uuid", s("str4")),
    ]));

    assert_eq!(
        Topic::deserialize(&data).unwrap(),
        Topic {
            value: ConnectionValue {
                target_topic_name: "str1",
                target_topic_uuid: "str2",
                target_channel_number: 42,
                source_topic_name: "str3",
            },
            topic_uuid: "str4",
        },
    );
}

#[test]
fn parse_invalid_actuator_connection_topic() {
    assert!(Topic::deserialize(&to_json(&obj(vec![
        (
            "value",
            obj(vec![
                ("target_topic_uuid", s("str2")),
                ("target_channel_number", n(42)),
                ("source_topic_name", s("str3")),
            ])
        ),
        ("topic_uuid", s("str4")),
    ])))
    .is_err());

    assert!(Topic::deserialize(&to_json(&obj(vec![
        (
            "value",
            obj(vec![
                ("target_topic_name", s("str1")),
                ("target_channel_number", n(42)),
                ("source_topic_name", s("str3")),
            ])
        ),
        ("topic_uuid", s("str4")),
    ])))
    .is_err());

    assert!(Topic::deserialize(&to_json(&obj(vec![
        (
            "value",
            obj(vec![
                ("target_topic_name", s("str1")),
                ("target_topic_uuid", s("str2")),
                ("source_topic_name", s("str3")),
            ])
        ),
        ("topic_uuid", s("str4")),
    ])))
    .is_err());

    assert!(Topic::deserialize(&to_json(&obj(vec![
        (
            "value",
            obj(vec![
                ("target_topic_name", s("str1")),
                ("target_topic_uuid", s("str2")),
                ("target_channel_number", n(42)),
            ])
        ),
        ("topic_uuid", s("str4")),
    ])))
    .is_err());
}

#[test]
fn binding_needs_its_identifier_and_the_right_types() {
    let value = obj(vec![
        ("target_topic_name", s("str1")),
        ("target_topic_uuid", s("str2")),
        ("target_channel_number", n(42)),
        ("source_topic_name", s("str3")),
    ]);
    assert!(Topic::deserialize(&to_json(&obj(vec![("value", value.clone())]))).is_err());
    assert!(Topic::deserialize(&to_json(&obj(vec![("topic_uuid", s("str4"))]))).is_err());
    assert!(Topic::deserialize(&to_json(&obj(vec![("value", s("str")), ("topic_uuid", s("str4"))]))).is_err());
    let fraction = obj(vec![
        ("target_topic_name", s("str1")),
        ("target_topic_uuid", s("str2")),
        ("target_channel_number", f(1.5)),
        ("source_topic_name", s("str3")),
    ]);
    assert!(Topic::deserialize(&to_json(&obj(vec![("value", fraction), ("topic_uuid", s("str4"))]))).is_err());
    let extra = obj(vec![
        ("target_topic_name", s("str1")),
        ("target_topic_uuid", s("str2")),
        ("target_channel_number", n(0)),
        ("source_topic_name", s("str3")),
        ("connection_type", s("output")),
    ]);
    assert!(Topic::deserialize(&to_json(&obj(vec![("value", extra), ("topic_uuid", s("str4"))]))).is_ok());
}

#[test]
fn json_fields_are_read_and_set() {
    let mut j = Json::Null;
    assert!(j.get("a").is_none());
    assert!(j.set("a", Json::Bool(true)));
    assert!(j.set("b", Json::text("x")));
    assert!(j.set("a", Json::Number(Number::Unsigned(3))));
    assert_eq!(to_value(&j), obj(vec![("a", n(3)), ("b", s("x"))]));
    assert_eq!(j.get("a").unwrap().as_u64(), Some(3));
    assert_eq!(j.get("b").unwrap().as_str(), Some("x"));
    assert!(j.get("c").is_none());
    assert_eq!(to_value(&j.at("c")), Value::Null);
    let mut text = Json::text("x");
    assert!(!text.set("a", Json::Null));
    assert_eq!(to_value(&text), s("x"));
    assert!(!text.can_set());
    assert!(j.can_set_in("value"));
    assert!(!j.can_set_in("b"));
}

#[test]
fn json_nested_fields_are_set() {
    let mut j = Json::Null;
    assert!(j.set_in("value", "status", Json::Bool(true)));
    assert!(j.set_in("value", "power", Json::Number(Number::Micros(12_300_000))));
    assert_eq!(to_value(&j), obj(vec![("value", obj(vec![("status", b(true)), ("power", f(12.3))]))]));
    assert_eq!(to_value(&j.at_in("value", "status")), b(true));
    assert_eq!(to_value(&j.at_in("value", "none")), Value::Null);
    assert_eq!(to_value(&j.at_in("none", "status")), Value::Null);
    let mut flat = to_json(&obj(vec![("value", n(1))]));
    assert!(!flat.set_in("value", "status", Json::Bool(true)));
    assert_eq!(to_value(&flat), obj(vec![("value", n(1))]));
}

#[test]
fn json_of_two_entries_with_one_key_the_later_counts() {
    let j = Json::Object(vec![("a".to_owned(), Json::Bool(false)), ("a".to_owned(), Json::Bool(true))]);
    assert_eq!(j.get("a").unwrap().as_bool(), Some(true));
    assert_eq!(to_value(&j.duplicate()), obj(vec![("a", b(true))]));
}

#[test]
fn json_values_by_type() {
    assert_eq!(Json::Number(Number::Unsigned(7)).as_u64(), Some(7));
    assert_eq!(Json::Number(Number::Signed(7)).as_u64(), Some(7));
    assert_eq!(Json::Number(Number::Signed(-7)).as_u64(), None);
    assert_eq!(Json::Number(Number::Micros(7_000_000)).as_u64(), None);
    assert_eq!(Json::text("7").as_u64(), None);
    assert_eq!(Json::Number(Number::Unsigned(7)).as_micros(), Some(7_000_000));
    assert_eq!(Json::Number(Number::Signed(-7)).as_micros(), Some(-7_000_000));
    assert_eq!(Json::Number(Number::Micros(-1)).as_micros(), Some(-1));
    assert_eq!(Json::Number(Number::Unsigned(u64::MAX)).as_micros(), Some(u64::MAX as i128 * 1_000_000));
    assert_eq!(Json::Bool(true).as_micros(), None);
    assert_eq!(Json::Bool(true).as_bool(), Some(true));
    assert_eq!(Json::Null.as_bool(), None);
    assert_eq!(Json::Bool(true).as_str(), None);
    assert!(Json::Null.as_array().is_none());
    assert_eq!(Json::List(vec![Json::Null]).as_array().unwrap().len(), 1);
}

#[test]
fn energy_sums_are_exact() {
    let mut source = to_json(&obj(vec![("value", obj(vec![("energy", f(0.1))]))]));
    let actuator = to_json(&obj(vec![("energy1", f(0.2)), ("updated_properties", texts(vec![]))]));
    mangle_domo_light_siren_switch(&mut source, "1", &actuator, "shelly_25").unwrap();
    assert!(matches!(source.at_in("value", "energy"), Json::Number(Number::Micros(300_000))));
    // a whole number counts as the fraction that it is
    let mut source = to_json(&obj(vec![("value", obj(vec![("energy", n(7))]))]));
    mangle_domo_light_siren_switch(&mut source, "1", &actuator, "shelly_25").unwrap();
    assert!(matches!(source.at_in("value", "energy"), Json::Number(Number::Micros(7_200_000))));
}

#[test]
fn light_needs_well_formed_telemetry() {
    let good = to_json(&obj(vec![("value", obj(vec![("status", s("old_status"))]))]));
    // no list of updated properties
    let mut source = good.duplicate();
    let actuator = to_json(&obj(vec![("output7", b(true)), ("energy7", f(1.0))]));
    assert_eq!(mangle_domo_light_siren_switch(&mut source, "7", &actuator, "dummy"), Err(MangleError::Malformed));
    assert_eq!(to_value(&source), to_value(&good));
    // an updated property that is no text
    let actuator = to_json(&obj(vec![("energy7", f(1.0)), ("updated_properties", list(vec![n(1)]))]));
    assert_eq!(mangle_domo_light_siren_switch(&mut source, "7", &actuator, "dummy"), Err(MangleError::Malformed));
    // no energy on an actuator that meters
    let actuator = to_json(&obj(vec![("output7", b(true)), ("updated_properties", texts(vec![]))]));
    assert_eq!(mangle_domo_light_siren_switch(&mut source, "7", &actuator, "dummy"), Err(MangleError::Malformed));
    assert_eq!(to_value(&source), to_value(&good));
    // which an actuator that does not meter does not need
    assert_eq!(mangle_domo_light_siren_switch(&mut source, "7", &actuator, "shelly_1plus"), Ok(()));
    assert_eq!(
        to_value(&source),
        obj(vec![("value", obj(vec![("status", b(true)), ("updated_properties", texts(vec![]))]))])
    );
    // a source whose value is no object
    let mut flat = to_json(&obj(vec![("value", s("text"))]));
    let actuator = to_json(&light_actuator(vec![]));
    assert_eq!(mangle_domo_light_siren_switch(&mut flat, "7", &actuator, "dummy"), Err(MangleError::Malformed));
}

#[test]
fn light_energy_is_the_sum_of_the_increments() {
    let mut source = to_json(&obj(vec![("value", obj(vec![("energy", f(1.25))]))]));
    let mut expected = 1.25;
    for increment in [0.5, 0.0, 2.25, 10.0, 0.125] {
        let actuator = to_json(&obj(vec![
            ("output2", b(true)),
            ("power2", f(12.3)),
            ("energy2", f(increment)),
            ("updated_properties", texts(vec!["output2", "power2", "energy2"])),
        ]));
        mangle_domo_light_siren_switch(&mut source, "2", &actuator, "shelly_1pm").unwrap();
        expected += increment;
        assert_eq!(to_value(&source.at_in("value", "energy")), f(expected));
    }
    assert_eq!(to_value(&source.at_in("value", "energy")), f(14.125));
}

#[test]
fn energy_that_cannot_be_held_is_an_error_and_changes_nothing() {
    let full = |energy: Json| {
        let mut source = to_json(&obj(vec![("value", obj(vec![("status", s("old")), ("name", s("lamp"))]))]));
        source.set_in("value", "energy", energy);
        source
    };
    let one = to_json(&obj(vec![
        ("output1", b(true)),
        ("power1", f(5.0)),
        ("energy1", f(0.000001)),
        ("dimmer_status", n(1)),
        ("power_data", obj(vec![("channel1", obj(vec![("active_power", f(5.0)), ("energy", f(0.000001))]))])),
        ("updated_properties", texts(vec!["power_data"])),
    ]));
    for energy in [Number::Micros(i64::MAX), Number::Unsigned(u64::MAX)] {
        let before = to_value(&full(Json::Number(energy)));
        let mut source = full(Json::Number(energy));
        assert_eq!(mangle_domo_light_siren_switch(&mut source, "1", &one, "shelly_25"), Err(MangleError::Malformed));
        assert_eq!(to_value(&source), before);
        assert_eq!(mangle_domo_light_dimmable_shelly_dimmer(&mut source, &one), Err(MangleError::Malformed));
        assert_eq!(to_value(&source), before);
        assert_eq!(mangle_domo_power_energy_sensor(&mut source, "1", &one), Err(MangleError::Malformed));
        assert_eq!(to_value(&source), before);
        // an actuator that does not meter does not add
        assert_eq!(mangle_domo_light_siren_switch(&mut source, "1", &one, "shelly_1"), Ok(()));
    }
    // the largest energy that can be held is held
    let mut source = full(Json::Number(Number::Micros(i64::MAX - 1)));
    assert_eq!(mangle_domo_light_siren_switch(&mut source, "1", &one, "shelly_25"), Ok(()));
    assert!(matches!(source.at_in("value", "energy"), Json::Number(Number::Micros(i64::MAX))));
    // an energy that falls below what can be held is an error too
    let mut source = full(Json::Number(Number::Micros(i64::MIN)));
    let less = to_json(&obj(vec![("energy1", f(-1.0)), ("updated_properties", texts(vec![]))]));
    assert_eq!(mangle_domo_light_siren_switch(&mut source, "1", &less, "shelly_25"), Err(MangleError::Malformed));
}

#[test]
fn energy_never_falls() {
    let mut source = to_json(&obj(vec![("value", obj(vec![("energy", f(9_000_000_000_000.0))]))]));
    let mut last: i128 = source.at_in("value", "energy").as_micros().unwrap();
    for increment in [1.0, 200_000_000_000.0, 0.0, 100_000_000_000.0, 50_000_000_000.0, 0.5] {
        let actuator = to_json(&obj(vec![("energy2", f(increment)), ("updated_properties", texts(vec![]))]));
        let before = last;
        match mangle_domo_light_siren_switch(&mut source, "2", &actuator, "shelly_1pm") {
            Ok(()) => {
                last = source.at_in("value", "energy").as_micros().unwrap();
                assert_eq!(last, before + (increment * 1e6) as i128);
            }
            Err(e) => {
                assert_eq!(e, MangleError::Malformed);
                last = source.at_in("value", "energy").as_micros().unwrap();
                assert_eq!(last, before);
            }
        }
        assert!(last >= before);
    }
    assert_eq!(last, 9_200_000_000_001_500_000);
}

#[test]
fn power_energy_sensor_reads_its_channel() {
    let actuator = to_json(&obj(vec![
        (
            "power_data",
            obj(vec![
                ("channel1", obj(vec![("active_power", f(1.5)), ("energy", f(0.25))])),
                ("channel2", obj(vec![("active_power", f(100.0)), ("energy", f(3.0))])),
            ]),
        ),
        ("updated_properties", texts(vec!["power_data"])),
    ]));
    let mut source = to_json(&obj(vec![("value", obj(vec![("energy", n(2)), ("name", s("meter"))]))]));
    assert_eq!(mangle_domo_power_energy_sensor(&mut source, "2", &actuator), Ok(()));
    assert_eq!(
        to_value(&source),
        obj(vec![(
            "value",
            obj(vec![
                ("energy", f(5.0)),
                ("name", s("meter")),
                ("power", f(100.0)),
                ("updated_properties", texts(vec!["power", "energy"])),
            ])
        )])
    );
}

#[test]
fn power_energy_sensor_skips_other_telemetry() {
    let actuator = to_json(&obj(vec![
        ("power_data", obj(vec![("channel1", obj(vec![("active_power", f(1.5)), ("energy", f(0.25))]))])),
        ("updated_properties", texts(vec!["output1"])),
    ]));
    let before = obj(vec![("value", obj(vec![("energy", n(2))]))]);
    let mut source = to_json(&before);
    assert_eq!(mangle_domo_power_energy_sensor(&mut source, "1", &actuator), Err(MangleError::NotUpdated));
    assert_eq!(to_value(&source), before);
    // no reading for the channel
    let actuator = to_json(&obj(vec![
        ("power_data", obj(vec![])),
        ("updated_properties", texts(vec!["power_data"])),
    ]));
    assert_eq!(mangle_domo_power_energy_sensor(&mut source, "1", &actuator), Err(MangleError::Malformed));
    assert_eq!(to_value(&source), before);
    // no list of updated properties
    let actuator = to_json(&obj(vec![]));
    assert_eq!(mangle_domo_power_energy_sensor(&mut source, "1", &actuator), Err(MangleError::Malformed));
}

#[test]
fn dimmable_light_on_a_dimmer() {
    let actuator = to_json(&obj(vec![
        ("dimmer_status", n(70)),
        ("power1", f(8.0)),
        ("energy1", f(0.5)),
        ("updated_properties", list(vec![s("dimmer_status"), s("energy1"), n(3), s("power1")])),
    ]));
    let mut source = to_json(&obj(vec![("value", obj(vec![("energy", f(1.5))]))]));
    assert_eq!(mangle_domo_light_dimmable_shelly_dimmer(&mut source, &actuator), Ok(()));
    assert_eq!(
        to_value(&source),
        obj(vec![(
            "value",
            obj(vec![
                ("energy", f(2.0)),
                ("status", n(70)),
                ("power", f(8.0)),
                ("updated_properties", texts(vec!["energy", "power"])),
            ])
        )])
    );
    let no_energy = to_json(&obj(vec![("dimmer_status", n(70)), ("updated_properties", texts(vec![]))]));
    assert_eq!(mangle_domo_light_dimmable_shelly_dimmer(&mut source, &no_energy), Err(MangleError::Malformed));
}

#[test]
fn dimmable_light_on_an_rgbw_actuator() {
    let actuator =
        to_json(&obj(vec![("rgbw_status", obj(vec![("r", n(1)), ("g", n(2)), ("b", n(3)), ("w", n(4))]))]));
    for (channel, level) in [(1, 1), (2, 2), (3, 3), (4, 4)] {
        let mut source = Json::Null;
        assert_eq!(mangle_domo_light_dimmable_shelly_rgbw(&mut source, channel, &actuator), Ok(()));
        assert_eq!(to_value(&source), obj(vec![("value", obj(vec![("status", n(level))]))]));
    }
    let mut source = to_json(&obj(vec![("value", obj(vec![("status", n(9))]))]));
    assert_eq!(mangle_domo_light_dimmable_shelly_rgbw(&mut source, 5, &actuator), Ok(()));
    assert_eq!(to_value(&source), obj(vec![("value", obj(vec![("status", n(9))]))]));
    let mut flat = Json::text("x");
    assert_eq!(mangle_domo_light_dimmable_shelly_rgbw(&mut flat, 0, &actuator), Ok(()));
    assert_eq!(mangle_domo_light_dimmable_shelly_rgbw(&mut flat, 1, &actuator), Err(MangleError::Malformed));
}

#[test]
fn rgbw_light_shows_the_four_levels() {
    let actuator =
        to_json(&obj(vec![("rgbw_status", obj(vec![("r", n(1)), ("g", n(2)), ("b", n(3)), ("w", n(4))]))]));
    let mut source = to_json(&obj(vec![("value", obj(vec![("name", s("lamp")), ("r", n(9))]))]));
    assert_eq!(mangle_domo_rgbw_light(&mut source, &actuator), Ok(()));
    assert_eq!(
        to_value(&source),
        obj(vec![("value", obj(vec![("name", s("lamp")), ("r", n(1)), ("g", n(2)), ("b", n(3)), ("w", n(4))]))])
    );
    let mut flat = Json::Bool(true);
    assert_eq!(mangle_domo_rgbw_light(&mut flat, &actuator), Err(MangleError::Malformed));
}

#[test]
fn input_sensor_shows_its_input_when_it_is_updated() {
    let actuator = to_json(&obj(vec![("input3", b(true)), ("updated_properties", texts(vec!["output1", "input3"]))]));
    let mut source = Json::Null;
    assert_eq!(mangle_domo_pir_sensor_radar_sensor_button_bistable_button(&mut source, "3", &actuator), Ok(()));
    assert_eq!(to_value(&source), obj(vec![("value", obj(vec![("status", b(true))]))]));
    let mut other = Json::Null;
    assert_eq!(
        mangle_domo_pir_sensor_radar_sensor_button_bistable_button(&mut other, "1", &actuator),
        Err(MangleError::NotUpdated)
    );
    assert_eq!(to_value(&other), Value::Null);
    let bad = to_json(&obj(vec![("input3", b(true)), ("updated_properties", list(vec![s("input3"), n(1)]))]));
    assert_eq!(
        mangle_domo_pir_sensor_radar_sensor_button_bistable_button(&mut other, "3", &bad),
        Err(MangleError::Malformed)
    );
}

#[test]
fn floor_valve_and_shutter_and_contact() {
    let actuator = to_json(&obj(vec![
        ("output1", b(true)),
        ("input1", b(false)),
        ("status", n(1)),
        ("shutter_status", s("opening")),
    ]));
    let mut source = Json::Null;
    assert_eq!(mangle_domo_floor_valve(&mut source, "1", &actuator), Ok(()));
    assert_eq!(to_value(&source), obj(vec![("value", obj(vec![("status", b(true))]))]));
    let mut source = Json::Null;
    assert_eq!(mangle_domo_roller_shutter_garage_gate(&mut source, &actuator), Ok(()));
    assert_eq!(to_value(&source), obj(vec![("value", obj(vec![("shutter_status", s("opening"))]))]));
    let mut source = Json::Null;
    assert_eq!(somo_window_sensor_door_sensor(&mut source, "1", &actuator, "domo_ble_contact"), Ok(()));
    assert_eq!(to_value(&source), obj(vec![("value", obj(vec![("status", n(1))]))]));
    let mut source = Json::Null;
    assert_eq!(somo_window_sensor_door_sensor(&mut source, "1", &actuator, "shelly_1"), Ok(()));
    assert_eq!(to_value(&source), obj(vec![("value", obj(vec![("status", b(false))]))]));
    let mut flat = Json::text("x");
    assert_eq!(mangle_domo_floor_valve(&mut flat, "1", &actuator), Err(MangleError::Malformed));
    assert_eq!(mangle_domo_roller_shutter_garage_gate(&mut flat, &actuator), Err(MangleError::Malformed));
    assert_eq!(somo_window_sensor_door_sensor(&mut flat, "1", &actuator, "x"), Err(MangleError::Malformed));
}

#[test]
fn projection_by_the_kind_of_the_source() {
    let actuator = to_json(&obj(vec![
        ("output2", b(true)),
        ("input2", b(false)),
        ("power2", f(12.3)),
        ("energy2", f(0.5)),
        ("energy1", f(0.25)),
        ("power1", f(1.0)),
        ("dimmer_status", n(70)),
        ("shutter_status", s("closed")),
        ("rgbw_status", obj(vec![("r", n(1)), ("g", n(2)), ("b", n(3)), ("w", n(4))])),
        ("power_data", obj(vec![("channel2", obj(vec![("active_power", f(5.0)), ("energy", f(1.0))]))])),
        ("updated_properties", texts(vec!["output2", "power2", "energy2", "input2", "power_data"])),
    ]));
    let source = || to_json(&obj(vec![("value", obj(vec![("energy", f(1.0))]))]));
    let run = |kind: &str, target: &str| {
        get_topic_from_actuator_topic_inner(source(), kind, 2, &actuator, target).map(|v| to_value(&v))
    };
    let metered = obj(vec![
        ("energy", f(1.5)),
        ("status", b(true)),
        ("power", f(12.3)),
        ("updated_properties", texts(vec!["power", "energy"])),
    ]);
    for kind in ["domo_light", "domo_siren", "domo_switch"] {
        assert_eq!(run(kind, "shelly_1pm"), Ok(metered.clone()));
    }
    assert_eq!(
        run("domo_power_energy_sensor", "shelly_em"),
        Ok(obj(vec![("energy", f(2.0)), ("power", f(5.0)), ("updated_properties", texts(vec!["power", "energy"]))]))
    );
    assert_eq!(
        run("domo_light_dimmable", "shelly_dimmer"),
        Ok(obj(vec![
            ("energy", f(1.25)),
            ("status", n(70)),
            ("power", f(1.0)),
            ("updated_properties", texts(vec![])),
        ]))
    );
    assert_eq!(run("domo_light_dimmable", "shelly_rgbw"), Ok(obj(vec![("energy", f(1.0)), ("status", n(2))])));
    assert_eq!(run("domo_light_dimmable", "shelly_1"), Ok(obj(vec![("energy", f(1.0))])));
    assert_eq!(
        run("domo_rgbw_light", "shelly_rgbw"),
        Ok(obj(vec![("energy", f(1.0)), ("r", n(1)), ("g", n(2)), ("b", n(3)), ("w", n(4))]))
    );
    assert_eq!(run("domo_floor_valve", "shelly_1"), Ok(obj(vec![("energy", f(1.0)), ("status", b(true))])));
    for kind in ["domo_roller_shutter", "domo_garage_gate"] {
        assert_eq!(run(kind, "shelly_25"), Ok(obj(vec![("energy", f(1.0)), ("shutter_status", s("closed"))])));
    }
    for kind in ["domo_pir_sensor", "domo_radar_sensor", "domo_button", "domo_bistable_button"] {
        assert_eq!(run(kind, "shelly_1"), Ok(obj(vec![("energy", f(1.0)), ("status", b(false))])));
    }
    for kind in ["domo_window_sensor", "domo_door_sensor"] {
        assert_eq!(run(kind, "shelly_1"), Ok(obj(vec![("energy", f(1.0)), ("status", b(false))])));
    }
    assert_eq!(run("domo_unknown", "shelly_1"), Ok(obj(vec![("energy", f(1.0))])));
}

#[test]
fn projection_is_a_function_of_its_inputs() {
    let actuator = to_json(&light_actuator(vec!["power7", "energy7"]));
    let source = to_json(&obj(vec![("value", obj(vec![("energy", f(7.5)), ("name", s("lamp"))]))]));
    let first = get_topic_from_actuator_topic_inner(source.duplicate(), "domo_light", 7, &actuator, "shelly_25");
    let second = get_topic_from_actuator_topic_inner(source.duplicate(), "domo_light", 7, &actuator, "shelly_25");
    let first = to_value(&first.unwrap());
    assert_eq!(first, to_value(&second.unwrap()));
    // the fields of the value are those it had and those of the kind
    let keys: Vec<&String> = first.as_object().unwrap().keys().collect();
    assert_eq!(keys, vec!["energy", "name", "power", "status", "updated_properties"]);
    assert_eq!(first["name"], s("lamp"));
}

#[test]
fn projection_errors_come_through() {
    let actuator = to_json(&obj(vec![("updated_properties", texts(vec!["output1"]))]));
    let r = get_topic_from_actuator_topic_inner(Json::Null, "domo_button", 1, &actuator, "shelly_1");
    assert_eq!(r.unwrap_err(), MangleError::NotUpdated);
    let r = get_topic_from_actuator_topic_inner(Json::Null, "domo_light", 1, &actuator, "shelly_1pm");
    assert_eq!(r.unwrap_err(), MangleError::Malformed);
    let dht = cache_of(vec![]);
    let r = get_topic_from_actuator_topic(&dht, "domo_light", "L1", 1, &actuator, "shelly_1");
    assert_eq!(r.unwrap_err(), MangleError::NotFound);
}

fn house() -> DHTManager {
    cache_of(vec![
        topic(
            "shelly_1pm",
            "S1",
            obj(vec![
                ("mac_address", s("AA:BB:CC:DD:EE:FF")),
                ("user_login", s("user")),
                ("user_password", s("secret")),
                ("id", s("shelly-1")),
                ("mode", n(0)),
            ]),
        ),
        topic(
            "domo_actuator_connection",
            "L1",
            obj(vec![
                ("source_topic_name", s("domo_light")),
                ("source_topic_uuid", s("L1")),
                ("target_topic_name", s("shelly_1pm")),
                ("target_topic_uuid", s("S1")),
                ("target_channel_number", n(2)),
                ("connection_type", s("output")),
            ]),
        ),
        topic("domo_light", "L1", obj(vec![("status", b(false)), ("energy", f(1.0))])),
        topic(
            "shelly_2pm_plus",
            "PLUS",
            obj(vec![
                ("mac_address", s("11:22:33:44:55:66")),
                ("user_login", s("plus")),
                ("user_password", s("pass")),
                ("id", s("plus-1")),
                ("mode", n(0)),
                ("inverted", b(true)),
            ]),
        ),
        topic(
            "domo_actuator_connection",
            "R1",
            obj(vec![
                ("source_topic_name", s("domo_roller_shutter")),
                ("source_topic_uuid", s("R1")),
                ("target_topic_name", s("shelly_2pm_plus")),
                ("target_topic_uuid", s("PLUS")),
                ("target_channel_number", n(1)),
            ]),
        ),
        topic("domo_roller_shutter", "R1", obj(vec![])),
        topic(
            "domo_ble_valve",
            "V1",
            obj(vec![
                ("mac_address", s("c0ffee000001")),
                ("status", b(false)),
                ("name", s("valve")),
                ("area_name", s("bath")),
            ]),
        ),
    ])
}

fn writes(dht: &DHTManager) -> Vec<(String, String, Value)> {
    dht.written.iter().map(|w| (w.topic_name.clone(), w.topic_uuid.clone(), to_value(&w.value))).collect()
}

#[test]
fn telemetry_writes_the_actuator_and_the_bound_source() {
    let mut dht = house();
    let status = obj(vec![
        ("mac_address", s("AABBCCDDEEFF")),
        ("topic_name", s("shelly_1pm")),
        ("output2", b(true)),
        ("power2", f(12.3)),
        ("energy2", f(0.5)),
        ("updated_properties", texts(vec!["output2", "power2", "energy2"])),
    ]);
    handle_shelly_message(&to_json(&status), &mut dht, 1_700_000_000_000);
    let merged = obj(vec![
        ("mac_address", s("AA:BB:CC:DD:EE:FF")),
        ("topic_name", s("shelly_1pm")),
        ("output2", b(true)),
        ("power2", f(12.3)),
        ("energy2", f(0.5)),
        ("updated_properties", texts(vec!["output2", "power2", "energy2"])),
        ("user_login", s("user")),
        ("user_password", s("secret")),
        ("id", s("shelly-1")),
        ("last_update_timestamp", n(1_700_000_000_000)),
    ]);
    let light = obj(vec![
        ("status", b(true)),
        ("power", f(12.3)),
        ("energy", f(1.5)),
        ("updated_properties", texts(vec!["power", "energy"])),
    ]);
    assert_eq!(
        writes(&dht),
        vec![
            ("shelly_1pm".to_owned(), "S1".to_owned(), merged.clone()),
            ("domo_light".to_owned(), "L1".to_owned(), light.clone()),
        ]
    );
    // the picture of the cache holds what was written
    assert_eq!(to_value(&dht.get_topic_uuid("shelly_1pm", "S1").unwrap()), topic("shelly_1pm", "S1", merged));
    assert_eq!(to_value(&dht.get_topic_uuid("domo_light", "L1").unwrap()), topic("domo_light", "L1", light));
    assert_eq!(dht.cache.len(), 7);
    // the same telemetry again adds its energy again
    handle_shelly_message(&to_json(&status), &mut dht, 1_700_000_000_001);
    assert_eq!(to_value(&dht.written[3].value.at("energy")), f(2.0));
}

#[test]
fn telemetry_of_an_unknown_device_writes_nothing() {
    let mut dht = house();
    for status in [
        obj(vec![("mac_address", s("000000000000")), ("topic_name", s("shelly_1pm"))]),
        obj(vec![("mac_address", s("AABBCCDDEEFF")), ("topic_name", s("shelly_1"))]),
        obj(vec![("mac_address", s("AABBCC")), ("topic_name", s("shelly_1pm"))]),
        obj(vec![("mac_address", n(1)), ("topic_name", s("shelly_1pm"))]),
        obj(vec![("mac_address", s("AABBCCDDEEFF"))]),
        s("text"),
    ] {
        handle_shelly_message(&to_json(&status), &mut dht, 1);
    }
    assert!(dht.written.is_empty());
    // a device whose topic lacks its identifier
    let mut dht = cache_of(vec![topic(
        "shelly_1",
        "S",
        obj(vec![("mac_address", s("AA:BB:CC:DD:EE:FF")), ("user_login", s("u")), ("user_password", s("p"))]),
    )]);
    let status = obj(vec![("mac_address", s("AABBCCDDEEFF")), ("topic_name", s("shelly_1"))]);
    handle_shelly_message(&to_json(&status), &mut dht, 1);
    assert!(dht.written.is_empty());
}

#[test]
fn status_text_of_a_property_message() {
    let message = obj(vec![("messageType", s("propertyStatus")), ("data", obj(vec![("status", s("{\"a\":1}"))]))]);
    assert_eq!(property_status(&to_json(&message)).unwrap(), "{\"a\":1}");
    let other = obj(vec![("messageType", s("actionStatus")), ("data", obj(vec![("status", s("{}"))]))]);
    assert!(property_status(&to_json(&other)).is_none());
    let no_text = obj(vec![("messageType", s("propertyStatus")), ("data", obj(vec![("status", n(1))]))]);
    assert!(property_status(&to_json(&no_text)).is_none());
    assert!(property_status(&to_json(&obj(vec![("messageType", s("propertyStatus"))]))).is_none());
    assert!(property_status(&Json::Null).is_none());
}

#[test]
fn fan_out_follows_the_target_side_only() {
    let mut dht = house();
    let telemetry = to_json(&obj(vec![("shutter_status", s("opening"))]));
    update_actuator_connection(&mut dht, "shelly_2pm_plus", "PLUS", &telemetry);
    assert_eq!(
        writes(&dht),
        vec![("domo_roller_shutter".to_owned(), "R1".to_owned(), obj(vec![("shutter_status", s("opening"))]))]
    );
    // a source is no target
    let mut dht = house();
    update_actuator_connection(&mut dht, "domo_light", "L1", &telemetry);
    assert!(dht.written.is_empty());
    // the kind of the target counts too
    update_actuator_connection(&mut dht, "shelly_1pm", "PLUS", &telemetry);
    assert!(dht.written.is_empty());
}

#[test]
fn two_bindings_of_one_source_see_each_other() {
    let mut dht = cache_of(vec![
        topic(
            "domo_actuator_connection",
            "M1",
            obj(vec![
                ("source_topic_name", s("domo_light")),
                ("target_topic_name", s("shelly_25")),
                ("target_topic_uuid", s("S")),
                ("target_channel_number", n(1)),
            ]),
        ),
        topic("domo_light", "M1", obj(vec![("energy", f(1.0))])),
    ]);
    dht.cache.push(to_json(&topic(
        "domo_actuator_connection",
        "M1",
        obj(vec![
            ("source_topic_name", s("domo_light")),
            ("target_topic_name", s("shelly_25")),
            ("target_topic_uuid", s("S")),
            ("target_channel_number", n(2)),
        ]),
    )));
    let telemetry = to_json(&obj(vec![
        ("output1", b(true)),
        ("output2", b(false)),
        ("energy1", f(0.5)),
        ("energy2", f(0.25)),
        ("updated_properties", texts(vec![])),
    ]));
    update_actuator_connection(&mut dht, "shelly_25", "S", &telemetry);
    assert_eq!(dht.written.len(), 2);
    assert_eq!(to_value(&dht.written[0].value.at("energy")), f(1.5));
    assert_eq!(to_value(&dht.written[1].value.at("energy")), f(1.75));
    assert_eq!(to_value(&dht.written[1].value.at("status")), b(false));
}

#[test]
fn cache_reads() {
    let dht = house();
    assert_eq!(dht.get_topic_name("domo_actuator_connection").len(), 2);
    assert_eq!(dht.get_topic_name("domo_light").len(), 1);
    assert!(dht.get_topic_name("domo_siren").is_empty());
    assert_eq!(to_value(&dht.get_topic_uuid("domo_light", "L1").unwrap().at("topic_uuid")), s("L1"));
    assert_eq!(dht.get_topic_uuid("domo_light", "L2").unwrap_err(), DhtError::NotFound);
    assert_eq!(dht.get_topic_uuid("domo_siren", "L1").unwrap_err(), DhtError::NotFound);
    assert_eq!(to_value(&dht.get_topic("shelly_1pm", "AA:BB:CC:DD:EE:FF").unwrap().at("topic_uuid")), s("S1"));
    assert!(dht.get_topic("shelly_1", "AA:BB:CC:DD:EE:FF").is_err());
    assert!(dht.get_topic("shelly_1pm", "aa:bb:cc:dd:ee:ff").is_err());
    let found = dht.get_actuator_from_mac_address("11:22:33:44:55:66").unwrap();
    assert_eq!(to_value(&found.at("topic_name")), s("shelly_2pm_plus"));
    assert_eq!(to_value(&dht.get_actuator_from_mac_address("c0ffee000001").unwrap().at("topic_uuid")), s("V1"));
    assert!(dht.get_actuator_from_mac_address("00:00:00:00:00:00").is_err());
}

#[test]
fn cache_search_goes_by_the_order_of_the_kinds() {
    let dht = cache_of(vec![
        topic("domo_ble_contact", "C", obj(vec![("mac_address", s("m"))])),
        topic("domo_unknown", "U", obj(vec![("mac_address", s("m"))])),
        topic("shelly_rgbw", "R", obj(vec![("mac_address", s("m"))])),
        topic("shelly_1pm", "A", obj(vec![("mac_address", s("m"))])),
        topic("shelly_1pm", "B", obj(vec![("mac_address", s("m"))])),
    ]);
    assert_eq!(to_value(&dht.get_actuator_from_mac_address("m").unwrap().at("topic_uuid")), s("A"));
    let dht = cache_of(vec![topic("domo_unknown", "U", obj(vec![("mac_address", s("m"))]))]);
    assert!(dht.get_actuator_from_mac_address("m").is_err());
}

#[test]
fn cache_writes_replace_or_add() {
    let mut dht = house();
    dht.write_topic("domo_light", "L1", &to_json(&obj(vec![("status", b(true))])));
    assert_eq!(dht.cache.len(), 7);
    assert_eq!(
        to_value(&dht.get_topic_uuid("domo_light", "L1").unwrap()),
        topic("domo_light", "L1", obj(vec![("status", b(true))]))
    );
    dht.write_topic("domo_light", "L2", &to_json(&obj(vec![("status", b(false))])));
    assert_eq!(dht.cache.len(), 8);
    assert_eq!(to_value(&dht.get_topic_uuid("domo_light", "L2").unwrap().at("value")), obj(vec![("status", b(false))]));
    // writing the same again changes nothing but the list of writes
    let before: Vec<Value> = dht.cache.iter().map(to_value).collect();
    dht.write_topic("domo_light", "L2", &to_json(&obj(vec![("status", b(false))])));
    assert_eq!(dht.cache.iter().map(to_value).collect::<Vec<Value>>(), before);
    assert_eq!(dht.written.len(), 3);
    assert_eq!(dht.written[0].topic_uuid, "L1");
    let empty = DHTManager::new();
    assert!(empty.cache.is_empty() && empty.written.is_empty());
}

#[test]
fn login_of_a_second_generation_actuator() {
    let dht = house();
    let cred = dht.get_auth_cred("plus", "pass").unwrap();
    assert_eq!(to_value(&cred), obj(vec![("mac_address", s("11:22:33:44:55:66")), ("topic", s("shelly_2pm_plus"))]));
    assert_eq!(dht.get_auth_cred("plus", "wrong").unwrap_err(), DhtError::NotFound);
    // an actuator of the first generation does not log in
    assert!(dht.get_auth_cred("user", "secret").is_err());
    let message = AuthCredMessage { user: "plus".to_owned(), pass: "pass".to_owned() };
    assert_eq!(to_value(&handle_cred_message(&message, &dht).unwrap()), to_value(&cred));
    let mut plus: Vec<String> = Vec::new();
    note_plus_actuator(&mut plus, &cred);
    assert_eq!(plus, vec!["11:22:33:44:55:66"]);
    note_plus_actuator(&mut plus, &to_json(&obj(vec![("mac_address", s("x")), ("topic", s("shelly_1"))])));
    note_plus_actuator(&mut plus, &to_json(&obj(vec![("topic", s("shelly_1plus"))])));
    note_plus_actuator(&mut plus, &to_json(&obj(vec![("mac_address", s("y")), ("topic", s("shelly_1pm_plus"))])));
    assert_eq!(plus, vec!["11:22:33:44:55:66", "y"]);
}

fn command(kind: &str, value: Value) -> Json {
    to_json(&obj(vec![("command_type", s(kind)), ("value", value)]))
}

fn actuator_value(c: DHTCommand) -> Value {
    match c {
        DHTCommand::ActuatorCommand(v) => to_value(&v),
        DHTCommand::ValveCommand(_) => panic!("a valve command"),
    }
}

#[test]
fn turn_command_sets_the_bound_output() {
    let dht = house();
    let c = command("turn_command", obj(vec![("topic_uuid", s("L1")), ("desired_state", b(true))]));
    assert_eq!(
        actuator_value(handle_turn_command(&dht, &c).unwrap()),
        obj(vec![
            ("mac_address", s("AA:BB:CC:DD:EE:FF")),
            ("shelly_action", action("set_output", "{\"output_number\":2,\"value\":true}")),
        ])
    );
    let c = command("turn_command", obj(vec![("topic_uuid", s("L1")), ("desired_state", b(false))]));
    assert_eq!(
        actuator_value(handle_turn_command(&dht, &c).unwrap())["shelly_action"],
        action("set_output", "{\"output_number\":2,\"value\":false}")
    );
}

#[test]
fn turn_command_needs_both_fields() {
    let dht = house();
    let run = |value: Value| handle_turn_command(&dht, &command("turn_command", value)).unwrap_err();
    // a bound topic without a desired state
    assert_eq!(run(obj(vec![("topic_uuid", s("L1"))])), CommandError::DesiredState);
    assert_eq!(CommandError::DesiredState.message(), "err_desired_state");
    // a desired state without a topic
    assert_eq!(run(obj(vec![("desired_state", b(true))])), CommandError::TopicUuid);
    assert_eq!(CommandError::TopicUuid.message(), "err_topic_uuid");
    // neither
    assert_eq!(run(obj(vec![])), CommandError::TopicUuid);
}

#[test]
fn turn_command_errors() {
    let dht = house();
    let run = |value: Value| handle_turn_command(&dht, &command("turn_command", value)).unwrap_err();
    assert_eq!(run(obj(vec![("topic_uuid", n(1))])), CommandError::TopicUuid);
    assert_eq!(run(obj(vec![("topic_uuid", s("L1")), ("desired_state", s("on"))])), CommandError::DesiredState);
    assert_eq!(run(obj(vec![("topic_uuid", s("L9")), ("desired_state", b(true))])), CommandError::NotFound);
    let no_value = to_json(&obj(vec![("command_type", s("turn_command"))]));
    assert_eq!(handle_turn_command(&dht, &no_value).unwrap_err(), CommandError::NotAbleToParseCommand);
    let binding = |value: Value| {
        let mut dht = house();
        dht.cache.push(to_json(&obj(vec![
            ("topic_name", s("domo_actuator_connection")),
            ("topic_uuid", s("X")),
        ])));
        dht.write_topic("domo_actuator_connection", "Y", &to_json(&value));
        dht
    };
    let with = |value: Value, uuid: &str| {
        let dht = binding(value);
        let value = obj(vec![("topic_uuid", s(uuid)), ("desired_state", b(true))]);
        handle_turn_command(&dht, &command("turn_command", value)).unwrap_err()
    };
    assert_eq!(with(obj(vec![]), "X"), CommandError::NoConnection);
    assert_eq!(with(obj(vec![("target_topic_name", s("shelly_1pm"))]), "Y"), CommandError::NotAbleToParseCommand);
    let fields = |name: Value, uuid: Value, channel: Value| {
        obj(vec![("target_topic_name", name), ("target_topic_uuid", uuid), ("target_channel_number", channel)])
    };
    assert_eq!(with(fields(n(1), s("S1"), n(1)), "Y"), CommandError::TargetTopicName);
    assert_eq!(with(fields(s("shelly_1pm"), n(1), n(1)), "Y"), CommandError::TargetTopicUuid);
    assert_eq!(with(fields(s("shelly_1pm"), s("S1"), s("1")), "Y"), CommandError::TargetChannelNumber);
    assert_eq!(with(fields(s("shelly_1pm"), s("S9"), n(1)), "Y"), CommandError::NotFound);
    assert_eq!(with(fields(s("domo_roller_shutter"), s("R1"), n(1)), "Y"), CommandError::NotAbleToParseCommand);
}

#[test]
fn command_errors_have_their_short_texts() {
    assert_eq!(CommandError::TopicUuid.message(), "err_topic_uuid");
    assert_eq!(CommandError::DesiredState.message(), "err_desired_state");
    assert_eq!(CommandError::NoConnection.message(), "no connection");
    assert_eq!(CommandError::TargetTopicName.message(), "err_target_topic_name");
    assert_eq!(CommandError::TargetTopicUuid.message(), "err_target_topic_uuid");
    assert_eq!(CommandError::TargetChannelNumber.message(), "err_target_channel_number");
    assert_eq!(CommandError::NotAbleToParseCommand.message(), "not_able_to_parse_command");
    assert_eq!(CommandError::NotAbleToParseMessage.message(), "not able to parse message");
    assert_eq!(CommandError::ShutterCommand.message(), "err_shutter_command");
    assert_eq!(CommandError::NotFound.message(), "not found");
    assert_eq!(CommandError::NotVolatile.message(), "not a volatile message");
}

#[test]
fn only_volatile_events_bring_commands() {
    let dht = house();
    let turn = obj(vec![(
        "command",
        to_value(&command("turn_command", obj(vec![("topic_uuid", s("L1")), ("desired_state", b(true))]))),
    )]);
    assert!(matches!(
        dht.wait_dht_messages(&DomoEvent::VolatileData(to_json(&turn))),
        Ok(DHTCommand::ActuatorCommand(_))
    ));
    assert_eq!(
        dht.wait_dht_messages(&DomoEvent::VolatileData(Json::Null)).unwrap_err(),
        CommandError::NotAbleToParseMessage
    );
    assert_eq!(
        dht.wait_dht_messages(&DomoEvent::PersistentData(to_json(&turn))).unwrap_err(),
        CommandError::NotVolatile
    );
    assert_eq!(dht.wait_dht_messages(&DomoEvent::Other).unwrap_err(), CommandError::NotVolatile);
}

#[test]
fn shutter_command_moves_the_shutter() {
    let dht = house();
    for (word, number) in [("up", 0), ("down", 1), ("stop", 2), ("sideways", 0)] {
        let c = command("shutter_command", obj(vec![("topic_uuid", s("R1")), ("shutter_command", s(word))]));
        assert_eq!(
            actuator_value(handle_shutter_command(&dht, &c).unwrap()),
            obj(vec![
                ("mac_address", s("11:22:33:44:55:66")),
                ("shelly_action", action("set_shutter", &format!("{{\"shutter_command\":{}}}", number))),
            ])
        );
    }
    let run = |value: Value| handle_shutter_command(&dht, &command("shutter_command", value)).unwrap_err();
    assert_eq!(run(obj(vec![("shutter_command", s("up"))])), CommandError::TopicUuid);
    assert_eq!(run(obj(vec![("topic_uuid", s("R1"))])), CommandError::ShutterCommand);
    assert_eq!(run(obj(vec![("topic_uuid", s("R9")), ("shutter_command", s("up"))])), CommandError::NotFound);
    assert_eq!(handle_shutter_command(&dht, &Json::Null).unwrap_err(), CommandError::NotAbleToParseCommand);
}

fn dimmers() -> DHTManager {
    let bind = |source: &str, kind: &str, uuid: &str, channel: u64| {
        topic(
            "domo_actuator_connection",
            source,
            obj(vec![
                ("target_topic_name", s(kind)),
                ("target_topic_uuid", s(uuid)),
                ("target_channel_number", n(channel)),
            ]),
        )
    };
    cache_of(vec![
        topic("shelly_dimmer", "D", obj(vec![("mac_address", s("dd"))])),
        topic("shelly_rgbw", "W", obj(vec![("mac_address", s("ww"))])),
        topic("shelly_1", "O", obj(vec![("mac_address", s("oo"))])),
        bind("LD", "shelly_dimmer", "D", 1),
        bind("L1", "shelly_rgbw", "W", 1),
        bind("L2", "shelly_rgbw", "W", 2),
        bind("L3", "shelly_rgbw", "W", 3),
        bind("L4", "shelly_rgbw", "W", 4),
        bind("L7", "shelly_rgbw", "W", 7),
        bind("LO", "shelly_1", "O", 1),
    ])
}

#[test]
fn dim_command_by_the_kind_of_the_actuator() {
    let dht = dimmers();
    let run = |uuid: &str| {
        handle_dim_command(&dht, &command("dim_command", obj(vec![("topic_uuid", s(uuid)), ("desired_state", n(40))])))
    };
    assert_eq!(
        actuator_value(run("LD").unwrap()),
        obj(vec![("mac_address", s("dd")), ("shelly_action", action("set_dimmer", "{\"dim_value\":40}"))])
    );
    for (uuid, colour) in [("L1", "r"), ("L2", "g"), ("L3", "b"), ("L4", "w"), ("L7", "r")] {
        let payload = format!("{{\"led_dimmer_status\":{{\"channel\":\"{}\",\"value\":40}}}}", colour);
        assert_eq!(
            actuator_value(run(uuid).unwrap()),
            obj(vec![("mac_address", s("ww")), ("shelly_action", action("set_led_dimmer", &payload))])
        );
    }
    assert_eq!(run("LO").unwrap_err(), CommandError::NotAbleToParseCommand);
    assert_eq!(run("L9").unwrap_err(), CommandError::NotFound);
    let bad = |value: Value| handle_dim_command(&dht, &command("dim_command", value)).unwrap_err();
    assert_eq!(bad(obj(vec![("desired_state", n(40))])), CommandError::TopicUuid);
    assert_eq!(bad(obj(vec![("topic_uuid", s("LD")), ("desired_state", b(true))])), CommandError::DesiredState);
    assert_eq!(bad(obj(vec![("topic_uuid", s("LD")), ("desired_state", f(0.5))])), CommandError::DesiredState);
    assert_eq!(handle_dim_command(&dht, &Json::Null).unwrap_err(), CommandError::NotAbleToParseCommand);
}

#[test]
fn rgbw_command_sets_the_four_levels() {
    let dht = dimmers();
    let state = obj(vec![("r", n(1)), ("g", n(2)), ("b", n(3)), ("w", n(4))]);
    let c = command("rgbw_command", obj(vec![("topic_uuid", s("L1")), ("desired_state", state)]));
    assert_eq!(
        actuator_value(handle_rgbw_command(&dht, &c).unwrap()),
        obj(vec![
            ("mac_address", s("ww")),
            ("shelly_action", action("set_rgbw", "{\"rgbw_status\":{\"b\":3,\"g\":2,\"r\":1,\"w\":4}}")),
        ])
    );
    let bad = |value: Value| handle_rgbw_command(&dht, &command("rgbw_command", value)).unwrap_err();
    let partial = obj(vec![("r", n(1)), ("g", n(2)), ("b", n(3))]);
    assert_eq!(bad(obj(vec![("topic_uuid", s("L1")), ("desired_state", partial)])), CommandError::DesiredState);
    assert_eq!(bad(obj(vec![("topic_uuid", s("L1"))])), CommandError::DesiredState);
    assert_eq!(bad(obj(vec![])), CommandError::TopicUuid);
    assert_eq!(handle_rgbw_command(&dht, &Json::Null).unwrap_err(), CommandError::NotAbleToParseCommand);
}

#[test]
fn valve_command_goes_to_the_valve() {
    let dht = house();
    let c = command("valve_command", obj(vec![("topic_uuid", s("V1")), ("desired_state", b(true))]));
    match handle_valve_command(&dht, &c).unwrap() {
        DHTCommand::ValveCommand(v) => assert_eq!(
            to_value(&v),
            obj(vec![
                ("mac_address", s("c0ffee000001")),
                ("desired_state", b(true)),
                (
                    "shelly_action",
                    action("control_radiator_valve", "{\"mac_address\":\"c0ffee000001\",\"value\":true}")
                ),
            ])
        ),
        DHTCommand::ActuatorCommand(_) => panic!("an actuator command"),
    }
    let bad = |value: Value| handle_valve_command(&dht, &command("valve_command", value)).unwrap_err();
    assert_eq!(bad(obj(vec![("desired_state", b(true))])), CommandError::TopicUuid);
    assert_eq!(bad(obj(vec![("topic_uuid", s("V1"))])), CommandError::DesiredState);
    assert_eq!(bad(obj(vec![("topic_uuid", s("V9")), ("desired_state", b(true))])), CommandError::NotFound);
    assert_eq!(handle_valve_command(&dht, &Json::Null).unwrap_err(), CommandError::NotAbleToParseCommand);
    let mut nameless = house();
    nameless.write_topic("domo_ble_valve", "V2", &to_json(&obj(vec![])));
    let c = command("valve_command", obj(vec![("topic_uuid", s("V2")), ("desired_state", b(true))]));
    assert_eq!(handle_valve_command(&nameless, &c).unwrap_err(), CommandError::NotAbleToParseCommand);
}

#[test]
fn volatile_commands_are_resolved_by_their_type() {
    let dht = house();
    let message = |kind: &str, value: Value| to_json(&obj(vec![("command", to_value(&command(kind, value)))]));
    let resolved = obj(vec![("mac_address", s("x")), ("shelly_action", n(1))]);
    match dht.handle_volatile_command(&message("shelly_actuator_command", resolved.clone())).unwrap() {
        DHTCommand::ActuatorCommand(v) => assert_eq!(to_value(&v), resolved),
        _ => panic!("no actuator command"),
    }
    match dht.handle_volatile_command(&message("radiator_valve_command", resolved.clone())).unwrap() {
        DHTCommand::ValveCommand(v) => assert_eq!(to_value(&v), resolved),
        _ => panic!("no valve command"),
    }
    let turn = message("turn_command", obj(vec![("topic_uuid", s("L1")), ("desired_state", b(true))]));
    assert!(matches!(dht.handle_volatile_command(&turn), Ok(DHTCommand::ActuatorCommand(_))));
    let valve = message("valve_command", obj(vec![("topic_uuid", s("V1")), ("desired_state", b(true))]));
    assert!(matches!(dht.handle_volatile_command(&valve), Ok(DHTCommand::ValveCommand(_))));
    let shutter = message("shutter_command", obj(vec![("topic_uuid", s("R1")), ("shutter_command", s("up"))]));
    assert!(matches!(dht.handle_volatile_command(&shutter), Ok(DHTCommand::ActuatorCommand(_))));
    let dim = message("dim_command", obj(vec![("topic_uuid", s("L1")), ("desired_state", n(1))]));
    assert_eq!(dht.handle_volatile_command(&dim).unwrap_err(), CommandError::NotAbleToParseCommand);
    let rgbw = message("rgbw_command", obj(vec![("topic_uuid", s("L1"))]));
    assert_eq!(dht.handle_volatile_command(&rgbw).unwrap_err(), CommandError::DesiredState);
    let unknown = message("dance_command", obj(vec![]));
    assert_eq!(dht.handle_volatile_command(&unknown).unwrap_err(), CommandError::NotAbleToParseMessage);
    assert_eq!(dht.handle_volatile_command(&Json::Null).unwrap_err(), CommandError::NotAbleToParseMessage);
    let no_value = to_json(&obj(vec![("command", obj(vec![("command_type", s("shelly_actuator_command"))]))]));
    assert_eq!(dht.handle_volatile_command(&no_value).unwrap_err(), CommandError::NotAbleToParseMessage);
}

#[test]
fn resolved_commands_are_routed() {
    let mut valves = ValveCommandManager::new();
    let value = obj(vec![("mac_address", s("AA:BB")), ("shelly_action", action("set_output", "{}"))]);
    let routed = handle_cache_command(&DHTCommand::ActuatorCommand(to_json(&value)), &mut valves, false);
    let esp32 = routed.esp32.unwrap();
    assert_eq!(esp32.command_type, ESP32CommandType::Actuator);
    assert_eq!(esp32.mac_address, "AA:BB");
    assert_eq!(esp32.actuator_mac_address, "");
    assert_eq!(to_value(&esp32.payload), value);
    let (mac, message) = routed.shelly.unwrap();
    assert_eq!(mac, "AA:BB");
    assert_eq!(to_value(&message), request(action("set_output", "{}")));
    assert_eq!(to_value(&handle_shelly_command(&to_json(&value)).unwrap().1), to_value(&message));
    // without an action nothing goes to the first generation
    let bare = to_json(&obj(vec![("mac_address", s("AA:BB"))]));
    let routed = handle_cache_command(&DHTCommand::ActuatorCommand(bare), &mut valves, true);
    assert!(routed.esp32.is_some() && routed.shelly.is_none());
    let nameless = to_json(&obj(vec![("shelly_action", n(1))]));
    let routed = handle_cache_command(&DHTCommand::ActuatorCommand(nameless), &mut valves, true);
    assert!(routed.esp32.is_none() && routed.shelly.is_none());
    assert!(valves.valve_commands.is_empty());
}

#[test]
fn valve_commands_are_queued_and_sent_through_the_best_actuator() {
    let mut valves = ValveCommandManager::new();
    let value = obj(vec![("mac_address", s("v1")), ("desired_state", b(true))]);
    // without an actuator of the second generation nothing happens
    let routed = handle_cache_command(&DHTCommand::ValveCommand(to_json(&value)), &mut valves, false);
    assert!(routed.esp32.is_none() && routed.shelly.is_none() && valves.valve_commands.is_empty());
    // without a known actuator the command waits with no attempt
    let routed = handle_cache_command(&DHTCommand::ValveCommand(to_json(&value)), &mut valves, true);
    assert!(routed.esp32.is_none());
    assert_eq!(valves.valve_commands.len(), 1);
    assert_eq!(valves.valve_commands[0].0, "v1");
    assert_eq!(valves.valve_commands[0].1.attempts, 0);
    // with one it is sent and counts as one attempt
    valves.update_best_actuator("v1", "AA:BB", -60, 1_000);
    let routed = handle_cache_command(&DHTCommand::ValveCommand(to_json(&value)), &mut valves, true);
    let esp32 = routed.esp32.unwrap();
    assert_eq!(esp32.command_type, ESP32CommandType::Valve);
    assert_eq!(esp32.mac_address, "v1");
    assert_eq!(esp32.actuator_mac_address, "AA:BB");
    assert_eq!(to_value(&esp32.payload), value);
    assert_eq!(valves.valve_commands.len(), 1);
    assert_eq!(valves.valve_commands[0].1.attempts, 1);
    let nameless = to_json(&obj(vec![("desired_state", b(true))]));
    let routed = handle_cache_command(&DHTCommand::ValveCommand(nameless), &mut valves, true);
    assert!(routed.esp32.is_none());
    assert_eq!(valves.valve_commands.len(), 1);
}

#[test]
fn best_actuator_changes_for_a_stronger_signal_or_after_thirty_seconds() {
    let mut valves = ValveCommandManager::new();
    assert_eq!(valves.get_best_actuator_for_valve("v1"), None);
    valves.update_best_actuator("v1", "first", -60, 100_000);
    assert_eq!(valves.get_best_actuator_for_valve("v1").unwrap(), "first");
    // weaker and recent: no change
    valves.update_best_actuator("v1", "weaker", -70, 110_000);
    assert_eq!(valves.get_best_actuator_for_valve("v1").unwrap(), "first");
    // as strong and recent: no change
    valves.update_best_actuator("v1", "equal", -60, 110_000);
    assert_eq!(valves.get_best_actuator_for_valve("v1").unwrap(), "first");
    // stronger: change
    valves.update_best_actuator("v1", "stronger", -50, 120_000);
    assert_eq!(valves.get_best_actuator_for_valve("v1").unwrap(), "stronger");
    // weaker after exactly 30 seconds: no change
    valves.update_best_actuator("v1", "late", -90, 150_000);
    assert_eq!(valves.get_best_actuator_for_valve("v1").unwrap(), "stronger");
    // weaker after more than 30 seconds: change
    valves.update_best_actuator("v1", "late", -90, 150_001);
    assert_eq!(valves.get_best_actuator_for_valve("v1").unwrap(), "late");
    // a clock that went back does not make an observation old
    valves.update_best_actuator("v1", "early", -95, 5);
    assert_eq!(valves.get_best_actuator_for_valve("v1").unwrap(), "late");
    // each valve has its own
    valves.update_best_actuator("v2", "other", -99, 0);
    assert_eq!(valves.get_best_actuator_for_valve("v2").unwrap(), "other");
    assert_eq!(valves.get_best_actuator_for_valve("v1").unwrap(), "late");
    assert_eq!(valves.best_actuator.len(), 2);
}

#[test]
fn valve_queue_insert_and_remove() {
    let mut valves = ValveCommandManager::new();
    let data = |attempts| ValveData { desired_state: to_json(&obj(vec![("desired_state", b(true))])), attempts };
    valves.insert("v1", data(1));
    valves.insert("v2", data(2));
    valves.insert("v1", data(3));
    assert_eq!(valves.valve_commands.len(), 2);
    assert_eq!(valves.valve_commands[0].0, "v1");
    assert_eq!(valves.valve_commands[0].1.attempts, 3);
    valves.remove("v1");
    assert_eq!(valves.valve_commands.len(), 1);
    assert_eq!(valves.valve_commands[0].0, "v2");
    valves.remove("v9");
    assert_eq!(valves.valve_commands.len(), 1);
}

#[test]
fn valve_command_is_sent_again_until_the_valve_follows() {
    let mut dht = house();
    let mut valves = ValveCommandManager::new();
    valves.update_best_actuator("c0ffee000001", "11:22:33:44:55:66", -60, 0);
    let value = obj(vec![("mac_address", s("c0ffee000001")), ("desired_state", b(true))]);
    let routed = handle_cache_command(&DHTCommand::ValveCommand(to_json(&value)), &mut valves, true);
    assert!(routed.esp32.is_some());
    // the cached status is false: each check sends the command again
    for attempt in 2..=4 {
        let sent = check_radiator_valve_commands(&mut valves, &dht, true);
        assert_eq!(sent.len(), 1);
        assert_eq!(sent[0].command_type, ESP32CommandType::Valve);
        assert_eq!(sent[0].mac_address, "c0ffee000001");
        assert_eq!(sent[0].actuator_mac_address, "11:22:33:44:55:66");
        assert_eq!(to_value(&sent[0].payload), value);
        assert_eq!(valves.valve_commands[0].1.attempts, attempt);
    }
    // without actuators of the second generation nothing is checked
    assert!(check_radiator_valve_commands(&mut valves, &dht, false).is_empty());
    assert_eq!(valves.valve_commands[0].1.attempts, 4);
    // the valve reports that it is open: the bridge writes its topic
    let beacon = BleBeaconMessage::from("c0ffee000001 1 -60", "112233445566").unwrap();
    handle_ble_update_message(&beacon, &mut dht, &mut valves, 5_000);
    assert_eq!(
        writes(&dht),
        vec![(
            "domo_ble_valve".to_owned(),
            "V1".to_owned(),
            obj(vec![
                ("status", b(true)),
                ("mac_address", s("c0ffee000001")),
                ("last_update_timestamp", n(5_000)),
                ("name", s("valve")),
                ("area_name", s("bath")),
            ])
        )]
    );
    // and the next check takes the command out of the queue
    assert!(check_radiator_valve_commands(&mut valves, &dht, true).is_empty());
    assert!(valves.valve_commands.is_empty());
}

#[test]
fn valve_command_is_given_up_after_a_hundred_attempts() {
    let dht = house();
    let mut valves = ValveCommandManager::new();
    valves.update_best_actuator("c0ffee000001", "11:22:33:44:55:66", -60, 0);
    let value = obj(vec![("mac_address", s("c0ffee000001")), ("desired_state", b(true))]);
    handle_cache_command(&DHTCommand::ValveCommand(to_json(&value)), &mut valves, true);
    let mut sent = 1;
    let mut checks = 0;
    while !valves.valve_commands.is_empty() {
        sent += check_radiator_valve_commands(&mut valves, &dht, true).len();
        checks += 1;
        assert!(checks <= 200);
    }
    assert_eq!(sent, 100);
    assert_eq!(checks, 100);
}

#[test]
fn valve_command_without_an_actuator_waits() {
    let dht = house();
    let mut valves = ValveCommandManager::new();
    let desired = || to_json(&obj(vec![("desired_state", b(true))]));
    valves.insert("c0ffee000001", ValveData { desired_state: desired(), attempts: 0 });
    valves.insert("done", ValveData { desired_state: desired(), attempts: 100 });
    assert!(valves.check_valve_commands(&dht.get_topic_name("domo_ble_valve")).is_empty());
    assert_eq!(valves.valve_commands.len(), 1);
    assert_eq!(valves.valve_commands[0].0, "c0ffee000001");
    assert_eq!(valves.valve_commands[0].1.attempts, 0);
}

const CONTACT_KEY: &str = "6b1db353566f01c6d3585100b9d348f4";
const CONTACT_CLOSE: &str = "020106191695fe58588b09482b9e53ecaae46db81e190d00007d32b33c";

fn contact_house() -> DHTManager {
    cache_of(vec![
        topic(
            "domo_ble_contact",
            "C1",
            obj(vec![
                ("mac_address", s("e4:aa:ec:53:9e:2b")),
                ("token", s(CONTACT_KEY)),
                ("id", s("contact-1")),
                ("area_name", s("hall")),
            ]),
        ),
        topic(
            "domo_actuator_connection",
            "D1",
            obj(vec![
                ("source_topic_name", s("domo_door_sensor")),
                ("target_topic_name", s("domo_ble_contact")),
                ("target_topic_uuid", s("C1")),
                ("target_channel_number", n(1)),
            ]),
        ),
        topic("domo_door_sensor", "D1", obj(vec![])),
        topic(
            "domo_ble_thermometer",
            "T1",
            obj(vec![
                ("mac_address", s("E4:AA:EC:53:9E:2C")),
                ("token", s(CONTACT_KEY)),
                ("name", s("thermo")),
                ("area_name", s("hall")),
            ]),
        ),
    ])
}

/// The advertisement of the contact sensor with another plaintext, sealed
/// like the one that is known.
fn contact_advertisement(plain: &[u8]) -> String {
    let known = hex::decode(CONTACT_CLOSE).unwrap();
    let nonce = vec![0x2b, 0x9e, 0x53, 0xec, 0xaa, 0xe4, 0x8b, 0x09, 0x48, 0x0d, 0x00, 0x00];
    let key = hex::decode(CONTACT_KEY).unwrap();
    let cipher = ccm::Ccm::<aes::Aes128, ccm::consts::U4, ccm::consts::U12>::new(GenericArray::from_slice(&key));
    let sealed = cipher.encrypt(GenericArray::from_slice(&nonce), Payload { msg: plain, aad: &[0x11] }).unwrap();
    let mut frame = known[..18].to_vec();
    frame.extend_from_slice(&sealed[..plain.len()]);
    frame.extend_from_slice(&[0x0d, 0x00, 0x00]);
    frame.extend_from_slice(&sealed[plain.len()..]);
    hex::encode(frame)
}

fn contact_value(status: u64, now: u64) -> Value {
    obj(vec![
        ("status", n(status)),
        ("token", s(CONTACT_KEY)),
        ("last_update_timestamp", n(now)),
        ("mac_address", s("e4:aa:ec:53:9e:2b")),
        ("id", s("contact-1")),
        ("area_name", s("hall")),
    ])
}

#[test]
fn sealed_like_the_known_advertisement() {
    // the helper gives the known advertisement for the known plaintext's state
    let dht = contact_house();
    let topic = dht.get_topic_uuid("domo_ble_contact", "C1").unwrap();
    let mut first = contact_house();
    handle_ble_contact_update(&mut first, CONTACT_CLOSE, -53, &topic, 1);
    let mut second = contact_house();
    handle_ble_contact_update(&mut second, &contact_advertisement(&[0x19, 0x10, 0x01, 0x01]), -53, &topic, 1);
    assert_eq!(writes(&first), writes(&second));
    assert_eq!(writes(&first).len(), 2);
}

#[test]
fn contact_beacon_is_written_once() {
    let mut dht = contact_house();
    let mut valves = ValveCommandManager::new();
    let payload = domo_wot_bridge::base64code::text_to_base64("");
    assert_eq!(payload, "");
    let bytes = hex::decode(CONTACT_CLOSE).unwrap();
    #[allow(deprecated)]
    let payload = base64::encode(&bytes);
    let beacon = BleBeaconMessage {
        actuator: "11:22:33:44:55:66".to_owned(),
        mac_address: "e4:aa:ec:53:9e:2b".to_owned(),
        payload,
        rssi: -53,
    };
    handle_ble_update_message(&beacon, &mut dht, &mut valves, 10);
    // the first observation is written, and the bound door sensor after it
    assert_eq!(
        writes(&dht),
        vec![
            ("domo_ble_contact".to_owned(), "C1".to_owned(), contact_value(1, 10)),
            ("domo_door_sensor".to_owned(), "D1".to_owned(), obj(vec![("status", n(1))])),
        ]
    );
    // the same beacon again writes nothing
    handle_ble_update_message(&beacon, &mut dht, &mut valves, 20);
    assert_eq!(dht.written.len(), 2);
    handle_ble_update_message(&beacon, &mut dht, &mut valves, 30);
    assert_eq!(dht.written.len(), 2);
    assert!(valves.best_actuator.is_empty());
}

#[test]
fn contact_that_opens_and_closes_is_written_twice() {
    let mut dht = cache_of(vec![contact_house().cache.remove(0)].iter().map(to_value).collect());
    let open = contact_advertisement(&[0x19, 0x10, 0x01, 0x00]);
    for (message, now) in [(open.as_str(), 1), (open.as_str(), 2), (CONTACT_CLOSE, 3), (CONTACT_CLOSE, 4)] {
        let topic = dht.get_topic_uuid("domo_ble_contact", "C1").unwrap();
        handle_ble_contact_update(&mut dht, message, -53, &topic, now);
    }
    assert_eq!(
        writes(&dht),
        vec![
            ("domo_ble_contact".to_owned(), "C1".to_owned(), contact_value(0, 1)),
            ("domo_ble_contact".to_owned(), "C1".to_owned(), contact_value(1, 3)),
        ]
    );
}

#[test]
fn contact_beacon_that_does_not_decode_writes_nothing() {
    let mut dht = contact_house();
    let topic = dht.get_topic_uuid("domo_ble_contact", "C1").unwrap();
    // a wrong signal strength changes the frame's last byte only
    handle_ble_contact_update(&mut dht, CONTACT_CLOSE, -1, &topic, 1);
    assert_eq!(dht.written.len(), 2);
    let mut dht = contact_house();
    // too short
    handle_ble_contact_update(&mut dht, &CONTACT_CLOSE[..56], -53, &topic, 1);
    // a flipped digit in the ciphertext
    let flipped = CONTACT_CLOSE.replace("6db81e19", "6db81e18");
    handle_ble_contact_update(&mut dht, &flipped, -53, &topic, 1);
    // a topic without a token
    let bare = to_json(&topic_value_without(&to_value(&topic), "token"));
    handle_ble_contact_update(&mut dht, CONTACT_CLOSE, -53, &bare, 1);
    assert!(dht.written.is_empty());
}

fn topic_value_without(topic: &Value, key: &str) -> Value {
    let mut t = topic.clone();
    t["value"].as_object_mut().unwrap().remove(key);
    t
}

#[test]
fn thermometer_beacon_is_written() {
    let head = vec![0x0b, 0x16, 0x1a, 0x18, 0x42];
    let mut nonce = vec![0x2c, 0x9e, 0x53, 0xec, 0xaa, 0xe4];
    nonce.extend_from_slice(&head);
    let key = hex::decode(CONTACT_KEY).unwrap();
    let cipher = ccm::Ccm::<aes::Aes128, ccm::consts::U4, ccm::consts::U11>::new(GenericArray::from_slice(&key));
    let sealed = cipher
        .encrypt(GenericArray::from_slice(&nonce), Payload { msg: &[0x7f, 0x5b, 0xe4], aad: &[0x11] })
        .unwrap();
    let mut frame = vec![0x02, 0x01, 0x06];
    frame.extend_from_slice(&head);
    frame.extend_from_slice(&sealed);
    let mut dht = contact_house();
    let mut valves = ValveCommandManager::new();
    #[allow(deprecated)]
    let payload = base64::encode(&frame);
    let beacon = BleBeaconMessage {
        actuator: "11:22:33:44:55:66".to_owned(),
        mac_address: "E4:AA:EC:53:9E:2C".to_owned(),
        payload,
        rssi: -40,
    };
    handle_ble_update_message(&beacon, &mut dht, &mut valves, 77);
    assert_eq!(
        writes(&dht),
        vec![(
            "domo_ble_thermometer".to_owned(),
            "T1".to_owned(),
            obj(vec![
                ("temperature", f(23.5)),
                ("humidity", f(45.5)),
                ("battery", f(100.0)),
                ("token", s(CONTACT_KEY)),
                ("mac_address", s("E4:AA:EC:53:9E:2C")),
                ("last_update_timestamp", n(77)),
                ("name", s("thermo")),
                ("area_name", s("hall")),
            ])
        )]
    );
    // the same frame by its hexadecimal text
    let mut again = contact_house();
    let topic = again.get_topic_uuid("domo_ble_thermometer", "T1").unwrap();
    handle_ble_thermometer_update(&mut again, &hex::encode(&frame), &topic, 77);
    assert_eq!(writes(&again), writes(&dht));
    // a payload that is no base64, and a frame that does not decode
    let mut dht = contact_house();
    let broken = BleBeaconMessage { payload: "!!".to_owned(), ..beacon.clone() };
    handle_ble_update_message(&broken, &mut dht, &mut valves, 78);
    handle_ble_thermometer_update(&mut dht, "0201060b161a1842", &topic, 78);
    assert!(dht.written.is_empty());
}

#[test]
fn valve_beacons_report_the_state_or_the_reach() {
    let mut dht = house();
    let mut valves = ValveCommandManager::new();
    let beacon = BleBeaconMessage::from("c0ffee000001 0 -60", "112233445566").unwrap();
    handle_ble_update_message(&beacon, &mut dht, &mut valves, 9);
    assert_eq!(to_value(&dht.written[0].value.at("status")), b(false));
    assert!(valves.best_actuator.is_empty());
    let beacon = BleBeaconMessage::from("c0ffee000001 AAAA -61", "112233445566").unwrap();
    handle_ble_update_message(&beacon, &mut dht, &mut valves, 10);
    assert_eq!(dht.written.len(), 1);
    assert_eq!(valves.get_best_actuator_for_valve("c0ffee000001").unwrap(), "11:22:33:44:55:66");
    assert_eq!(valves.best_actuator[0].1.rssi, -61);
    assert_eq!(valves.best_actuator[0].1.timestamp, 10);
    // a beacon of an unknown sensor
    let beacon = BleBeaconMessage::from("c0ffee000002 1 -61", "112233445566").unwrap();
    handle_ble_update_message(&beacon, &mut dht, &mut valves, 11);
    assert_eq!(dht.written.len(), 1);
    assert_eq!(valves.best_actuator.len(), 1);
    // the state by itself
    let topic = dht.get_topic_uuid("domo_ble_valve", "V1").unwrap();
    handle_ble_valve_update(&mut dht, "1", &topic, 12);
    assert_eq!(to_value(&dht.written[1].value.at("status")), b(true));
    handle_ble_valve_update(&mut dht, "1", &to_json(&topic_value_without(&to_value(&topic), "name")), 13);
    assert_eq!(dht.written.len(), 2);
}

#[test]
fn discovery_skips_the_second_generation() {
    let a = RecordAddress::A("10.0.1.7".to_owned());
    for name in [
        "shelly_1plus-AABBCCDDEEFF.local",
        "shelly_1pm_plus-AABBCCDDEEFF.local",
        "shelly_2pm_plus-AABBCCDDEEFF.local",
        "printer-AABBCCDDEEFF.local",
    ] {
        assert!(get_shelly_discovery_result(name, &a).is_none(), "{}", name);
    }
}

#[test]
fn discovery_reads_the_first_generation() {
    let a = RecordAddress::A("10.0.1.7".to_owned());
    let d = get_shelly_discovery_result("shelly_25-AABBCCDDEEFF.local", &a).unwrap();
    assert_eq!(d.ip_address, "10.0.1.7");
    assert_eq!(d.topic_name, "shelly_25");
    assert_eq!(d.mac_address, "AA:BB:CC:DD:EE:FF");
    assert_eq!(d.mdns_name, "shelly_25-AABBCCDDEEFF.local");
    let d = get_shelly_discovery_result("geeklink-001122334455.local", &a).unwrap();
    assert_eq!(d.topic_name, "geeklink");
    assert_eq!(d.mac_address, "00:11:22:33:44:55");
    // a record with an IPv6 address is read in the same way
    let aaaa = RecordAddress::AAAA("fe80::1".to_owned());
    let d = get_shelly_discovery_result("shelly_1-AABBCCDDEEFF.local", &aaaa).unwrap();
    assert_eq!(d.ip_address, "fe80::1");
    assert_eq!(d.topic_name, "shelly_1");
    assert_eq!(d.mac_address, "AA:BB:CC:DD:EE:FF");
    assert_eq!(d.mdns_name, "shelly_1-AABBCCDDEEFF.local");
    // the session is opened with the login that the cache holds for the device
    let dht = house();
    let known = get_shelly_discovery_result("shelly_1pm-AABBCCDDEEFF.local", &a).unwrap();
    assert_eq!(session_login(&dht, &known), Some(("user".to_owned(), "secret".to_owned())));
    let unknown = get_shelly_discovery_result("shelly_1pm-000000000000.local", &a).unwrap();
    assert_eq!(session_login(&dht, &unknown), None);
    let valve = get_shelly_discovery_result("shelly-c0ffee000001", &RecordAddress::AAAA("::1".to_owned())).unwrap();
    assert_eq!(session_login(&dht, &valve), None);
    // names that do not hold a kind and an address
    assert!(get_shelly_discovery_result("shelly_25.local", &a).is_none());
    assert!(get_shelly_discovery_result("shelly_25-AABB.local", &a).is_none());
    assert!(get_shelly_discovery_result("shelly_25.local", &aaaa).is_none());
    assert!(get_shelly_discovery_result("shelly_25-AABBCCDDEEFF.local", &RecordAddress::Other).is_none());
}

fn binding(source: &str, target: &str, uuid: &str, kind: Option<&str>) -> Json {
    let mut fields = vec![
        ("source_topic_name", s(source)),
        ("source_topic_uuid", s("SRC")),
        ("target_topic_name", s(target)),
        ("target_topic_uuid", s(uuid)),
        ("target_channel_number", n(1)),
    ];
    if let Some(k) = kind {
        fields.push(("connection_type", s(k)));
    }
    to_json(&topic("domo_actuator_connection", "SRC", obj(fields)))
}

#[test]
fn mode_by_kind() {
    let none: Vec<Json> = Vec::new();
    for kind in ["shelly_1", "shelly_1plus", "shelly_1pm", "shelly_em", "shelly_1pm_plus"] {
        assert_eq!(calculate_mode(&none, kind, "U"), 0);
    }
    assert_eq!(calculate_mode(&none, "shelly_dimmer", "U"), 2);
    assert_eq!(calculate_mode(&none, "shelly_25", "U"), 0);
    assert_eq!(calculate_mode(&none, "shelly_2pm_plus", "U"), 0);
    assert_eq!(calculate_mode(&none, "shelly_rgbw", "U"), 4);
    assert_eq!(calculate_mode(&none, "domo_unknown", "U"), 0);
}

#[test]
fn mode_by_binding() {
    let shutter = vec![binding("domo_light", "shelly_25", "U", None), binding("domo_roller_shutter", "shelly_25", "U", Some("output"))];
    assert_eq!(calculate_mode(&shutter, "shelly_25", "U"), 1);
    assert_eq!(calculate_mode(&shutter, "shelly_25", "V"), 0);
    assert_eq!(calculate_mode(&shutter, "shelly_2pm_plus", "U"), 0);
    let gate = vec![binding("domo_garage_gate", "shelly_2pm_plus", "U", None)];
    assert_eq!(calculate_mode(&gate, "shelly_2pm_plus", "U"), 1);
    let input = vec![binding("domo_roller_shutter", "shelly_25", "U", Some("input"))];
    assert_eq!(calculate_mode(&input, "shelly_25", "U"), 0);
    let rgbw = vec![binding("domo_rgbw_light", "shelly_rgbw", "U", None)];
    assert_eq!(calculate_mode(&rgbw, "shelly_rgbw", "U"), 3);
    let dimmed = vec![binding("domo_light_dimmable", "shelly_rgbw", "U", None)];
    assert_eq!(calculate_mode(&dimmed, "shelly_rgbw", "U"), 4);
    // a plain relay stays a relay whatever is bound to it
    let relay = vec![binding("domo_roller_shutter", "shelly_1pm", "U", None)];
    assert_eq!(calculate_mode(&relay, "shelly_1pm", "U"), 0);
    // the identifier of the source plays no part
    let partial = vec![to_json(&topic(
        "domo_actuator_connection",
        "SRC",
        obj(vec![
            ("source_topic_name", s("domo_roller_shutter")),
            ("target_topic_name", s("shelly_25")),
            ("target_topic_uuid", s("U")),
        ]),
    ))];
    assert_eq!(calculate_mode(&partial, "shelly_25", "U"), 1);
    let gate = vec![to_json(&obj(vec![(
        "value",
        obj(vec![
            ("connection_type", s("output")),
            ("source_topic_name", s("domo_garage_gate")),
            ("target_topic_name", s("shelly_2pm_plus")),
            ("target_topic_uuid", s("S1")),
            ("target_channel_number", n(1)),
        ]),
    )]))];
    assert_eq!(calculate_mode(&gate, "shelly_2pm_plus", "S1"), 1);
    // a binding without the kind of its source asks for nothing
    let nameless = vec![to_json(&topic(
        "domo_actuator_connection",
        "SRC",
        obj(vec![("target_topic_name", s("shelly_25")), ("target_topic_uuid", s("U"))]),
    ))];
    assert_eq!(calculate_mode(&nameless, "shelly_25", "U"), 0);
}

#[test]
fn mode_check_asks_for_a_change_of_mode() {
    // a shelly_25 in mode 0 that drives a roller shutter has to change to mode 1
    let dht = cache_of(vec![
        topic("shelly_25", "S25", obj(vec![("mac_address", s("25:25")), ("mode", n(0))])),
        topic("shelly_1", "S1", obj(vec![("mac_address", s("01:01")), ("mode", n(0))])),
        topic("shelly_dimmer", "SD", obj(vec![("mac_address", s("dd:dd"))])),
        topic("shelly_rgbw", "SW", obj(vec![("mac_address", s("ee:ee")), ("mode", n(3)), ("inverted", b(true))])),
    ]);
    let bindings = vec![binding("domo_roller_shutter", "shelly_25", "S25", Some("output"))];
    let change = obj(vec![("shelly_action", action("change_mode", "{\"inverted\":false,\"mode\":1}"))]);
    assert_eq!(to_value(&check_mode(&bindings, &dht, "25:25").unwrap()), change);
    assert!(check_mode(&bindings, &dht, "01:01").is_none());
    assert!(check_mode(&bindings, &dht, "dd:dd").is_none());
    assert!(check_mode(&bindings, &dht, "00:00").is_none());
    let led = obj(vec![("shelly_action", action("change_mode", "{\"inverted\":true,\"mode\":4}"))]);
    assert_eq!(to_value(&check_mode(&bindings, &dht, "ee:ee").unwrap()), led);
    // once the actuator shows the mode nothing is asked
    let mut changed = cache_of(dht.cache.iter().map(to_value).collect());
    changed.write_topic("shelly_25", "S25", &to_json(&obj(vec![("mac_address", s("25:25")), ("mode", n(1))])));
    assert!(check_mode(&bindings, &changed, "25:25").is_none());

    let sessions = vec!["01:01".to_owned(), "25:25".to_owned(), "ee:ee".to_owned(), "99:99".to_owned()];
    let mut first_generation = GlobalShellyManager::new();
    for (place, mac) in sessions.iter().enumerate() {
        let ip = format!("10.0.1.{}", place);
        first_generation.insert_shelly(ShellyManager::new(&ip, "shelly", mac, "name.local", "u", "p", 0));
    }
    let requests = check_shelly_esp8266_mode(&bindings, &mut first_generation, &dht);
    // the sessions that had to change their mode are gone, the others stay in their order
    let left: Vec<&str> = first_generation.shelly_list.iter().map(|s| s.mac_address.as_str()).collect();
    assert_eq!(left, vec!["01:01", "99:99"]);
    assert_eq!(first_generation.shelly_list[1].ip, "10.0.1.3");
    // and a second check asks nothing of those that stayed
    assert!(check_shelly_esp8266_mode(&bindings, &mut first_generation, &dht).is_empty());
    assert_eq!(first_generation.shelly_list.len(), 2);
    assert_eq!(requests.len(), 2);
    assert_eq!(requests[0].session, 1);
    assert_eq!(
        to_value(&requests[0].message),
        obj(vec![("messageType", s("requestAction")), ("data", change.clone())])
    );
    assert_eq!(requests[1].session, 2);
    let commands = check_shelly_esp32_mode(&bindings, &sessions, &dht);
    assert_eq!(commands.len(), 2);
    assert_eq!(commands[0].command_type, ESP32CommandType::Actuator);
    assert_eq!(commands[0].mac_address, "25:25");
    assert_eq!(commands[0].actuator_mac_address, "");
    assert_eq!(to_value(&commands[0].payload), change);
    assert_eq!(commands[1].mac_address, "ee:ee");
}

#[test]
fn ping_command_is_for_every_session() {
    let ping = ping_command();
    assert_eq!(ping.command_type, ESP32CommandType::Ping);
    assert_eq!(ping.mac_address, "");
    assert_eq!(ping.actuator_mac_address, "");
    assert_eq!(to_value(&ping.payload), obj(vec![]));
}

#[test]
fn first_generation_session() {
    let mut session = ShellyManager::new("10.0.1.7", "shelly_25", "AA:BB:CC:DD:EE:FF", "shelly_25-AABBCCDDEEFF.local", "user", "secret", 1_000);
    assert_eq!(session.url, "wss://shelly_25-AABBCCDDEEFF.local/things/shelly_25-AABBCCDDEEFF");
    assert_eq!(session.ip, "10.0.1.7");
    assert_eq!(session.mac_address, "AA:BB:CC:DD:EE:FF");
    assert_eq!(session.last_pong_timestamp, 1_000);
    assert_eq!(session.last_action_timestamp, 0);
    assert_eq!(authorization_header("user", "secret"), "Basic dXNlcjpzZWNyZXQ=");
    assert_eq!(
        to_value(&get_update_message()),
        request(action("get_status_update", "{}"))
    );
    assert!(!gives_up(0) && !gives_up(1) && gives_up(2));
    // 60 seconds without a pong are no timeout, more are
    assert!(!session.needs_reconnect(61_000));
    assert!(session.needs_reconnect(61_001));
    assert!(!session.needs_reconnect(0));
    assert!(matches!(session.wait_for_shelly_message(Frame::Pong, 50_000), FrameOutcome::Continue));
    assert_eq!(session.last_pong_timestamp, 50_000);
    assert!(!session.needs_reconnect(61_001));
    match session.wait_for_shelly_message(Frame::Text("{}".to_owned()), 50_001) {
        FrameOutcome::Message(t) => assert_eq!(t, "{}"),
        _ => panic!("no message"),
    }
    assert!(matches!(session.wait_for_shelly_message(Frame::Ping, 50_002), FrameOutcome::Continue));
    assert!(matches!(session.wait_for_shelly_message(Frame::Other, 50_002), FrameOutcome::Continue));
    assert_eq!(session.last_pong_timestamp, 50_000);
    for frame in [Frame::Close, Frame::Failed] {
        match session.wait_for_shelly_message(frame, 50_003) {
            FrameOutcome::Closed(mac) => assert_eq!(mac, "AA:BB:CC:DD:EE:FF"),
            _ => panic!("not closed"),
        }
    }
    session.send_action(60_000);
    assert_eq!(session.last_action_timestamp, 60_000);
    session.reconnect(70_000);
    assert_eq!((session.last_pong_timestamp, session.last_action_timestamp), (70_000, 0));
}

#[test]
fn first_generation_sessions() {
    let a = RecordAddress::A("10.0.1.7".to_owned());
    let found = get_shelly_discovery_result("shelly_25-AABBCCDDEEFF.local", &a).unwrap();
    let mut all = GlobalShellyManager::new();
    assert!(all.is_new(&found));
    let open = |mac: &str, ip: &str, now: u64| ShellyManager::new(ip, "shelly_25", mac, "name.local", "u", "p", now);
    assert!(all.insert_shelly(open("AA:BB:CC:DD:EE:FF", "10.0.1.7", 0)));
    assert!(!all.is_new(&found));
    // a device is known by its address, also where its address on the network has changed
    let moved = get_shelly_discovery_result("shelly_25-AABBCCDDEEFF.local", &RecordAddress::A("10.0.1.8".to_owned()))
        .unwrap();
    assert!(!all.is_new(&moved));
    assert!(all.insert_shelly(open("11:11:11:11:11:11", "10.0.1.9", 50_000)));
    // and gets no second session
    assert!(!all.insert_shelly(open("AA:BB:CC:DD:EE:FF", "10.0.1.8", 100_000)));
    assert!(!all.insert_shelly(open("AA:BB:CC:DD:EE:FF", "10.0.1.7", 100_000)));
    assert_eq!(all.shelly_list.len(), 2);
    assert_eq!(all.shelly_list[0].ip, "10.0.1.7");
    assert_eq!(all.shelly_list[0].last_pong_timestamp, 0);
    assert!(all.insert_shelly(open("22:22:22:22:22:22", "10.0.1.8", 100_000)));
    assert_eq!(all.send_action("AA:BB:CC:DD:EE:FF"), vec![0]);
    assert_eq!(all.send_action("11:11:11:11:11:11"), vec![1]);
    assert_eq!(all.send_action("22:22:22:22:22:22"), vec![2]);
    assert!(all.send_action("33:33:33:33:33:33").is_empty());
    assert!(all.check_if_reconnect_needed(60_000).is_empty());
    assert_eq!(all.check_if_reconnect_needed(60_001), vec![0]);
    assert_eq!(all.check_if_reconnect_needed(110_000), vec![0]);
    assert_eq!(all.check_if_reconnect_needed(110_001), vec![0, 1]);
    assert_eq!(all.check_if_reconnect_needed(200_000), vec![0, 1, 2]);
    // a stale session that was connected anew starts over
    all.shelly_list[1].send_action(70_000);
    all.reconnected(1, true, 120_000);
    assert_eq!(all.shelly_list.len(), 3);
    assert_eq!(all.shelly_list[1].mac_address, "11:11:11:11:11:11");
    assert_eq!(all.shelly_list[1].ip, "10.0.1.9");
    assert_eq!(all.shelly_list[1].url, "wss://name.local/things/shelly_25-111111111111");
    assert_eq!(all.shelly_list[1].last_pong_timestamp, 120_000);
    assert_eq!(all.shelly_list[1].last_action_timestamp, 0);
    assert_eq!(all.shelly_list[0].last_pong_timestamp, 0);
    assert_eq!(all.shelly_list[2].last_pong_timestamp, 100_000);
    assert_eq!(all.check_if_reconnect_needed(170_000), vec![0, 2]);
    // one that could not be connected is dropped
    all.reconnected(0, false, 170_000);
    let left: Vec<&str> = all.shelly_list.iter().map(|s| s.mac_address.as_str()).collect();
    assert_eq!(left, vec!["11:11:11:11:11:11", "22:22:22:22:22:22"]);
    // a place beyond the list names no session
    all.reconnected(2, false, 170_000);
    all.reconnected(7, true, 170_000);
    assert_eq!(all.shelly_list.len(), 2);
    assert_eq!(all.shelly_list[1].last_pong_timestamp, 100_000);
    // the device that lost its session is new again
    assert!(all.is_new(&found));
    assert!(all.insert_shelly(open("AA:BB:CC:DD:EE:FF", "10.0.1.8", 180_000)));
    // a failure that names no address drops nothing
    all.wait_for_shelly_message("no messages");
    assert_eq!(all.shelly_list.len(), 3);
    // one that names an address drops the session of that device
    all.wait_for_shelly_message("11:11:11:11:11:11");
    let left: Vec<&str> = all.shelly_list.iter().map(|s| s.mac_address.as_str()).collect();
    assert_eq!(left, vec!["22:22:22:22:22:22", "AA:BB:CC:DD:EE:FF"]);
    all.wait_for_shelly_message("33:33:33:33:33:33");
    assert_eq!(all.shelly_list.len(), 2);
    // sessions are dropped by their places
    assert!(all.insert_shelly(open("44:44:44:44:44:44", "10.0.1.4", 0)));
    assert!(all.insert_shelly(open("55:55:55:55:55:55", "10.0.1.5", 0)));
    all.drop_sessions(&vec![3, 0, 9, 3]);
    let left: Vec<&str> = all.shelly_list.iter().map(|s| s.mac_address.as_str()).collect();
    assert_eq!(left, vec!["AA:BB:CC:DD:EE:FF", "44:44:44:44:44:44"]);
    assert_eq!(all.shelly_list[0].ip, "10.0.1.8");
    assert_eq!(all.shelly_list[0].last_pong_timestamp, 180_000);
    all.drop_sessions(&vec![]);
    assert_eq!(all.shelly_list.len(), 2);
    all.drop_sessions(&vec![1, 0]);
    assert!(all.shelly_list.is_empty());
}

#[test]
fn status_of_a_second_generation_actuator() {
    let telemetry = obj(vec![
        ("mac_address", s("112233445566")),
        ("output1", b(true)),
        ("updated_properties", texts(vec!["output1"])),
    ]);
    let (only_beacons, beacons) = parse_esp32_message(&to_json(&telemetry));
    assert!(!only_beacons && beacons.is_empty());
    let beacon = obj(vec![
        ("mac_address", s("112233445566")),
        ("beacon_adv", s("e4aaec539e2b AgEG -53")),
        ("valve_operation", s("c0ffee000001 1 -60")),
        ("updated_properties", texts(vec!["valve_operation", "beacon_adv"])),
    ]);
    let (only_beacons, beacons) = parse_esp32_message(&to_json(&beacon));
    assert!(only_beacons);
    assert_eq!(beacons.len(), 2);
    assert_eq!(beacons[0].mac_address, "c0ffee000001");
    assert_eq!(beacons[0].payload, "1");
    assert_eq!(beacons[0].rssi, -60);
    assert_eq!(beacons[0].actuator, "11:22:33:44:55:66");
    assert_eq!(beacons[1].mac_address, "e4aaec539e2b");
    assert_eq!(beacons[1].payload, "AgEG");
    assert_eq!(beacons[1].rssi, -53);
    let both = obj(vec![
        ("mac_address", s("112233445566")),
        ("beacon_adv", s("e4aaec539e2b AgEG -53")),
        ("updated_properties", texts(vec!["beacon_adv", "output1", "valve_operation"])),
    ]);
    let (only_beacons, beacons) = parse_esp32_message(&to_json(&both));
    assert!(!only_beacons);
    assert_eq!(beacons.len(), 1);
    let (only_beacons, beacons) = parse_esp32_message(&to_json(&obj(vec![("updated_properties", texts(vec![]))])));
    assert!(only_beacons && beacons.is_empty());
    let (only_beacons, beacons) = parse_esp32_message(&to_json(&obj(vec![("mac_address", s("112233445566"))])));
    assert!(!only_beacons && beacons.is_empty());
    let (only_beacons, beacons) = parse_esp32_message(&to_json(&obj(vec![("updated_properties", s("beacon_adv"))])));
    assert!(!only_beacons && beacons.is_empty());
}

fn esp32_command(kind: ESP32CommandType, mac: &str, actuator: &str, payload: Value) -> SessionEvent {
    SessionEvent::Command(ESP32CommandMessage {
        command_type: kind,
        mac_address: mac.to_owned(),
        payload: to_json(&payload),
        actuator_mac_address: actuator.to_owned(),
    })
}

#[test]
fn second_generation_session() {
    let server = WssManager::new(5000);
    assert_eq!(server.http_port, 5000);
    let cred = to_json(&obj(vec![("mac_address", s("11:22:33:44:55:66")), ("topic", s("shelly_2pm_plus"))]));
    let mut session = Esp32Session::new(&cred, 1_000);
    assert_eq!(session.mac_address, "11:22:33:44:55:66");
    assert_eq!(Esp32Session::new(&Json::Null, 0).mac_address, "");
    let payload = obj(vec![("shelly_action", action("set_output", "{}"))]);
    let sent = request(action("set_output", "{}"));
    let run = |session: &mut Esp32Session, event: SessionEvent, now: u64| {
        match WssManager::handle_websocket_req(session, event, now) {
            SessionAction::Send(m) => format!("send {}", to_value(&m)),
            SessionAction::Ping => "ping".to_owned(),
            SessionAction::Read(t) => format!("read {}", t),
            SessionAction::Close => "close".to_owned(),
            SessionAction::Nothing => "nothing".to_owned(),
        }
    };
    let mine = "11:22:33:44:55:66";
    let actuator = |mac: &str| esp32_command(ESP32CommandType::Actuator, mac, "", payload.clone());
    assert_eq!(run(&mut session, actuator(mine), 2_000), format!("send {}", sent));
    assert_eq!(run(&mut session, actuator("66:55"), 2_000), "nothing");
    let valve = |by: &str| esp32_command(ESP32CommandType::Valve, "c0ffee000001", by, payload.clone());
    assert_eq!(run(&mut session, valve(mine), 2_000), format!("send {}", sent));
    assert_eq!(run(&mut session, valve("66:55"), 2_000), "nothing");
    let empty = esp32_command(ESP32CommandType::Actuator, mine, "", obj(vec![]));
    assert_eq!(run(&mut session, empty, 2_000), "nothing");
    let ping = || esp32_command(ESP32CommandType::Ping, "", "", obj(vec![]));
    assert_eq!(run(&mut session, ping(), 61_000), "ping");
    assert_eq!(run(&mut session, ping(), 61_001), "close");
    assert_eq!(run(&mut session, SessionEvent::Frame(Frame::Pong), 61_000), "nothing");
    assert_eq!(session.last_pong_timestamp, 61_000);
    assert_eq!(run(&mut session, ping(), 62_000), "ping");
    assert_eq!(run(&mut session, SessionEvent::Frame(Frame::Text("{}".to_owned())), 62_000), "read {}");
    assert_eq!(run(&mut session, SessionEvent::Frame(Frame::Close), 62_000), "close");
    assert_eq!(run(&mut session, SessionEvent::Frame(Frame::Ping), 62_000), "nothing");
    assert_eq!(session.last_pong_timestamp, 61_000);
}
