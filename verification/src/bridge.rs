//! What the bridge does with one event: telemetry of an actuator, a BLE
//! beacon, a discovered device, a command of the cache, a tick of a timer.

use crate::actuator_connection::{binding_of, Topic};
use crate::base64code::{base64_decoded, base64_to_bytes};
use crate::bleutils::{atc_parsed, contact_parsed, parse_atc, parse_contact_sensor, AtcResult, ContactStatus};
use crate::dhtmanager::{
    device_kinds, found, found_among, named, written, DHTManager, DhtView, ProbeView,
};
use crate::hexcode::{bytes_to_hex, hex_text};
use crate::json::{list_view, Json, JsonView, Number};
use crate::messages::{BleBeaconMessage, BleBeaconView};
use crate::actions::{
    action_of, change_mode_payload, change_mode_text, compact_text, object1, request_action, request_of,
    shelly_action, whole,
};
use crate::keyed::{put, value_of};
use crate::messages::{ESP32CommandMessage, ESP32CommandType, ESP32CommandView};
use crate::text::{
    colon_form, contains_seq, decimal_seq, decimal_string, mac_with_colons, split_seq, str_contains, str_eq,
    str_split, str_without, strings_view, without_seq,
};
use crate::utils::{commands_view, ValveData, ValveDataView};
use crate::dhtmanager::{plus_kinds, topic_of, DHTCommand, DHTCommandView, DhtError};
use crate::messages::AuthCredMessage;
use crate::actions::empty_payload;
use crate::utils::{checked_commands, checked_queue};
use crate::topic_from_actuator_topic::{
    floor_valve_mangled, input_sensor_mangled, light_dimmable_shelly_dimmer_mangled,
    light_dimmable_shelly_rgbw_mangled, light_siren_switch_mangled, mangle_domo_floor_valve,
    mangle_domo_light_dimmable_shelly_dimmer, mangle_domo_light_dimmable_shelly_rgbw,
    mangle_domo_light_siren_switch, mangle_domo_pir_sensor_radar_sensor_button_bistable_button,
    mangle_domo_power_energy_sensor, mangle_domo_rgbw_light, mangle_domo_roller_shutter_garage_gate,
    power_energy_sensor_mangled, rgbw_light_mangled, roller_shutter_garage_gate_mangled,
    somo_window_sensor_door_sensor, window_sensor_door_sensor_mangled, MangleError,
};
use crate::globalshellymanager::{
    addresses_stand_once, lemma_without_places_by_membership, without_places, GlobalShellyManager,
};
use crate::shellymanager::ShellyView;
use crate::utils::{observed, ValveCommandManager, ValveManagerView};
use vstd::prelude::*;
use vstd::string::*;

verus! {

/// The seconds between two pings of the actuators.
pub const PING_PERIOD_SECS: u64 = 10;

/// The seconds between two checks of the actuators' modes.
pub const MODE_CHECK_PERIOD_SECS: u64 = 10;

/// The seconds between two checks of the queue of valve commands.
pub const VALVE_CHECK_PERIOD_SECS: u64 = 20;

/// The seconds that the discovery listens for before it asks again.
pub const DISCOVERY_INTERVAL_SECS: u64 = 5;

/// The port on which the actuators of the second generation connect.
pub const SERVER_PORT: u16 = 5000;

/// The source topic after the telemetry of its actuator, by the kind of the
/// source. A kind that the table does not know leaves the topic as it is.
pub open spec fn mangled(
    source: JsonView,
    source_name: Seq<char>,
    channel_number: u64,
    actuator: JsonView,
    target: Seq<char>,
) -> Result<JsonView, MangleError> {
    let channel = decimal_seq(channel_number as nat);
    if source_name == "domo_power_energy_sensor"@ {
        power_energy_sensor_mangled(source, channel, actuator)
    } else if source_name == "domo_light_dimmable"@ && target == "shelly_dimmer"@ {
        light_dimmable_shelly_dimmer_mangled(source, actuator)
    } else if source_name == "domo_light_dimmable"@ && target == "shelly_rgbw"@ {
        light_dimmable_shelly_rgbw_mangled(source, channel_number, actuator)
    } else if source_name == "domo_rgbw_light"@ {
        rgbw_light_mangled(source, actuator)
    } else if source_name == "domo_light"@ || source_name == "domo_siren"@ || source_name == "domo_switch"@ {
        light_siren_switch_mangled(source, channel, actuator, target)
    } else if source_name == "domo_floor_valve"@ {
        floor_valve_mangled(source, channel, actuator)
    } else if source_name == "domo_roller_shutter"@ || source_name == "domo_garage_gate"@ {
        roller_shutter_garage_gate_mangled(source, actuator)
    } else if source_name == "domo_pir_sensor"@ || source_name == "domo_radar_sensor"@ || source_name
        == "domo_button"@ || source_name == "domo_bistable_button"@ {
        input_sensor_mangled(source, channel, actuator)
    } else if source_name == "domo_window_sensor"@ || source_name == "domo_door_sensor"@ {
        window_sensor_door_sensor_mangled(source, channel, actuator, target)
    } else {
        Ok(source)
    }
}

/// The value that a source topic gets from the telemetry of its actuator.
pub open spec fn projected(
    source: JsonView,
    source_name: Seq<char>,
    channel_number: u64,
    actuator: JsonView,
    target: Seq<char>,
) -> Result<JsonView, MangleError> {
    match mangled(source, source_name, channel_number, actuator, target) {
        Ok(s) => Ok(s.at("value"@)),
        Err(e) => Err(e),
    }
}

/// Projects the telemetry of an actuator onto a source topic, and gives the
/// source's new value.
pub fn get_topic_from_actuator_topic_inner(
    source_topic: Json,
    source_topic_name: &str,
    channel_number: u64,
    actuator_topic: &Json,
    target_topic_name: &str,
) -> (r: Result<Json, MangleError>)
    ensures
        match r {
            Ok(v) => projected(
                source_topic@,
                source_topic_name@,
                channel_number,
                actuator_topic@,
                target_topic_name@,
            ) == Ok::<JsonView, MangleError>(v@),
            Err(e) => projected(
                source_topic@,
                source_topic_name@,
                channel_number,
                actuator_topic@,
                target_topic_name@,
            ) == Err::<JsonView, MangleError>(e),
        },
{
    let mut source_topic = source_topic;
    let channel = decimal_string(channel_number);
    let channel_number_str = channel.as_str();
    let name = source_topic_name;
    let done = if str_eq(name, "domo_power_energy_sensor") {
        mangle_domo_power_energy_sensor(&mut source_topic, channel_number_str, actuator_topic)
    } else if str_eq(name, "domo_light_dimmable") && str_eq(target_topic_name, "shelly_dimmer") {
        mangle_domo_light_dimmable_shelly_dimmer(&mut source_topic, actuator_topic)
    } else if str_eq(name, "domo_light_dimmable") && str_eq(target_topic_name, "shelly_rgbw") {
        mangle_domo_light_dimmable_shelly_rgbw(&mut source_topic, channel_number, actuator_topic)
    } else if str_eq(name, "domo_rgbw_light") {
        mangle_domo_rgbw_light(&mut source_topic, actuator_topic)
    } else if str_eq(name, "domo_light") || str_eq(name, "domo_siren") || str_eq(name, "domo_switch") {
        mangle_domo_light_siren_switch(&mut source_topic, channel_number_str, actuator_topic, target_topic_name)
    } else if str_eq(name, "domo_floor_valve") {
        mangle_domo_floor_valve(&mut source_topic, channel_number_str, actuator_topic)
    } else if str_eq(name, "domo_roller_shutter") || str_eq(name, "domo_garage_gate") {
        mangle_domo_roller_shutter_garage_gate(&mut source_topic, actuator_topic)
    } else if str_eq(name, "domo_pir_sensor") || str_eq(name, "domo_radar_sensor") || str_eq(
        name,
        "domo_button",
    ) || str_eq(name, "domo_bistable_button") {
        mangle_domo_pir_sensor_radar_sensor_button_bistable_button(
            &mut source_topic,
            channel_number_str,
            actuator_topic,
        )
    } else if str_eq(name, "domo_window_sensor") || str_eq(name, "domo_door_sensor") {
        somo_window_sensor_door_sensor(&mut source_topic, channel_number_str, actuator_topic, target_topic_name)
    } else {
        Ok(())
    };
    match done {
        Ok(_) => Ok(source_topic.at("value")),
        Err(e) => Err(e),
    }
}

/// The value that the source topic of the cache gets from the telemetry of
/// its actuator.
pub open spec fn projected_from(
    cache: Seq<JsonView>,
    source_name: Seq<char>,
    source_uuid: Seq<char>,
    channel_number: u64,
    actuator: JsonView,
    target: Seq<char>,
) -> Result<JsonView, MangleError> {
    match found(cache, ProbeView::Uuid(source_name, source_uuid)) {
        Some(source) => projected(source, source_name, channel_number, actuator, target),
        None => Err(MangleError::NotFound),
    }
}

/// Loads a source topic and projects the telemetry of its actuator onto it.
pub fn get_topic_from_actuator_topic(
    dht_manager: &DHTManager,
    source_topic_name: &str,
    source_topic_uuid: &str,
    channel_number: u64,
    actuator_topic: &Json,
    target_topic_name: &str,
) -> (r: Result<Json, MangleError>)
    ensures
        match r {
            Ok(v) => projected_from(
                dht_manager@.cache,
                source_topic_name@,
                source_topic_uuid@,
                channel_number,
                actuator_topic@,
                target_topic_name@,
            ) == Ok::<JsonView, MangleError>(v@),
            Err(e) => projected_from(
                dht_manager@.cache,
                source_topic_name@,
                source_topic_uuid@,
                channel_number,
                actuator_topic@,
                target_topic_name@,
            ) == Err::<JsonView, MangleError>(e),
        },
{
    match dht_manager.get_topic_uuid(source_topic_name, source_topic_uuid) {
        Ok(source_topic) => get_topic_from_actuator_topic_inner(
            source_topic,
            source_topic_name,
            channel_number,
            actuator_topic,
            target_topic_name,
        ),
        Err(_) => Err(MangleError::NotFound),
    }
}

/// The bridge's picture after one binding has seen the telemetry of an
/// actuator: where the binding is to that actuator and the projection gives
/// a value, the source is written.
pub open spec fn propagated(
    d: DhtView,
    binding: JsonView,
    name: Seq<char>,
    uuid: Seq<char>,
    actuator: JsonView,
) -> DhtView {
    match binding_of(binding) {
        Some(b) => if b.target_topic_uuid == uuid && b.target_topic_name == name {
            match projected_from(
                d.cache,
                b.source_topic_name,
                b.topic_uuid,
                b.target_channel_number,
                actuator,
                b.target_topic_name,
            ) {
                Ok(status) => written(d, b.source_topic_name, b.topic_uuid, status),
                Err(_) => d,
            }
        } else {
            d
        },
        None => d,
    }
}

/// The bridge's picture after the bindings from `k` on have seen the
/// telemetry, one after the other.
pub open spec fn fanned_out(
    d: DhtView,
    bindings: Seq<JsonView>,
    name: Seq<char>,
    uuid: Seq<char>,
    actuator: JsonView,
    k: int,
) -> DhtView
    decreases bindings.len() - k,
{
    if k < 0 || k >= bindings.len() {
        d
    } else {
        fanned_out(propagated(d, bindings[k], name, uuid, actuator), bindings, name, uuid, actuator, k + 1)
    }
}

/// The bridge's picture after all bindings of the cache have seen the
/// telemetry of an actuator.
pub open spec fn connections_updated(d: DhtView, name: Seq<char>, uuid: Seq<char>, actuator: JsonView) -> DhtView {
    fanned_out(d, named(d.cache, "domo_actuator_connection"@), name, uuid, actuator, 0)
}

/// Writes every source topic that is bound to an actuator, from the
/// actuator's telemetry.
pub fn update_actuator_connection(
    dht_manager: &mut DHTManager,
    topic_name: &str,
    topic_uuid: &str,
    actuator_topic: &Json,
)
    ensures
        final(dht_manager)@ == connections_updated(old(dht_manager)@, topic_name@, topic_uuid@, actuator_topic@),
{
    let topics = dht_manager.get_topic_name("domo_actuator_connection");
    let ghost bindings = list_view(topics@);
    let mut i: usize = 0;
    while i < topics.len()
        invariant
            i <= topics.len(),
            bindings == list_view(topics@),
            fanned_out(old(dht_manager)@, bindings, topic_name@, topic_uuid@, actuator_topic@, 0) == fanned_out(
                dht_manager@,
                bindings,
                topic_name@,
                topic_uuid@,
                actuator_topic@,
                i as int,
            ),
        decreases topics.len() - i,
    {
        assert(bindings[i as int] == topics@[i as int]@);
        match Topic::deserialize(&topics[i]) {
            Ok(b) => {
                if str_eq(topic_uuid, b.value.target_topic_uuid) && str_eq(topic_name, b.value.target_topic_name) {
                    match get_topic_from_actuator_topic(
                        dht_manager,
                        b.value.source_topic_name,
                        b.topic_uuid,
                        b.value.target_channel_number,
                        actuator_topic,
                        b.value.target_topic_name,
                    ) {
                        Ok(status) => {
                            dht_manager.write_topic(b.value.source_topic_name, b.topic_uuid, &status);
                        },
                        Err(_) => {},
                    }
                }
            },
            Err(_) => {},
        }
        i += 1;
    }
}

/// The status text of a message that reports properties: it is JSON inside
/// the JSON message, still to be read.
pub open spec fn property_status_of(message: JsonView) -> Option<Seq<char>> {
    if message.at("messageType"@).as_text() == Some("propertyStatus"@) {
        message.at("data"@).at("status"@).as_text()
    } else {
        None
    }
}

/// The status text of a message, where the message reports properties.
pub fn property_status(shelly_message: &Json) -> (r: Option<String>)
    ensures
        match r {
            Some(s) => property_status_of(shelly_message@) == Some(s@),
            None => property_status_of(shelly_message@) is None,
        },
{
    match shelly_message.at("messageType").as_str() {
        Some(kind) => {
            if !str_eq(kind, "propertyStatus") {
                return None;
            }
        },
        None => {
            return None;
        },
    }
    match shelly_message.at_in("data", "status").as_str() {
        Some(s) => Some(String::from_str(s)),
        None => None,
    }
}

/// The status as it is written: with the login, the password, the address
/// and the identifier that the cache holds for the device, and the time.
pub open spec fn merged_status(status: JsonView, cached: JsonView, now: u64) -> JsonView {
    status.with("user_login"@, cached.at("user_login"@)).with("user_password"@, cached.at("user_password"@)).with(
        "mac_address"@,
        cached.at("mac_address"@),
    ).with("id"@, cached.at("id"@)).with("last_update_timestamp"@, whole(now))
}

/// The topic that a status is about: the device of the kind that the
/// status names, with the address that the status names.
pub open spec fn status_topic(cache: Seq<JsonView>, status: JsonView) -> Option<JsonView> {
    match (status.at("mac_address"@).as_text(), status.at("topic_name"@).as_text()) {
        (Some(mac), Some(name)) => match colon_form(mac) {
            Some(address) => found(cache, ProbeView::Mac(name, address)),
            None => None,
        },
        _ => None,
    }
}

/// Whether the cached topic of a device holds what a status is merged
/// with: login, password and address as texts, an identifier of its own,
/// and a text as the topic's identifier.
pub open spec fn is_known_device(topic: JsonView) -> bool {
    let value = topic.at("value"@);
    &&& value.at("user_login"@).as_text() is Some
    &&& value.at("user_password"@).as_text() is Some
    &&& value.at("mac_address"@).as_text() is Some
    &&& value.get("id"@) is Some
    &&& topic.at("topic_uuid"@).as_text() is Some
}

/// The bridge's picture after the status of an actuator: the device's topic
/// is written, and then every source that is bound to it. A status of a
/// device that the cache does not know changes nothing.
pub open spec fn status_handled(d: DhtView, status: JsonView, now: u64) -> DhtView {
    match status_topic(d.cache, status) {
        Some(topic) => if is_known_device(topic) {
            let name = status.at("topic_name"@).as_text().unwrap();
            let uuid = topic.at("topic_uuid"@).as_text().unwrap();
            let merged = merged_status(status, topic.at("value"@), now);
            connections_updated(written(d, name, uuid, merged), name, uuid, merged)
        } else {
            d
        },
        None => d,
    }
}

/// Handles the status of an actuator, given as the JSON that the status
/// text of its message holds, at a time in milliseconds.
pub fn handle_shelly_message(status_result: &Json, dht_manager: &mut DHTManager, now: u64)
    ensures
        final(dht_manager)@ == status_handled(old(dht_manager)@, status_result@, now),
{
    let mac_field = status_result.at("mac_address");
    let name_field = status_result.at("topic_name");
    let (mac_address, topic_name) = match (mac_field.as_str(), name_field.as_str()) {
        (Some(m), Some(n)) => (m, n),
        _ => {
            return ;
        },
    };
    let address = match mac_with_colons(mac_address) {
        Some(a) => a,
        None => {
            return ;
        },
    };
    let topic = match dht_manager.get_topic(topic_name, address.as_str()) {
        Ok(t) => t,
        Err(_) => {
            return ;
        },
    };
    let value = topic.at("value");
    let uuid_field = topic.at("topic_uuid");
    let topic_uuid = match uuid_field.as_str() {
        Some(u) => u,
        None => {
            return ;
        },
    };
    if value.at("user_login").as_str().is_none() || value.at("user_password").as_str().is_none() || value.at(
        "mac_address",
    ).as_str().is_none() || value.get("id").is_none() {
        return ;
    }
    let mut new_status = status_result.duplicate();
    new_status.set("user_login", value.at("user_login"));
    new_status.set("user_password", value.at("user_password"));
    new_status.set("mac_address", value.at("mac_address"));
    new_status.set("id", value.at("id"));
    new_status.set("last_update_timestamp", Json::Number(Number::Unsigned(now)));
    dht_manager.write_topic(topic_name, topic_uuid, &new_status);
    update_actuator_connection(dht_manager, topic_name, topic_uuid, &new_status);
}

/// A fraction as a JSON value, given in millionths.
pub open spec fn fraction(micros: int) -> JsonView {
    JsonView::Number(Number::Micros(micros as i64))
}

/// The value of a thermometer topic after a reading.
pub open spec fn thermometer_value(
    reading: AtcResult,
    token: Seq<char>,
    mac: Seq<char>,
    now: u64,
    name: Seq<char>,
    area: Seq<char>,
) -> JsonView {
    JsonView::Null.with("temperature"@, fraction(reading.temperature * 10_000)).with(
        "humidity"@,
        fraction(reading.humidity * 10_000),
    ).with("battery"@, fraction(reading.battery * 1_000_000)).with("token"@, JsonView::Text(token)).with(
        "mac_address"@,
        JsonView::Text(mac),
    ).with("last_update_timestamp"@, whole(now)).with("name"@, JsonView::Text(name)).with(
        "area_name"@,
        JsonView::Text(area),
    )
}

/// The bridge's picture after the advertisement of a thermometer, given as
/// hexadecimal text with the thermometer's topic: where token, address,
/// name and area are texts and the advertisement decodes, the reading is
/// written.
pub open spec fn thermometer_updated(d: DhtView, message: Seq<char>, topic: JsonView, now: u64) -> DhtView {
    let v = topic.at("value"@);
    match (
        topic.at("topic_uuid"@).as_text(),
        v.at("token"@).as_text(),
        v.at("mac_address"@).as_text(),
        v.at("name"@).as_text(),
        v.at("area_name"@).as_text(),
    ) {
        (Some(uuid), Some(token), Some(mac), Some(name), Some(area)) => match atc_parsed(mac, message, token) {
            Ok(reading) => written(
                d,
                "domo_ble_thermometer"@,
                uuid,
                thermometer_value(reading, token, mac, now, name, area),
            ),
            Err(_) => d,
        },
        _ => d,
    }
}

/// Handles the advertisement of a thermometer.
pub fn handle_ble_thermometer_update(dht_manager: &mut DHTManager, message: &str, topic: &Json, now: u64)
    ensures
        final(dht_manager)@ == thermometer_updated(old(dht_manager)@, message@, topic@, now),
{
    let uuid_field = topic.at("topic_uuid");
    let token_field = topic.at_in("value", "token");
    let mac_field = topic.at_in("value", "mac_address");
    let name_field = topic.at_in("value", "name");
    let area_field = topic.at_in("value", "area_name");
    match (uuid_field.as_str(), token_field.as_str(), mac_field.as_str(), name_field.as_str(), area_field.as_str()) {
        (Some(topic_uuid), Some(token), Some(mac_address), Some(name), Some(area_name)) => {
            match parse_atc(mac_address, message, token) {
                Ok(m) => {
                    let temperature: i64 = m.temperature as i64 * 10_000;
                    let humidity: i64 = m.humidity as i64 * 10_000;
                    let battery: i64 = m.battery as i64 * 1_000_000;
                    let mut value = Json::Null;
                    value.set("temperature", Json::Number(Number::Micros(temperature)));
                    value.set("humidity", Json::Number(Number::Micros(humidity)));
                    value.set("battery", Json::Number(Number::Micros(battery)));
                    value.set("token", Json::text(token));
                    value.set("mac_address", Json::text(mac_address));
                    value.set("last_update_timestamp", Json::Number(Number::Unsigned(now)));
                    value.set("name", Json::text(name));
                    value.set("area_name", Json::text(area_name));
                    dht_manager.write_topic("domo_ble_thermometer", topic_uuid, &value);
                },
                Err(_) => {},
            }
        },
        _ => {},
    }
}

/// The signal strength as the one byte that ends a contact sensor's frame.
pub open spec fn rssi_byte(rssi: i64) -> u8 {
    (rssi % 256) as u8
}

/// The frame of a contact sensor as it is decoded: a length byte of `1d`,
/// the advertisement, and the signal strength as one byte.
pub open spec fn contact_frame(message: Seq<char>, rssi: i64) -> Seq<char> {
    "1d"@ + message + hex_text(seq![rssi_byte(rssi)])
}

/// The number that a contact state is written as: 0 is open, 1 is closed.
pub open spec fn contact_number(state: ContactStatus) -> u64 {
    match state {
        ContactStatus::Open => 0,
        ContactStatus::Close => 1,
    }
}

/// The value of a contact sensor's topic after a reading.
pub open spec fn contact_value(
    status: u64,
    token: Seq<char>,
    now: u64,
    mac: Seq<char>,
    id: Seq<char>,
    area: Seq<char>,
) -> JsonView {
    JsonView::Null.with("status"@, whole(status)).with("token"@, JsonView::Text(token)).with(
        "last_update_timestamp"@,
        whole(now),
    ).with("mac_address"@, JsonView::Text(mac)).with("id"@, JsonView::Text(id)).with(
        "area_name"@,
        JsonView::Text(area),
    )
}

/// The bridge's picture after the advertisement of a contact sensor, given
/// as hexadecimal text of at least 58 digits with the signal strength and
/// the sensor's topic. Where the advertisement decodes to a state that the
/// topic does not show yet, the state is written, and then every source
/// that is bound to the sensor.
pub open spec fn contact_updated(d: DhtView, message: Seq<char>, rssi: i64, topic: JsonView, now: u64) -> DhtView {
    let v = topic.at("value"@);
    if message.len() < 58 {
        d
    } else {
        match (
            topic.at("topic_uuid"@).as_text(),
            v.at("token"@).as_text(),
            v.at("id"@).as_text(),
            v.at("mac_address"@).as_text(),
            v.at("area_name"@).as_text(),
        ) {
            (Some(uuid), Some(token), Some(id), Some(mac), Some(area)) => match contact_parsed(
                mac,
                contact_frame(message, rssi),
                token,
            ) {
                Ok(m) => if v.at("status"@).as_u64() == Some(contact_number(m.state)) {
                    d
                } else {
                    let value = contact_value(contact_number(m.state), token, now, mac, id, area);
                    connections_updated(
                        written(d, "domo_ble_contact"@, uuid, value),
                        "domo_ble_contact"@,
                        uuid,
                        value,
                    )
                },
                Err(_) => d,
            },
            _ => d,
        }
    }
}

fn byte_of_rssi(rssi: i64) -> (b: u8)
    ensures
        b == rssi_byte(rssi),
{
    if rssi >= 0 {
        (rssi % 256) as u8
    } else {
        let below: i64 = (-(rssi + 1)) % 256;
        (255 - below) as u8
    }
}

/// Handles the advertisement of a contact sensor.
pub fn handle_ble_contact_update(
    dht_manager: &mut DHTManager,
    message: &str,
    rssi: i64,
    topic: &Json,
    now: u64,
)
    ensures
        final(dht_manager)@ == contact_updated(old(dht_manager)@, message@, rssi, topic@, now),
{
    if message.unicode_len() < 58 {
        return ;
    }
    let uuid_field = topic.at("topic_uuid");
    let token_field = topic.at_in("value", "token");
    let id_field = topic.at_in("value", "id");
    let mac_field = topic.at_in("value", "mac_address");
    let area_field = topic.at_in("value", "area_name");
    match (uuid_field.as_str(), token_field.as_str(), id_field.as_str(), mac_field.as_str(), area_field.as_str()) {
        (Some(topic_uuid), Some(token), Some(id), Some(mac_address), Some(area_name)) => {
            let mut last: Vec<u8> = Vec::new();
            last.push(byte_of_rssi(rssi));
            assert(last@ =~= seq![rssi_byte(rssi)]);
            let mut data = String::from_str("1d");
            data.append(message);
            data.append(bytes_to_hex(&last).as_str());
            match parse_contact_sensor(mac_address, data.as_str(), token) {
                Ok(m) => {
                    let val: u64 = match m.state {
                        ContactStatus::Open => 0,
                        ContactStatus::Close => 1,
                    };
                    if topic.at_in("value", "status").as_u64() == Some(val) {
                        return ;
                    }
                    let mut value = Json::Null;
                    value.set("status", Json::Number(Number::Unsigned(val)));
                    value.set("token", Json::text(token));
                    value.set("last_update_timestamp", Json::Number(Number::Unsigned(now)));
                    value.set("mac_address", Json::text(mac_address));
                    value.set("id", Json::text(id));
                    value.set("area_name", Json::text(area_name));
                    dht_manager.write_topic("domo_ble_contact", topic_uuid, &value);
                    update_actuator_connection(dht_manager, "domo_ble_contact", topic_uuid, &value);
                },
                Err(_) => {},
            }
        },
        _ => {},
    }
}

/// The value of a valve's topic after the valve reported its state.
pub open spec fn valve_value(open: bool, mac: Seq<char>, now: u64, name: Seq<char>, area: Seq<char>) -> JsonView {
    JsonView::Null.with("status"@, JsonView::Bool(open)).with("mac_address"@, JsonView::Text(mac)).with(
        "last_update_timestamp"@,
        whole(now),
    ).with("name"@, JsonView::Text(name)).with("area_name"@, JsonView::Text(area))
}

/// The bridge's picture after a valve reported its state, `1` for open:
/// where address, name and area of its topic are texts, the state is
/// written.
pub open spec fn valve_updated(d: DhtView, message: Seq<char>, topic: JsonView, now: u64) -> DhtView {
    let v = topic.at("value"@);
    match (
        topic.at("topic_uuid"@).as_text(),
        v.at("mac_address"@).as_text(),
        v.at("name"@).as_text(),
        v.at("area_name"@).as_text(),
    ) {
        (Some(uuid), Some(mac), Some(name), Some(area)) => written(
            d,
            "domo_ble_valve"@,
            uuid,
            valve_value(message == "1"@, mac, now, name, area),
        ),
        _ => d,
    }
}

/// Handles the report of a valve's state.
pub fn handle_ble_valve_update(dht_manager: &mut DHTManager, message: &str, topic: &Json, now: u64)
    ensures
        final(dht_manager)@ == valve_updated(old(dht_manager)@, message@, topic@, now),
{
    let uuid_field = topic.at("topic_uuid");
    let mac_field = topic.at_in("value", "mac_address");
    let name_field = topic.at_in("value", "name");
    let area_field = topic.at_in("value", "area_name");
    match (uuid_field.as_str(), mac_field.as_str(), name_field.as_str(), area_field.as_str()) {
        (Some(topic_uuid), Some(mac_address), Some(name), Some(area_name)) => {
            let mut value = Json::Null;
            value.set("status", Json::Bool(str_eq(message, "1")));
            value.set("mac_address", Json::text(mac_address));
            value.set("last_update_timestamp", Json::Number(Number::Unsigned(now)));
            value.set("name", Json::text(name));
            value.set("area_name", Json::text(area_name));
            dht_manager.write_topic("domo_ble_valve", topic_uuid, &value);
        },
        _ => {},
    }
}

/// The topic of the sensor that a beacon is from.
pub open spec fn beacon_topic(cache: Seq<JsonView>, beacon: BleBeaconView) -> Option<JsonView> {
    found_among(cache, device_kinds(), ProbeView::Mac(Seq::empty(), beacon.mac_address), 0)
}

/// The advertisement of a beacon as hexadecimal text, given what base64
/// made of its payload.
pub open spec fn advertisement(decoded: Option<Seq<u8>>) -> Option<Seq<char>> {
    match decoded {
        Some(bytes) => Some(hex_text(bytes)),
        None => None,
    }
}

/// Whether a beacon of a valve reports the valve's state.
pub open spec fn is_valve_state(payload: Seq<char>) -> bool {
    payload == "0"@ || payload == "1"@
}

/// The bridge's picture after a beacon, by the kind of the sensor's topic.
/// A beacon of a sensor that the cache does not know changes nothing.
pub open spec fn beacon_handled(d: DhtView, beacon: BleBeaconView, now: u64) -> DhtView {
    match beacon_topic(d.cache, beacon) {
        Some(topic) => {
            let kind = topic.at("topic_name"@).as_text();
            let adv = advertisement(base64_decoded(beacon.payload));
            let d1 = if kind == Some("domo_ble_thermometer"@) && adv is Some {
                thermometer_updated(d, adv.unwrap(), topic, now)
            } else {
                d
            };
            let d2 = if kind == Some("domo_ble_contact"@) && adv is Some {
                contact_updated(d1, adv.unwrap(), beacon.rssi, topic, now)
            } else {
                d1
            };
            if kind == Some("domo_ble_valve"@) && is_valve_state(beacon.payload) {
                valve_updated(d2, beacon.payload, topic, now)
            } else {
                d2
            }
        },
        None => d,
    }
}

/// The valve commands and the best actuators after a beacon: a beacon of a
/// valve that does not report the valve's state is an observation of the
/// valve by the actuator that forwards it.
pub open spec fn beacon_observed(v: ValveManagerView, d: DhtView, beacon: BleBeaconView, now: u64) -> ValveManagerView {
    match beacon_topic(d.cache, beacon) {
        Some(topic) => if topic.at("topic_name"@).as_text() == Some("domo_ble_valve"@) && !is_valve_state(
            beacon.payload,
        ) {
            ValveManagerView {
                valve_commands: v.valve_commands,
                best_actuator: observed(v.best_actuator, beacon.mac_address, beacon.actuator, beacon.rssi, now),
            }
        } else {
            v
        },
        None => v,
    }
}

/// Handles a BLE beacon that an actuator forwarded, at a time in
/// milliseconds.
pub fn handle_ble_update_message(
    message: &BleBeaconMessage,
    dht_manager: &mut DHTManager,
    valve_command_manager: &mut ValveCommandManager,
    now: u64,
)
    ensures
        final(dht_manager)@ == beacon_handled(old(dht_manager)@, message@, now),
        final(valve_command_manager)@ == beacon_observed(
            old(valve_command_manager)@,
            old(dht_manager)@,
            message@,
            now,
        ),
        old(valve_command_manager)@.keys_stand_once() ==> final(valve_command_manager)@.keys_stand_once(),
{
    let topic = match dht_manager.get_actuator_from_mac_address(message.mac_address.as_str()) {
        Ok(t) => t,
        Err(_) => {
            return ;
        },
    };
    let kind = topic.at("topic_name");
    let thermometer = match kind.as_str() {
        Some(k) => str_eq(k, "domo_ble_thermometer"),
        None => false,
    };
    let contact = match kind.as_str() {
        Some(k) => str_eq(k, "domo_ble_contact"),
        None => false,
    };
    let valve = match kind.as_str() {
        Some(k) => str_eq(k, "domo_ble_valve"),
        None => false,
    };
    if thermometer {
        match base64_to_bytes(message.payload.as_str()) {
            Some(bytes) => {
                let beacon_adv_string = bytes_to_hex(&bytes);
                handle_ble_thermometer_update(dht_manager, beacon_adv_string.as_str(), &topic, now);
            },
            None => {},
        }
    }
    if contact {
        match base64_to_bytes(message.payload.as_str()) {
            Some(bytes) => {
                let beacon_adv_string = bytes_to_hex(&bytes);
                handle_ble_contact_update(dht_manager, beacon_adv_string.as_str(), message.rssi, &topic, now);
            },
            None => {},
        }
    }
    if valve {
        if str_eq(message.payload.as_str(), "0") || str_eq(message.payload.as_str(), "1") {
            handle_ble_valve_update(dht_manager, message.payload.as_str(), &topic, now);
        } else {
            valve_command_manager.update_best_actuator(
                message.mac_address.as_str(),
                message.actuator.as_str(),
                message.rssi,
                now,
            );
        }
    }
}

/// A device that answered the discovery.
#[derive(Debug)]
pub struct ShellyDiscoveryResult {
    pub ip_address: String,
    pub topic_name: String,
    pub mac_address: String,
    pub mdns_name: String,
}

/// The model of a discovered device.
pub struct ShellyDiscoveryView {
    pub ip_address: Seq<char>,
    pub topic_name: Seq<char>,
    pub mac_address: Seq<char>,
    pub mdns_name: Seq<char>,
}

impl View for ShellyDiscoveryResult {
    type V = ShellyDiscoveryView;

    open spec fn view(&self) -> ShellyDiscoveryView {
        ShellyDiscoveryView {
            ip_address: self.ip_address@,
            topic_name: self.topic_name@,
            mac_address: self.mac_address@,
            mdns_name: self.mdns_name@,
        }
    }
}

/// The address that a discovery record holds, written out.
#[derive(Debug)]
pub enum RecordAddress {
    /// An IPv4 address.
    A(String),
    /// An IPv6 address.
    AAAA(String),
    /// The record holds no address.
    Other,
}

/// The model of a record's address.
pub enum RecordAddressView {
    A(Seq<char>),
    AAAA(Seq<char>),
    Other,
}

impl View for RecordAddress {
    type V = RecordAddressView;

    open spec fn view(&self) -> RecordAddressView {
        match self {
            RecordAddress::A(ip) => RecordAddressView::A(ip@),
            RecordAddress::AAAA(ip) => RecordAddressView::AAAA(ip@),
            RecordAddress::Other => RecordAddressView::Other,
        }
    }
}

/// Whether a record's name is that of a device that the bridge connects
/// to: a `shelly` or a `geeklink`, but none of the second generation, which
/// connects to the bridge by itself.
pub open spec fn is_discoverable(name: Seq<char>) -> bool {
    &&& !contains_seq(name, "shelly_1plus"@)
    &&& !contains_seq(name, "shelly_1pm_plus"@)
    &&& !contains_seq(name, "shelly_2pm_plus"@)
    &&& (contains_seq(name, "shelly"@) || contains_seq(name, "geeklink"@))
}

/// The address on the network that a record holds.
pub open spec fn record_ip(kind: RecordAddressView) -> Option<Seq<char>> {
    match kind {
        RecordAddressView::A(ip) => Some(ip),
        RecordAddressView::AAAA(ip) => Some(ip),
        RecordAddressView::Other => None,
    }
}

/// The device that a discovery record stands for. The name without `.local`
/// is the kind, a hyphen and the device address, which is put in colon
/// form. A record without an address on the network stands for no device.
pub open spec fn discovered(name: Seq<char>, kind: RecordAddressView) -> Option<ShellyDiscoveryView> {
    if !is_discoverable(name) {
        None
    } else {
        match record_ip(kind) {
            Some(ip) => {
                let parts = split_seq(without_seq(name, ".local"@), '-');
                if parts.len() < 2 {
                    None
                } else {
                    match colon_form(parts[1]) {
                        Some(mac) => Some(
                            (ShellyDiscoveryView {
                                ip_address: ip,
                                topic_name: parts[0],
                                mac_address: mac,
                                mdns_name: name,
                            }),
                        ),
                        None => None,
                    }
                }
            },
            None => None,
        }
    }
}

/// Reads a discovery record, given as its name and its address.
pub fn get_shelly_discovery_result(name: &str, kind: &RecordAddress) -> (r: Option<ShellyDiscoveryResult>)
    ensures
        match r {
            Some(d) => discovered(name@, kind@) == Some(d@),
            None => discovered(name@, kind@) is None,
        },
{
    if str_contains(name, "shelly_1plus") {
        return None;
    }
    if str_contains(name, "shelly_1pm_plus") {
        return None;
    }
    if str_contains(name, "shelly_2pm_plus") {
        return None;
    }
    if !str_contains(name, "shelly") && !str_contains(name, "geeklink") {
        return None;
    }
    let addr = match kind {
        RecordAddress::A(addr) => addr,
        RecordAddress::AAAA(addr) => addr,
        RecordAddress::Other => {
            return None;
        },
    };
    let record_name = str_without(name, ".local");
    let name_parts = str_split(record_name.as_str(), '-');
    if name_parts.len() < 2 {
        return None;
    }
    assert(strings_view(name_parts@)[0] == name_parts@[0]@);
    assert(strings_view(name_parts@)[1] == name_parts@[1]@);
    match mac_with_colons(name_parts[1].as_str()) {
        Some(mac_address) => Some(
            ShellyDiscoveryResult {
                ip_address: addr.clone(),
                topic_name: name_parts[0].clone(),
                mac_address,
                mdns_name: String::from_str(name),
            },
        ),
        None => None,
    }
}

/// The kinds of actuator that only ever work as relays.
pub open spec fn is_relay_kind(name: Seq<char>) -> bool {
    name == "shelly_1"@ || name == "shelly_1plus"@ || name == "shelly_1pm"@ || name == "shelly_em"@ || name
        == "shelly_1pm_plus"@
}

/// The mode that one binding asks of an actuator, where it asks for one:
/// shutter mode (1) of a two-channel actuator that drives a roller shutter
/// or a garage gate, RGBW mode (3) of an RGBW actuator that drives an RGBW
/// light. Only a binding of an output counts, and a binding that does not
/// say what it is counts as one. The identifier of the source plays no part.
pub open spec fn binding_mode(binding: JsonView, name: Seq<char>, uuid: Seq<char>) -> Option<u64> {
    let v = binding.at("value"@);
    let source = v.at("source_topic_name"@).as_text();
    if binding.get("value"@) is None || (v.get("connection_type"@) is Some && v.at("connection_type"@).as_text()
        != Some("output"@)) {
        None
    } else if v.at("target_topic_name"@).as_text() != Some(name) || v.at("target_topic_uuid"@).as_text() != Some(
        uuid,
    ) || source is None {
        None
    } else if (name == "shelly_25"@ || name == "shelly_2pm_plus"@) && (source == Some("domo_roller_shutter"@)
        || source == Some("domo_garage_gate"@)) {
        Some(1u64)
    } else if name == "shelly_rgbw"@ && source == Some("domo_rgbw_light"@) {
        Some(3u64)
    } else {
        None
    }
}

/// The mode that the first binding at or after `from` that asks for one
/// asks for.
pub open spec fn first_binding_mode(bindings: Seq<JsonView>, name: Seq<char>, uuid: Seq<char>, from: int) -> Option<
    u64,
>
    decreases bindings.len() - from,
{
    if from < 0 || from >= bindings.len() {
        None
    } else {
        match binding_mode(bindings[from], name, uuid) {
            Some(m) => Some(m),
            None => first_binding_mode(bindings, name, uuid, from + 1),
        }
    }
}

/// The mode that an actuator should work in, by its kind and the bindings:
/// relay (0) for the plain relays, dimmer (2) for a dimmer, what a binding
/// asks for otherwise, and without such a binding LED dimmer (4) for an
/// RGBW actuator and relay for any other.
pub open spec fn desired_mode(bindings: Seq<JsonView>, name: Seq<char>, uuid: Seq<char>) -> u64 {
    if is_relay_kind(name) {
        0
    } else if name == "shelly_dimmer"@ {
        2
    } else {
        match first_binding_mode(bindings, name, uuid, 0) {
            Some(m) => m,
            None => if name == "shelly_rgbw"@ {
                4
            } else {
                0
            },
        }
    }
}

/// Whether a binding is an output binding of an actuator to a source of a
/// kind.
pub open spec fn binds_output(binding: JsonView, name: Seq<char>, uuid: Seq<char>, source: Seq<char>) -> bool {
    let v = binding.at("value"@);
    &&& binding.get("value"@) is Some
    &&& (v.get("connection_type"@) is None || v.at("connection_type"@).as_text() == Some("output"@))
    &&& v.at("target_topic_name"@).as_text() == Some(name)
    &&& v.at("target_topic_uuid"@).as_text() == Some(uuid)
    &&& v.at("source_topic_name"@).as_text() == Some(source)
}

/// Whether some binding is an output binding of an actuator to a source of
/// a kind.
pub open spec fn is_bound_to(bindings: Seq<JsonView>, name: Seq<char>, uuid: Seq<char>, source: Seq<char>) -> bool {
    exists|i: int| 0 <= i < bindings.len() && binds_output(#[trigger] bindings[i], name, uuid, source)
}

proof fn lemma_first_binding_mode(bindings: Seq<JsonView>, name: Seq<char>, uuid: Seq<char>, from: int)
    requires
        0 <= from,
    ensures
        match first_binding_mode(bindings, name, uuid, from) {
            Some(m) => exists|i: int|
                from <= i < bindings.len() && binding_mode(#[trigger] bindings[i], name, uuid) == Some(m),
            None => forall|i: int|
                from <= i < bindings.len() ==> binding_mode(#[trigger] bindings[i], name, uuid) is None,
        },
    decreases bindings.len() - from,
{
    if from < bindings.len() && binding_mode(bindings[from], name, uuid) is None {
        lemma_first_binding_mode(bindings, name, uuid, from + 1);
    }
}

/// The kinds of actuator are different texts.
pub proof fn lemma_actuator_kinds_differ()
    ensures
        !is_relay_kind("shelly_dimmer"@),
        !is_relay_kind("shelly_25"@),
        !is_relay_kind("shelly_2pm_plus"@),
        !is_relay_kind("shelly_rgbw"@),
        "shelly_dimmer"@ != "shelly_25"@,
        "shelly_dimmer"@ != "shelly_2pm_plus"@,
        "shelly_dimmer"@ != "shelly_rgbw"@,
        "shelly_rgbw"@ != "shelly_25"@,
        "shelly_rgbw"@ != "shelly_2pm_plus"@,
{
    reveal_strlit("shelly_1");
    reveal_strlit("shelly_1plus");
    reveal_strlit("shelly_1pm");
    reveal_strlit("shelly_em");
    reveal_strlit("shelly_1pm_plus");
    reveal_strlit("shelly_dimmer");
    reveal_strlit("shelly_25");
    reveal_strlit("shelly_2pm_plus");
    reveal_strlit("shelly_rgbw");
    assert("shelly_1"@.len() == 8);
    assert("shelly_1plus"@.len() == 12);
    assert("shelly_1pm"@.len() == 10);
    assert("shelly_em"@.len() == 9);
    assert("shelly_1pm_plus"@.len() == 15);
    assert("shelly_dimmer"@.len() == 13);
    assert("shelly_25"@.len() == 9);
    assert("shelly_2pm_plus"@.len() == 15);
    assert("shelly_rgbw"@.len() == 11);
    assert("shelly_em"@[7] != "shelly_25"@[7]);
    assert("shelly_1pm_plus"@[7] != "shelly_2pm_plus"@[7]);
}

/// The mode that an actuator should work in, kind by kind. A plain relay
/// works as a relay and a dimmer as a dimmer, whatever is bound to them. A
/// two-channel actuator works as a shutter exactly when an output binding
/// ties it to a roller shutter or a garage gate, and as a relay otherwise.
/// An RGBW actuator works in RGBW mode exactly when an output binding ties
/// it to an RGBW light, and as an LED dimmer otherwise. Shutter mode is
/// that of a two-channel actuator alone.
pub proof fn lemma_desired_mode_by_kind(bindings: Seq<JsonView>, name: Seq<char>, uuid: Seq<char>)
    ensures
        is_relay_kind(name) ==> desired_mode(bindings, name, uuid) == 0,
        name == "shelly_dimmer"@ ==> desired_mode(bindings, name, uuid) == 2,
        name == "shelly_25"@ || name == "shelly_2pm_plus"@ ==> desired_mode(bindings, name, uuid) == (if is_bound_to(
            bindings,
            name,
            uuid,
            "domo_roller_shutter"@,
        ) || is_bound_to(bindings, name, uuid, "domo_garage_gate"@) {
            1u64
        } else {
            0u64
        }),
        name == "shelly_rgbw"@ ==> desired_mode(bindings, name, uuid) == (if is_bound_to(
            bindings,
            name,
            uuid,
            "domo_rgbw_light"@,
        ) {
            3u64
        } else {
            4u64
        }),
        desired_mode(bindings, name, uuid) == 1 <==> (name == "shelly_25"@ || name == "shelly_2pm_plus"@) && (
        is_bound_to(bindings, name, uuid, "domo_roller_shutter"@) || is_bound_to(
            bindings,
            name,
            uuid,
            "domo_garage_gate"@,
        )),
{
    lemma_actuator_kinds_differ();
    lemma_first_binding_mode(bindings, name, uuid, 0);
    let two_channel = name == "shelly_25"@ || name == "shelly_2pm_plus"@;
    let shutter = is_bound_to(bindings, name, uuid, "domo_roller_shutter"@) || is_bound_to(
        bindings,
        name,
        uuid,
        "domo_garage_gate"@,
    );
    let rgbw = is_bound_to(bindings, name, uuid, "domo_rgbw_light"@);
    assert forall|i: int| 0 <= i < bindings.len() implies (binding_mode(#[trigger] bindings[i], name, uuid) == Some(
        1u64,
    ) <==> two_channel && (binds_output(bindings[i], name, uuid, "domo_roller_shutter"@) || binds_output(
        bindings[i],
        name,
        uuid,
        "domo_garage_gate"@,
    ))) by {}
    assert forall|i: int| 0 <= i < bindings.len() implies (binding_mode(#[trigger] bindings[i], name, uuid) == Some(
        3u64,
    ) <==> name == "shelly_rgbw"@ && binds_output(bindings[i], name, uuid, "domo_rgbw_light"@)) by {}
    assert forall|i: int| 0 <= i < bindings.len() implies (binding_mode(#[trigger] bindings[i], name, uuid) is None
        || binding_mode(bindings[i], name, uuid) == Some(1u64) || binding_mode(bindings[i], name, uuid) == Some(
        3u64,
    )) by {}
    if two_channel && shutter {
        let i = if is_bound_to(bindings, name, uuid, "domo_roller_shutter"@) {
            choose|i: int|
                0 <= i < bindings.len() && binds_output(#[trigger] bindings[i], name, uuid, "domo_roller_shutter"@)
        } else {
            choose|i: int|
                0 <= i < bindings.len() && binds_output(#[trigger] bindings[i], name, uuid, "domo_garage_gate"@)
        };
        assert(binding_mode(bindings[i], name, uuid) == Some(1u64));
    }
    if name == "shelly_rgbw"@ && rgbw {
        let i = choose|i: int|
            0 <= i < bindings.len() && binds_output(#[trigger] bindings[i], name, uuid, "domo_rgbw_light"@);
        assert(binding_mode(bindings[i], name, uuid) == Some(3u64));
    }
}

fn mode_of_binding(binding: &Json, name: &str, uuid: &str) -> (r: Option<u64>)
    ensures
        r == binding_mode(binding@, name@, uuid@),
{
    let v = match binding.get("value") {
        Some(v) => v,
        None => {
            return None;
        },
    };
    match v.get("connection_type") {
        Some(kind) => {
            let output = match kind.as_str() {
                Some(k) => str_eq(k, "output"),
                None => false,
            };
            if !output {
                return None;
            }
        },
        None => {},
    }
    let target_name = v.at("target_topic_name");
    let target_uuid = v.at("target_topic_uuid");
    let source_name = v.at("source_topic_name");
    match (target_name.as_str(), target_uuid.as_str(), source_name.as_str()) {
        (Some(tn), Some(tu), Some(source)) => {
            if !str_eq(tn, name) || !str_eq(tu, uuid) {
                return None;
            }
            if (str_eq(name, "shelly_25") || str_eq(name, "shelly_2pm_plus")) && (str_eq(
                source,
                "domo_roller_shutter",
            ) || str_eq(source, "domo_garage_gate")) {
                return Some(1);
            }
            if str_eq(name, "shelly_rgbw") && str_eq(source, "domo_rgbw_light") {
                return Some(3);
            }
            None
        },
        _ => None,
    }
}

/// The mode that an actuator should work in.
pub fn calculate_mode(act_connections: &Vec<Json>, act_topic_name: &str, act_topic_uuid: &str) -> (r: u64)
    ensures
        r == desired_mode(list_view(act_connections@), act_topic_name@, act_topic_uuid@),
{
    let name = act_topic_name;
    if str_eq(name, "shelly_1") || str_eq(name, "shelly_1plus") || str_eq(name, "shelly_1pm") || str_eq(
        name,
        "shelly_em",
    ) || str_eq(name, "shelly_1pm_plus") {
        return 0;
    }
    if str_eq(name, "shelly_dimmer") {
        return 2;
    }
    let ghost bindings = list_view(act_connections@);
    let mut i: usize = 0;
    while i < act_connections.len()
        invariant
            i <= act_connections.len(),
            bindings == list_view(act_connections@),
            !is_relay_kind(act_topic_name@),
            act_topic_name@ != "shelly_dimmer"@,
            first_binding_mode(bindings, act_topic_name@, act_topic_uuid@, 0) == first_binding_mode(
                bindings,
                act_topic_name@,
                act_topic_uuid@,
                i as int,
            ),
        decreases act_connections.len() - i,
    {
        assert(bindings[i as int] == act_connections@[i as int]@);
        match mode_of_binding(&act_connections[i], act_topic_name, act_topic_uuid) {
            Some(m) => {
                return m;
            },
            None => {},
        }
        i += 1;
    }
    if str_eq(name, "shelly_rgbw") {
        4
    } else {
        0
    }
}

/// The action that puts an actuator into the mode it should work in, given
/// the actuator's topic; none where the topic shows that mode already, or
/// shows no mode.
pub open spec fn mode_change(bindings: Seq<JsonView>, topic: JsonView) -> Option<JsonView> {
    let v = topic.at("value"@);
    match (v.at("mode"@).as_u64(), topic.at("topic_name"@).as_text(), topic.at("topic_uuid"@).as_text()) {
        (Some(mode), Some(name), Some(uuid)) => {
            let desired = desired_mode(bindings, name, uuid);
            let inverted = match v.at("inverted"@).as_bool() {
                Some(b) => b,
                None => false,
            };
            if mode != desired {
                Some(
                    object1(
                        "shelly_action"@,
                        action_of("change_mode"@, compact_text(change_mode_payload(desired, inverted))),
                    ),
                )
            } else {
                None
            }
        },
        _ => None,
    }
}

/// The action that puts the device with an address into the mode that it
/// should work in.
pub open spec fn mode_change_for(bindings: Seq<JsonView>, cache: Seq<JsonView>, mac: Seq<char>) -> Option<
    JsonView,
> {
    match found_among(cache, device_kinds(), ProbeView::Mac(Seq::empty(), mac), 0) {
        Some(topic) => mode_change(bindings, topic),
        None => None,
    }
}

/// Checks the mode of one device against the bindings.
pub fn check_mode(actuator_connections: &Vec<Json>, dht_manager: &DHTManager, mac_address: &str) -> (r: Option<
    Json,
>)
    ensures
        match r {
            Some(a) => mode_change_for(list_view(actuator_connections@), dht_manager@.cache, mac_address@)
                == Some(a@),
            None => mode_change_for(list_view(actuator_connections@), dht_manager@.cache, mac_address@) is None,
        },
{
    let topic = match dht_manager.get_actuator_from_mac_address(mac_address) {
        Ok(t) => t,
        Err(_) => {
            return None;
        },
    };
    let name_field = topic.at("topic_name");
    let uuid_field = topic.at("topic_uuid");
    match (topic.at_in("value", "mode").as_u64(), name_field.as_str(), uuid_field.as_str()) {
        (Some(mode), Some(name), Some(uuid)) => {
            let desired = calculate_mode(actuator_connections, name, uuid);
            let inverted = match topic.at_in("value", "inverted").as_bool() {
                Some(b) => b,
                None => false,
            };
            if mode != desired {
                let mut out = Json::Null;
                out.set("shelly_action", shelly_action("change_mode", change_mode_text(desired, inverted)));
                Some(out)
            } else {
                None
            }
        },
        _ => None,
    }
}

/// A session of the first generation that has to change its mode: its
/// place in the list of sessions, and the message to send before the
/// session is dropped.
#[derive(Debug)]
pub struct ModeRequest {
    pub session: usize,
    pub message: Json,
}

/// The model of a mode request.
pub struct ModeRequestView {
    pub session: usize,
    pub message: JsonView,
}

impl View for ModeRequest {
    type V = ModeRequestView;

    open spec fn view(&self) -> ModeRequestView {
        ModeRequestView { session: self.session, message: self.message@ }
    }
}

/// The views of a list of mode requests.
pub open spec fn requests_view(r: Seq<ModeRequest>) -> Seq<ModeRequestView> {
    Seq::new(r.len(), |i: int| r[i]@)
}

/// The message around an action that a check of the mode asks for.
pub open spec fn mode_message(change: JsonView) -> JsonView {
    object1("messageType"@, JsonView::Text("requestAction"@)).with("data"@, change)
}

/// The mode requests for the first sessions of a list, in their order.
pub open spec fn esp8266_mode_requests(bindings: Seq<JsonView>, cache: Seq<JsonView>, macs: Seq<Seq<char>>) -> Seq<
    ModeRequestView,
>
    decreases macs.len(),
{
    if macs.len() == 0 {
        Seq::empty()
    } else {
        let head = esp8266_mode_requests(bindings, cache, macs.drop_last());
        match mode_change_for(bindings, cache, macs.last()) {
            Some(change) => head.push(
                ModeRequestView { session: (macs.len() - 1) as usize, message: mode_message(change) },
            ),
            None => head,
        }
    }
}

/// The device addresses of a list of sessions.
pub open spec fn session_macs(sessions: Seq<ShellyView>) -> Seq<Seq<char>> {
    Seq::new(sessions.len(), |i: int| sessions[i].mac_address)
}

/// The places that a list of mode requests names.
pub open spec fn request_places(requests: Seq<ModeRequestView>) -> Seq<usize> {
    Seq::new(requests.len(), |i: int| requests[i].session)
}

/// The sessions that stay after a check of the modes: those of whose device
/// no change of mode is asked, in their order.
pub open spec fn sessions_in_their_mode(
    bindings: Seq<JsonView>,
    cache: Seq<JsonView>,
    sessions: Seq<ShellyView>,
) -> Seq<ShellyView>
    decreases sessions.len(),
{
    if sessions.len() == 0 {
        sessions
    } else if mode_change_for(bindings, cache, sessions.last().mac_address) is Some {
        sessions_in_their_mode(bindings, cache, sessions.drop_last())
    } else {
        sessions_in_their_mode(bindings, cache, sessions.drop_last()).push(sessions.last())
    }
}

proof fn lemma_request_places_bounded(bindings: Seq<JsonView>, cache: Seq<JsonView>, macs: Seq<Seq<char>>)
    requires
        macs.len() <= usize::MAX,
    ensures
        forall|k: int|
            0 <= k < esp8266_mode_requests(bindings, cache, macs).len() ==> (#[trigger] esp8266_mode_requests(
                bindings,
                cache,
                macs,
            )[k]).session < macs.len(),
    decreases macs.len(),
{
    if macs.len() > 0 {
        lemma_request_places_bounded(bindings, cache, macs.drop_last());
    }
}

/// Dropping the sessions that a check of the modes names leaves exactly the
/// sessions of whose device no change of mode is asked.
pub proof fn lemma_mode_check_drops(bindings: Seq<JsonView>, cache: Seq<JsonView>, sessions: Seq<ShellyView>)
    requires
        sessions.len() <= usize::MAX,
    ensures
        without_places(
            sessions,
            request_places(esp8266_mode_requests(bindings, cache, session_macs(sessions))),
        ) == sessions_in_their_mode(bindings, cache, sessions),
    decreases sessions.len(),
{
    if sessions.len() > 0 {
        let head = sessions.drop_last();
        let macs = session_macs(sessions);
        assert(macs.drop_last() =~= session_macs(head));
        assert(macs.last() == sessions.last().mac_address);
        let all = esp8266_mode_requests(bindings, cache, macs);
        let before = esp8266_mode_requests(bindings, cache, session_macs(head));
        let p = request_places(all);
        let q = request_places(before);
        let last = (sessions.len() - 1) as usize;
        lemma_mode_check_drops(bindings, cache, head);
        lemma_request_places_bounded(bindings, cache, session_macs(head));
        assert forall|k: int| 0 <= k < q.len() implies q[k] < last by {
            assert(q[k] == before[k].session);
        }
        if mode_change_for(bindings, cache, sessions.last().mac_address) is Some {
            assert(p =~= q.push(last));
            assert(p[p.len() - 1] == last);
            assert(p.contains(last));
            assert forall|i: usize| i < head.len() implies #[trigger] p.contains(i) == q.contains(i) by {
                if p.contains(i) {
                    let k = choose|k: int| 0 <= k < p.len() && p[k] == i;
                    assert(k < q.len());
                    assert(q[k] == i);
                }
                if q.contains(i) {
                    let k = choose|k: int| 0 <= k < q.len() && q[k] == i;
                    assert(p[k] == i);
                }
            }
        } else {
            assert(p =~= q);
            if p.contains(last) {
                let k = choose|k: int| 0 <= k < p.len() && p[k] == last;
                assert(q[k] < last);
            }
        }
        lemma_without_places_by_membership(head, p, q);
    }
}

/// Checks the mode of the actuators of the first generation. Each session
/// that the result names by its place gets its message; these sessions
/// leave the list, since their actuators start anew, and the others stay in
/// their order.
pub fn check_shelly_esp8266_mode(
    actuator_connections: &Vec<Json>,
    shelly_manager: &mut GlobalShellyManager,
    dht_manager: &DHTManager,
) -> (r: Vec<ModeRequest>)
    ensures
        requests_view(r@) == esp8266_mode_requests(
            list_view(actuator_connections@),
            dht_manager@.cache,
            session_macs(old(shelly_manager)@),
        ),
        final(shelly_manager)@ == without_places(old(shelly_manager)@, request_places(requests_view(r@))),
        final(shelly_manager)@ == sessions_in_their_mode(
            list_view(actuator_connections@),
            dht_manager@.cache,
            old(shelly_manager)@,
        ),
        addresses_stand_once(old(shelly_manager)@) ==> addresses_stand_once(final(shelly_manager)@),
{
    let mut out: Vec<ModeRequest> = Vec::new();
    let mut places: Vec<usize> = Vec::new();
    let ghost macs = session_macs(shelly_manager@);
    let ghost bindings = list_view(actuator_connections@);
    let mut i: usize = 0;
    assert(macs.take(0) =~= Seq::empty());
    assert(places@ =~= request_places(requests_view(out@)));
    while i < shelly_manager.shelly_list.len()
        invariant
            i <= shelly_manager.shelly_list.len(),
            shelly_manager@ == old(shelly_manager)@,
            macs == session_macs(shelly_manager@),
            bindings == list_view(actuator_connections@),
            requests_view(out@) == esp8266_mode_requests(bindings, dht_manager@.cache, macs.take(i as int)),
            places@ == request_places(requests_view(out@)),
        decreases shelly_manager.shelly_list.len() - i,
    {
        let ghost before = requests_view(out@);
        let ghost before_places = places@;
        proof {
            assert(macs.take(i + 1).drop_last() =~= macs.take(i as int));
            assert(shelly_manager@[i as int] == shelly_manager.shelly_list@[i as int]@);
            assert(macs.take(i + 1).last() == shelly_manager.shelly_list@[i as int].mac_address@);
        }
        match check_mode(actuator_connections, dht_manager, shelly_manager.shelly_list[i].mac_address.as_str()) {
            Some(change) => {
                let mut message = Json::Null;
                message.set("messageType", Json::text("requestAction"));
                message.set("data", change);
                out.push(ModeRequest { session: i, message });
                places.push(i);
                assert(requests_view(out@) =~= before.push(
                    ModeRequestView { session: i, message: mode_message(change@) },
                ));
                assert(places@ =~= request_places(requests_view(out@)));
            },
            None => {},
        }
        i += 1;
    }
    assert(macs.take(i as int) =~= macs);
    proof {
        lemma_mode_check_drops(bindings, dht_manager@.cache, shelly_manager@);
    }
    shelly_manager.drop_sessions(&places);
    out
}

/// The command that asks a second-generation actuator to change its mode.
pub open spec fn mode_command(mac: Seq<char>, change: JsonView) -> ESP32CommandView {
    ESP32CommandView {
        command_type: ESP32CommandType::Actuator,
        mac_address: mac,
        payload: change,
        actuator_mac_address: Seq::empty(),
    }
}

/// The mode commands for the second-generation actuators of a list, in
/// their order.
pub open spec fn esp32_mode_commands(bindings: Seq<JsonView>, cache: Seq<JsonView>, macs: Seq<Seq<char>>) -> Seq<
    ESP32CommandView,
>
    decreases macs.len(),
{
    if macs.len() == 0 {
        Seq::empty()
    } else {
        let head = esp32_mode_commands(bindings, cache, macs.drop_last());
        match mode_change_for(bindings, cache, macs.last()) {
            Some(change) => head.push(mode_command(macs.last(), change)),
            None => head,
        }
    }
}

/// Checks the mode of the actuators of the second generation, given their
/// addresses, and gives the commands to send.
pub fn check_shelly_esp32_mode(
    actuator_connections: &Vec<Json>,
    shelly_plus_list: &Vec<String>,
    dht_manager: &DHTManager,
) -> (r: Vec<ESP32CommandMessage>)
    ensures
        commands_view(r@) == esp32_mode_commands(
            list_view(actuator_connections@),
            dht_manager@.cache,
            strings_view(shelly_plus_list@),
        ),
{
    let mut out: Vec<ESP32CommandMessage> = Vec::new();
    let ghost macs = strings_view(shelly_plus_list@);
    let ghost bindings = list_view(actuator_connections@);
    let mut i: usize = 0;
    assert(macs.take(0) =~= Seq::empty());
    while i < shelly_plus_list.len()
        invariant
            i <= shelly_plus_list.len(),
            macs == strings_view(shelly_plus_list@),
            bindings == list_view(actuator_connections@),
            commands_view(out@) == esp32_mode_commands(bindings, dht_manager@.cache, macs.take(i as int)),
        decreases shelly_plus_list.len() - i,
    {
        let ghost before = commands_view(out@);
        proof {
            assert(macs.take(i + 1).drop_last() =~= macs.take(i as int));
            assert(macs.take(i + 1).last() == shelly_plus_list@[i as int]@);
        }
        match check_mode(actuator_connections, dht_manager, shelly_plus_list[i].as_str()) {
            Some(change) => {
                out.push(
                    ESP32CommandMessage {
                        command_type: ESP32CommandType::Actuator,
                        mac_address: shelly_plus_list[i].clone(),
                        payload: change,
                        actuator_mac_address: String::new(),
                    },
                );
                assert(commands_view(out@) =~= before.push(mode_command(shelly_plus_list@[i as int]@, change@)));
            },
            None => {},
        }
        i += 1;
    }
    assert(macs.take(i as int) =~= macs);
    out
}

/// The request that a resolved actuator command makes of a session of the
/// first generation: the device's address and the message. A command that
/// lacks an address or an action makes none.
pub open spec fn shelly_request(command: JsonView) -> Option<(Seq<char>, JsonView)> {
    match (command.at("mac_address"@).as_text(), command.get("shelly_action"@)) {
        (Some(mac), Some(action)) => Some((mac, request_of(action))),
        _ => None,
    }
}

/// Turns a resolved actuator command into the message for the device's
/// session.
pub fn handle_shelly_command(shelly_command: &Json) -> (r: Option<(String, Json)>)
    ensures
        match r {
            Some((mac, message)) => shelly_request(shelly_command@) == Some((mac@, message@)),
            None => shelly_request(shelly_command@) is None,
        },
{
    let mac_field = shelly_command.at("mac_address");
    match (mac_field.as_str(), shelly_command.get("shelly_action")) {
        (Some(mac), Some(action)) => Some((String::from_str(mac), request_action(action.duplicate()))),
        _ => None,
    }
}

/// What a command of the cache makes the bridge send.
#[derive(Debug)]
pub struct Routed {
    /// The command for the sessions of the second generation.
    pub esp32: Option<ESP32CommandMessage>,
    /// The address and the message for a session of the first generation.
    pub shelly: Option<(String, Json)>,
}

/// The command that carries a resolved actuator command to the sessions of
/// the second generation.
pub open spec fn actuator_routed(value: JsonView) -> Option<ESP32CommandView> {
    match value.at("mac_address"@).as_text() {
        Some(mac) => Some(
            (ESP32CommandView {
                command_type: ESP32CommandType::Actuator,
                mac_address: mac,
                payload: value,
                actuator_mac_address: Seq::empty(),
            }),
        ),
        None => None,
    }
}

/// The command that carries a valve command through the best actuator of
/// its valve, where actuators of the second generation are connected and
/// one of them is known to reach the valve.
pub open spec fn valve_routed(v: ValveManagerView, value: JsonView, has_plus: bool) -> Option<ESP32CommandView> {
    match value.at("mac_address"@).as_text() {
        Some(mac) => match value_of(v.best_actuator, mac) {
            Some(best) => if has_plus {
                Some(
                    (ESP32CommandView {
                        command_type: ESP32CommandType::Valve,
                        mac_address: mac,
                        payload: value,
                        actuator_mac_address: best.actuator_mac_address,
                    }),
                )
            } else {
                None
            },
            None => None,
        },
        None => None,
    }
}

/// The queue of valve commands after a valve command came: with actuators
/// of the second generation connected, the command is queued, with one
/// attempt where it was sent and none where no actuator is known.
pub open spec fn valve_queued(v: ValveManagerView, value: JsonView, has_plus: bool) -> ValveManagerView {
    match value.at("mac_address"@).as_text() {
        Some(mac) => if has_plus {
            let attempts: usize = if value_of(v.best_actuator, mac) is Some {
                1
            } else {
                0
            };
            ValveManagerView {
                valve_commands: put(v.valve_commands, mac, ValveDataView { desired_state: value, attempts }),
                best_actuator: v.best_actuator,
            }
        } else {
            v
        },
        None => v,
    }
}

/// Routes a resolved command of the cache.
pub fn handle_cache_command(
    command: &DHTCommand,
    valve_command_manager: &mut ValveCommandManager,
    has_plus: bool,
) -> (r: Routed)
    ensures
        match command@ {
            DHTCommandView::ActuatorCommand(value) => {
                &&& final(valve_command_manager)@ == old(valve_command_manager)@
                &&& match r.esp32 {
                    Some(c) => actuator_routed(value) == Some(c@),
                    None => actuator_routed(value) is None,
                }
                &&& match r.shelly {
                    Some((mac, message)) => shelly_request(value) == Some((mac@, message@)),
                    None => shelly_request(value) is None,
                }
            },
            DHTCommandView::ValveCommand(value) => {
                &&& final(valve_command_manager)@ == valve_queued(old(valve_command_manager)@, value, has_plus)
                &&& match r.esp32 {
                    Some(c) => valve_routed(old(valve_command_manager)@, value, has_plus) == Some(c@),
                    None => valve_routed(old(valve_command_manager)@, value, has_plus) is None,
                }
                &&& r.shelly is None
            },
        },
        old(valve_command_manager)@.keys_stand_once() ==> final(valve_command_manager)@.keys_stand_once(),
{
    match command {
        DHTCommand::ActuatorCommand(value) => {
            let mac_field = value.at("mac_address");
            let esp32 = match mac_field.as_str() {
                Some(mac) => Some(
                    ESP32CommandMessage {
                        command_type: ESP32CommandType::Actuator,
                        mac_address: String::from_str(mac),
                        payload: value.duplicate(),
                        actuator_mac_address: String::new(),
                    },
                ),
                None => None,
            };
            Routed { esp32, shelly: handle_shelly_command(value) }
        },
        DHTCommand::ValveCommand(value) => {
            let mac_field = value.at("mac_address");
            let mac = match mac_field.as_str() {
                Some(m) => m,
                None => {
                    return Routed { esp32: None, shelly: None };
                },
            };
            if !has_plus {
                return Routed { esp32: None, shelly: None };
            }
            match valve_command_manager.get_best_actuator_for_valve(mac) {
                Some(best) => {
                    valve_command_manager.insert(mac, ValveData { desired_state: value.duplicate(), attempts: 1 });
                    Routed {
                        esp32: Some(
                            ESP32CommandMessage {
                                command_type: ESP32CommandType::Valve,
                                mac_address: String::from_str(mac),
                                payload: value.duplicate(),
                                actuator_mac_address: best,
                            },
                        ),
                        shelly: None,
                    }
                },
                None => {
                    valve_command_manager.insert(mac, ValveData { desired_state: value.duplicate(), attempts: 0 });
                    Routed { esp32: None, shelly: None }
                },
            }
        },
    }
}

/// The address of the second-generation actuator that a login answer
/// names, where the answer is for one.
pub open spec fn plus_actuator_of(cred: JsonView) -> Option<Seq<char>> {
    let kind = cred.at("topic"@).as_text();
    if kind == Some("shelly_1plus"@) || kind == Some("shelly_1pm_plus"@) || kind == Some("shelly_2pm_plus"@) {
        cred.at("mac_address"@).as_text()
    } else {
        None
    }
}

/// Takes note of the second-generation actuator that logged in.
pub fn note_plus_actuator(shelly_plus_actuators: &mut Vec<String>, cred: &Json)
    ensures
        strings_view(final(shelly_plus_actuators)@) == match plus_actuator_of(cred@) {
            Some(mac) => strings_view(old(shelly_plus_actuators)@).push(mac),
            None => strings_view(old(shelly_plus_actuators)@),
        },
{
    let kind_field = cred.at("topic");
    let plus = match kind_field.as_str() {
        Some(k) => str_eq(k, "shelly_1plus") || str_eq(k, "shelly_1pm_plus") || str_eq(k, "shelly_2pm_plus"),
        None => false,
    };
    if plus {
        let mac_field = cred.at("mac_address");
        match mac_field.as_str() {
            Some(mac) => {
                shelly_plus_actuators.push(String::from_str(mac));
                assert(strings_view(shelly_plus_actuators@) =~= strings_view(old(shelly_plus_actuators)@).push(
                    mac@,
                ));
            },
            None => {},
        }
    }
}

/// The fields of a source's value that the telemetry of its actuator may
/// set, by the kind of the source.
pub open spec fn projection_fields(source_name: Seq<char>, target: Seq<char>) -> Set<Seq<char>> {
    if source_name == "domo_power_energy_sensor"@ {
        set!["power"@, "energy"@, "updated_properties"@]
    } else if source_name == "domo_light_dimmable"@ && target == "shelly_dimmer"@ {
        set!["status"@, "power"@, "energy"@, "updated_properties"@]
    } else if source_name == "domo_light_dimmable"@ && target == "shelly_rgbw"@ {
        set!["status"@]
    } else if source_name == "domo_rgbw_light"@ {
        set!["r"@, "g"@, "b"@, "w"@]
    } else if source_name == "domo_light"@ || source_name == "domo_siren"@ || source_name == "domo_switch"@ {
        set!["status"@, "power"@, "energy"@, "updated_properties"@]
    } else if source_name == "domo_floor_valve"@ {
        set!["status"@]
    } else if source_name == "domo_roller_shutter"@ || source_name == "domo_garage_gate"@ {
        set!["shutter_status"@]
    } else if source_name == "domo_pir_sensor"@ || source_name == "domo_radar_sensor"@ || source_name
        == "domo_button"@ || source_name == "domo_bistable_button"@ {
        set!["status"@]
    } else if source_name == "domo_window_sensor"@ || source_name == "domo_door_sensor"@ {
        set!["status"@]
    } else {
        Set::empty()
    }
}

/// The projection is a function of its inputs, and it touches the fields of
/// its kind alone: every other field of the source's value, present or
/// not, is in the new value as it was in the old.
pub proof fn lemma_projection_keeps_other_fields(
    source: JsonView,
    source_name: Seq<char>,
    channel_number: u64,
    actuator: JsonView,
    target: Seq<char>,
    key: Seq<char>,
)
    requires
        projected(source, source_name, channel_number, actuator, target) is Ok,
        !projection_fields(source_name, target).contains(key),
    ensures
        projected(source, source_name, channel_number, actuator, target).unwrap().get(key) == source.at(
            "value"@,
        ).get(key),
{
}

/// Answers the login of a second-generation actuator: the address and the
/// kind of the actuator whose topic holds the user name and the password.
pub fn handle_cred_message(auth_cred_message: &AuthCredMessage, dht_manager: &DHTManager) -> (r: Result<
    Json,
    DhtError,
>)
    ensures
        match found_among(
            dht_manager@.cache,
            plus_kinds(),
            ProbeView::Login(Seq::empty(), auth_cred_message.user@, auth_cred_message.pass@),
            0,
        ) {
            Some(t) => r matches Ok(c) && c@ == crate::dhtmanager::credentials_of(t),
            None => r is Err,
        },
{
    dht_manager.get_auth_cred(auth_cred_message.user.as_str(), auth_cred_message.pass.as_str())
}

/// The periodic check of the valve commands against the valve topics of the
/// cache. Without an actuator of the second generation nothing is checked.
pub fn check_radiator_valve_commands(
    valve_command_manager: &mut ValveCommandManager,
    dht_manager: &DHTManager,
    has_plus: bool,
) -> (r: Vec<ESP32CommandMessage>)
    ensures
        has_plus ==> final(valve_command_manager)@.valve_commands == checked_queue(
            old(valve_command_manager)@.valve_commands,
            old(valve_command_manager)@.best_actuator,
            named(dht_manager@.cache, "domo_ble_valve"@),
        ),
        has_plus ==> commands_view(r@) == checked_commands(
            old(valve_command_manager)@.valve_commands,
            old(valve_command_manager)@.best_actuator,
            named(dht_manager@.cache, "domo_ble_valve"@),
        ),
        !has_plus ==> final(valve_command_manager)@.valve_commands == old(valve_command_manager)@.valve_commands
            && r@.len() == 0,
        final(valve_command_manager)@.best_actuator == old(valve_command_manager)@.best_actuator,
        old(valve_command_manager)@.keys_stand_once() ==> final(valve_command_manager)@.keys_stand_once(),
{
    if !has_plus {
        return Vec::new();
    }
    let valves = dht_manager.get_topic_name("domo_ble_valve");
    valve_command_manager.check_valve_commands(&valves)
}

/// The command that makes every session of the second generation ping its
/// actuator, or end where the actuator has not answered.
pub fn ping_command() -> (r: ESP32CommandMessage)
    ensures
        r@ == (ESP32CommandView {
            command_type: ESP32CommandType::Ping,
            mac_address: Seq::empty(),
            payload: empty_payload(),
            actuator_mac_address: Seq::empty(),
        }),
{
    ESP32CommandMessage {
        command_type: ESP32CommandType::Ping,
        mac_address: String::new(),
        payload: Json::Object(Vec::new()),
        actuator_mac_address: String::new(),
    }
}

/// The login of a discovered device: the user name and the password that
/// the cache holds for the device with the discovered address.
pub open spec fn discovered_login(cache: Seq<JsonView>, mac: Seq<char>) -> Option<(Seq<char>, Seq<char>)> {
    match found_among(cache, device_kinds(), ProbeView::Mac(Seq::empty(), mac), 0) {
        Some(topic) => match (
            topic.at("value"@).at("user_login"@).as_text(),
            topic.at("value"@).at("user_password"@).as_text(),
        ) {
            (Some(user), Some(password)) => Some((user, password)),
            _ => None,
        },
        None => None,
    }
}

/// The login with which the bridge opens the session of a discovered
/// device. Without one no session is opened.
pub fn session_login(dht_manager: &DHTManager, shelly: &ShellyDiscoveryResult) -> (r: Option<(String, String)>)
    ensures
        match r {
            Some((user, password)) => discovered_login(dht_manager@.cache, shelly.mac_address@) == Some(
                (user@, password@),
            ),
            None => discovered_login(dht_manager@.cache, shelly.mac_address@) is None,
        },
{
    let topic = match dht_manager.get_actuator_from_mac_address(shelly.mac_address.as_str()) {
        Ok(t) => t,
        Err(_) => {
            return None;
        },
    };
    let user_field = topic.at_in("value", "user_login");
    let password_field = topic.at_in("value", "user_password");
    match (user_field.as_str(), password_field.as_str()) {
        (Some(user), Some(password)) => Some((String::from_str(user), String::from_str(password))),
        _ => None,
    }
}

/// The bridge only ever adds to the list of writes: what was asked for
/// before the bindings saw the telemetry is still there after, in its
/// place.
pub proof fn lemma_fan_out_keeps_writes(
    d: DhtView,
    bindings: Seq<JsonView>,
    name: Seq<char>,
    uuid: Seq<char>,
    actuator: JsonView,
    k: int,
)
    requires
        0 <= k,
    ensures
        d.written.is_prefix_of(fanned_out(d, bindings, name, uuid, actuator, k).written),
    decreases bindings.len() - k,
{
    if k < bindings.len() {
        let next = propagated(d, bindings[k], name, uuid, actuator);
        assert(d.written.is_prefix_of(next.written));
        lemma_fan_out_keeps_writes(next, bindings, name, uuid, actuator, k + 1);
    }
}

/// A source that is bound to an actuator is written in the same turn as the
/// actuator's telemetry comes: where the binding at `k` gives its source a
/// value, the write of that value is in the list of writes when all
/// bindings have seen the telemetry, right after the writes that were there
/// when the binding's turn came.
pub proof fn lemma_bound_source_is_written(
    d: DhtView,
    bindings: Seq<JsonView>,
    name: Seq<char>,
    uuid: Seq<char>,
    actuator: JsonView,
    k: int,
)
    requires
        0 <= k < bindings.len(),
        binding_of(bindings[k]) matches Some(b) && b.target_topic_uuid == uuid && b.target_topic_name == name
            && projected_from(
            d.cache,
            b.source_topic_name,
            b.topic_uuid,
            b.target_channel_number,
            actuator,
            b.target_topic_name,
        ) is Ok,
    ensures
        ({
            let b = binding_of(bindings[k]).unwrap();
            let after = fanned_out(d, bindings, name, uuid, actuator, k).written;
            &&& after.len() > d.written.len()
            &&& after[d.written.len() as int].topic_name == b.source_topic_name
            &&& after[d.written.len() as int].topic_uuid == b.topic_uuid
            &&& Ok::<JsonView, MangleError>(after[d.written.len() as int].value) == projected_from(
                d.cache,
                b.source_topic_name,
                b.topic_uuid,
                b.target_channel_number,
                actuator,
                b.target_topic_name,
            )
        }),
{
    let next = propagated(d, bindings[k], name, uuid, actuator);
    lemma_fan_out_keeps_writes(next, bindings, name, uuid, actuator, k + 1);
    let after = fanned_out(d, bindings, name, uuid, actuator, k).written;
    assert(next.written.is_prefix_of(after));
    assert(after[d.written.len() as int] == next.written[d.written.len() as int]);
}

/// The names of the fields of a contact sensor's value are different texts.
pub proof fn lemma_contact_fields_differ()
    ensures
        "status"@ != "token"@,
        "status"@ != "last_update_timestamp"@,
        "status"@ != "mac_address"@,
        "status"@ != "id"@,
        "status"@ != "area_name"@,
        "token"@ != "last_update_timestamp"@,
        "token"@ != "mac_address"@,
        "token"@ != "id"@,
        "token"@ != "area_name"@,
        "mac_address"@ != "id"@,
        "mac_address"@ != "area_name"@,
        "id"@ != "area_name"@,
        "last_update_timestamp"@ != "mac_address"@,
        "last_update_timestamp"@ != "id"@,
        "last_update_timestamp"@ != "area_name"@,
{
    reveal_strlit("status");
    reveal_strlit("token");
    reveal_strlit("last_update_timestamp");
    reveal_strlit("mac_address");
    reveal_strlit("id");
    reveal_strlit("area_name");
    assert("status"@.len() == 6);
    assert("token"@.len() == 5);
    assert("last_update_timestamp"@.len() == 21);
    assert("mac_address"@.len() == 11);
    assert("id"@.len() == 2);
    assert("area_name"@.len() == 9);
}

/// A contact sensor's state is written once: after the bridge has written
/// the state that an advertisement holds, the same advertisement writes
/// nothing, whatever else the cache holds by then.
pub proof fn lemma_contact_written_once(
    d: DhtView,
    message: Seq<char>,
    rssi: i64,
    uuid: Seq<char>,
    token: Seq<char>,
    mac: Seq<char>,
    id: Seq<char>,
    area: Seq<char>,
    now: u64,
    later: u64,
)
    requires
        contact_parsed(mac, contact_frame(message, rssi), token) is Ok,
    ensures
        ({
            let state = contact_parsed(mac, contact_frame(message, rssi), token).unwrap().state;
            let value = contact_value(contact_number(state), token, now, mac, id, area);
            contact_updated(d, message, rssi, topic_of("domo_ble_contact"@, uuid, value), later) == d
        }),
{
    lemma_contact_fields_differ();
    crate::dhtmanager::lemma_topic_fields_differ();
}

/// A contact sensor's new state is written once: an advertisement of at
/// least 58 digits that holds a state which the sensor's topic does not
/// show writes the sensor's topic with that state and the time, and then
/// what the bindings of the sensor pass on. The write of the state is in
/// the list of writes right after those that were there.
pub proof fn lemma_contact_change_written(d: DhtView, message: Seq<char>, rssi: i64, topic: JsonView, now: u64)
    requires
        message.len() >= 58,
        topic.at("topic_uuid"@).as_text() is Some,
        topic.at("value"@).at("token"@).as_text() is Some,
        topic.at("value"@).at("id"@).as_text() is Some,
        topic.at("value"@).at("mac_address"@).as_text() is Some,
        topic.at("value"@).at("area_name"@).as_text() is Some,
        contact_parsed(
            topic.at("value"@).at("mac_address"@).as_text().unwrap(),
            contact_frame(message, rssi),
            topic.at("value"@).at("token"@).as_text().unwrap(),
        ) matches Ok(m) && topic.at("value"@).at("status"@).as_u64() != Some(contact_number(m.state)),
    ensures
        ({
            let after = contact_updated(d, message, rssi, topic, now).written;
            let v = topic.at("value"@);
            let state = contact_parsed(
                v.at("mac_address"@).as_text().unwrap(),
                contact_frame(message, rssi),
                v.at("token"@).as_text().unwrap(),
            ).unwrap().state;
            let uuid = topic.at("topic_uuid"@).as_text().unwrap();
            let value = contact_value(
                contact_number(state),
                v.at("token"@).as_text().unwrap(),
                now,
                v.at("mac_address"@).as_text().unwrap(),
                v.at("id"@).as_text().unwrap(),
                v.at("area_name"@).as_text().unwrap(),
            );
            &&& contact_updated(d, message, rssi, topic, now) == connections_updated(
                written(d, "domo_ble_contact"@, uuid, value),
                "domo_ble_contact"@,
                uuid,
                value,
            )
            &&& after.len() > d.written.len()
            &&& d.written.is_prefix_of(after)
            &&& after[d.written.len() as int].topic_name == "domo_ble_contact"@
            &&& after[d.written.len() as int].topic_uuid == uuid
            &&& after[d.written.len() as int].value == value
            &&& value.at("status"@) == whole(contact_number(state))
            &&& value.at("last_update_timestamp"@) == whole(now)
        }),
{
    lemma_contact_fields_differ();
    let v = topic.at("value"@);
    let uuid = topic.at("topic_uuid"@).as_text().unwrap();
    let token = v.at("token"@).as_text().unwrap();
    let mac = v.at("mac_address"@).as_text().unwrap();
    let id = v.at("id"@).as_text().unwrap();
    let area = v.at("area_name"@).as_text().unwrap();
    let state = contact_parsed(mac, contact_frame(message, rssi), token).unwrap().state;
    let value = contact_value(contact_number(state), token, now, mac, id, area);
    let first = written(d, "domo_ble_contact"@, uuid, value);
    lemma_fan_out_keeps_writes(
        first,
        named(first.cache, "domo_actuator_connection"@),
        "domo_ble_contact"@,
        uuid,
        value,
        0,
    );
    let after = contact_updated(d, message, rssi, topic, now).written;
    assert(first.written.is_prefix_of(after));
    assert(first.written[d.written.len() as int].value == value);
    assert(after[d.written.len() as int] == first.written[d.written.len() as int]);
}

} // verus!
