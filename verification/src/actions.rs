//! The actions that the bridge asks of an actuator. An action goes out as a
//! name and a payload; the payload is JSON text inside the JSON message, and
//! `serde_json` writes it.

use crate::json::{Json, JsonView, Number};
use vstd::prelude::*;

verus! {

/// `serde_json::Value`, of which the fields of a `serde_json::Map` are. It is
/// held as a value that is not looked into.
#[verifier::external_type_specification]
#[verifier::external_body]
pub struct ExValue(serde_json::Value);

/// `serde_json::Map`, held as a value that is not looked into.
#[verifier::external_type_specification]
#[verifier::external_body]
#[verifier::reject_recursive_types(K)]
#[verifier::reject_recursive_types(V)]
pub struct ExFields<K, V>(serde_json::Map<K, V>);

/// What a `serde_json::Map` from strings to values holds.
pub uninterp spec fn fields_held(m: serde_json::Map<String, serde_json::Value>) -> Map<Seq<char>, JsonView>;

/// The compact JSON text of a value, as `serde_json` writes it.
pub uninterp spec fn compact_text(v: JsonView) -> Seq<char>;

/// No fields at all.
pub open spec fn no_fields() -> Map<Seq<char>, JsonView> {
    Map::empty()
}

/// `Map::new`. Trusted: the map is empty.
#[verifier::external_body]
fn fields_new() -> (m: serde_json::Map<String, serde_json::Value>)
    ensures
        fields_held(m) == no_fields(),
{
    serde_json::Map::new()
}

/// `Map::insert` of `Value::from` on a `u64`. Trusted: afterwards the key
/// holds that whole number, and the other keys hold what they held.
#[verifier::external_body]
fn fields_put_u64(m: &mut serde_json::Map<String, serde_json::Value>, key: &str, n: u64)
    ensures
        fields_held(*final(m)) == fields_held(*old(m)).insert(key@, whole(n)),
{
    m.insert(key.to_owned(), serde_json::Value::from(n));
}

/// `Map::insert` of `Value::from` on a `bool`. Trusted: afterwards the key
/// holds that boolean, and the other keys hold what they held.
#[verifier::external_body]
fn fields_put_bool(m: &mut serde_json::Map<String, serde_json::Value>, key: &str, b: bool)
    ensures
        fields_held(*final(m)) == fields_held(*old(m)).insert(key@, JsonView::Bool(b)),
{
    m.insert(key.to_owned(), serde_json::Value::from(b));
}

/// `Map::insert` of `Value::from` on a `&str`. Trusted: afterwards the key
/// holds that text, and the other keys hold what they held.
#[verifier::external_body]
fn fields_put_text(m: &mut serde_json::Map<String, serde_json::Value>, key: &str, text: &str)
    ensures
        fields_held(*final(m)) == fields_held(*old(m)).insert(key@, JsonView::Text(text@)),
{
    m.insert(key.to_owned(), serde_json::Value::from(text));
}

/// `Map::insert` of `Value::Object` on a map. Trusted: afterwards the key
/// holds the object of that map's fields, and the other keys hold what they
/// held.
#[verifier::external_body]
fn fields_put_fields(
    m: &mut serde_json::Map<String, serde_json::Value>,
    key: &str,
    inner: serde_json::Map<String, serde_json::Value>,
)
    ensures
        fields_held(*final(m)) == fields_held(*old(m)).insert(key@, JsonView::Object(fields_held(inner))),
{
    m.insert(key.to_owned(), serde_json::Value::Object(inner));
}

/// `to_string` of `Value::Object` on a map. Trusted: the text depends on
/// what the map holds alone.
#[verifier::external_body]
fn fields_written(m: serde_json::Map<String, serde_json::Value>) -> (s: String)
    ensures
        s@ == compact_text(JsonView::Object(fields_held(m))),
{
    serde_json::Value::Object(m).to_string()
}

/// An object with one field.
pub open spec fn object1(k: Seq<char>, v: JsonView) -> JsonView {
    JsonView::Null.with(k, v)
}

/// An object with two fields.
pub open spec fn object2(k1: Seq<char>, v1: JsonView, k2: Seq<char>, v2: JsonView) -> JsonView {
    JsonView::Null.with(k1, v1).with(k2, v2)
}

/// A whole number as a JSON value.
pub open spec fn whole(n: u64) -> JsonView {
    JsonView::Number(Number::Unsigned(n))
}

/// The payload that sets an output.
pub open spec fn set_output_payload(output_number: u64, value: bool) -> JsonView {
    object2("output_number"@, whole(output_number), "value"@, JsonView::Bool(value))
}

/// The payload that moves a shutter: 0 is up, 1 down, 2 stop.
pub open spec fn set_shutter_payload(shutter_command: u64) -> JsonView {
    object1("shutter_command"@, whole(shutter_command))
}

/// The payload that sets a dimmer.
pub open spec fn set_dimmer_payload(dim_value: u64) -> JsonView {
    object1("dim_value"@, whole(dim_value))
}

/// The payload that sets one colour of an LED dimmer.
pub open spec fn set_led_dimmer_payload(channel: Seq<char>, value: u64) -> JsonView {
    object1("led_dimmer_status"@, object2("channel"@, JsonView::Text(channel), "value"@, whole(value)))
}

/// The payload that sets the four levels of an RGBW light.
pub open spec fn set_rgbw_payload(r: u64, g: u64, b: u64, w: u64) -> JsonView {
    object1(
        "rgbw_status"@,
        JsonView::Null.with("r"@, whole(r)).with("g"@, whole(g)).with("b"@, whole(b)).with("w"@, whole(w)),
    )
}

/// The payload that opens or closes a radiator valve.
pub open spec fn control_radiator_valve_payload(mac_address: Seq<char>, value: bool) -> JsonView {
    object2("mac_address"@, JsonView::Text(mac_address), "value"@, JsonView::Bool(value))
}

/// The payload that changes an actuator's mode.
pub open spec fn change_mode_payload(mode: u64, inverted: bool) -> JsonView {
    object2("mode"@, whole(mode), "inverted"@, JsonView::Bool(inverted))
}

/// The payload of an action that takes none: an empty object.
pub open spec fn empty_payload() -> JsonView {
    JsonView::Object(Map::empty())
}

/// The text of the payload that sets an output.
pub fn set_output_text(output_number: u64, value: bool) -> (s: String)
    ensures
        s@ == compact_text(set_output_payload(output_number, value)),
{
    let mut m = fields_new();
    fields_put_u64(&mut m, "output_number", output_number);
    fields_put_bool(&mut m, "value", value);
    fields_written(m)
}

/// The text of the payload that moves a shutter.
pub fn set_shutter_text(shutter_command: u64) -> (s: String)
    ensures
        s@ == compact_text(set_shutter_payload(shutter_command)),
{
    let mut m = fields_new();
    fields_put_u64(&mut m, "shutter_command", shutter_command);
    fields_written(m)
}

/// The text of the payload that sets a dimmer.
pub fn set_dimmer_text(dim_value: u64) -> (s: String)
    ensures
        s@ == compact_text(set_dimmer_payload(dim_value)),
{
    let mut m = fields_new();
    fields_put_u64(&mut m, "dim_value", dim_value);
    fields_written(m)
}

/// The text of the payload that sets one colour of an LED dimmer.
pub fn set_led_dimmer_text(channel: &str, value: u64) -> (s: String)
    ensures
        s@ == compact_text(set_led_dimmer_payload(channel@, value)),
{
    let mut status = fields_new();
    fields_put_text(&mut status, "channel", channel);
    fields_put_u64(&mut status, "value", value);
    let mut m = fields_new();
    fields_put_fields(&mut m, "led_dimmer_status", status);
    fields_written(m)
}

/// The text of the payload that sets the four levels of an RGBW light.
pub fn set_rgbw_text(r: u64, g: u64, b: u64, w: u64) -> (s: String)
    ensures
        s@ == compact_text(set_rgbw_payload(r, g, b, w)),
{
    let mut status = fields_new();
    fields_put_u64(&mut status, "r", r);
    fields_put_u64(&mut status, "g", g);
    fields_put_u64(&mut status, "b", b);
    fields_put_u64(&mut status, "w", w);
    let mut m = fields_new();
    fields_put_fields(&mut m, "rgbw_status", status);
    fields_written(m)
}

/// The text of the payload that opens or closes a radiator valve.
pub fn control_radiator_valve_text(mac_address: &str, value: bool) -> (s: String)
    ensures
        s@ == compact_text(control_radiator_valve_payload(mac_address@, value)),
{
    let mut m = fields_new();
    fields_put_text(&mut m, "mac_address", mac_address);
    fields_put_bool(&mut m, "value", value);
    fields_written(m)
}

/// The text of the payload that changes an actuator's mode.
pub fn change_mode_text(mode: u64, inverted: bool) -> (s: String)
    ensures
        s@ == compact_text(change_mode_payload(mode, inverted)),
{
    let mut m = fields_new();
    fields_put_u64(&mut m, "mode", mode);
    fields_put_bool(&mut m, "inverted", inverted);
    fields_written(m)
}

/// The text of the empty payload.
pub fn empty_text() -> (s: String)
    ensures
        s@ == compact_text(empty_payload()),
{
    fields_written(fields_new())
}

/// An action as it stands in a message: its name and the text of its
/// payload, under `input` and `action`.
pub open spec fn action_of(name: Seq<char>, payload_text: Seq<char>) -> JsonView {
    object1(
        "input"@,
        object1(
            "action"@,
            object2("action_name"@, JsonView::Text(name), "action_payload"@, JsonView::Text(payload_text)),
        ),
    )
}

/// The message that asks an actuator for an action.
pub open spec fn request_of(shelly_action: JsonView) -> JsonView {
    object2(
        "messageType"@,
        JsonView::Text("requestAction"@),
        "data"@,
        object1("shelly_action"@, shelly_action),
    )
}

fn json1(k: &str, v: Json) -> (r: Json)
    ensures
        r@ == object1(k@, v@),
{
    let mut r = Json::Null;
    r.set(k, v);
    r
}

fn json2(k1: &str, v1: Json, k2: &str, v2: Json) -> (r: Json)
    ensures
        r@ == object2(k1@, v1@, k2@, v2@),
{
    let mut r = Json::Null;
    r.set(k1, v1);
    r.set(k2, v2);
    r
}

/// Builds an action from its name and the text of its payload.
pub fn shelly_action(name: &str, payload_text: String) -> (r: Json)
    ensures
        r@ == action_of(name@, payload_text@),
{
    json1("input", json1("action", json2("action_name", Json::text(name), "action_payload", Json::Text(payload_text))))
}

/// Wraps an action into the message that asks for it.
pub fn request_action(shelly_action: Json) -> (r: Json)
    ensures
        r@ == request_of(shelly_action@),
{
    json2("messageType", Json::text("requestAction"), "data", json1("shelly_action", shelly_action))
}

} // verus!
