//! Projection of an actuator's telemetry onto the topic of the logical
//! source that is bound to it.

use crate::json::{list_view, Json, JsonView, Number};
use crate::text::{join2, str_eq};
use vstd::prelude::*;

verus! {

/// Why a projection wrote nothing.
#[derive(Clone, Copy, Debug, PartialEq, Eq, Structural)]
pub enum MangleError {
    /// The telemetry does not touch what the source shows.
    NotUpdated,
    /// A value does not have the shape that the projection reads.
    Malformed,
    /// The cache does not know the source topic.
    NotFound,
}

/// Every item is a text.
pub open spec fn all_text(items: Seq<JsonView>) -> bool {
    forall|i: int| 0 <= i < items.len() ==> (#[trigger] items[i]) is Text
}

/// Some item is the given text.
pub open spec fn has_text(items: Seq<JsonView>, key: Seq<char>) -> bool {
    exists|i: int| 0 <= i < items.len() && (#[trigger] items[i]).as_text() == Some(key)
}

/// What one updated property of the actuator becomes on the source.
pub open spec fn renamed_prop(item: JsonView, power_key: Seq<char>, energy_key: Seq<char>) -> Seq<
    JsonView,
> {
    let p = if item.as_text() == Some(power_key) {
        seq![JsonView::Text("power"@)]
    } else {
        Seq::empty()
    };
    let e = if item.as_text() == Some(energy_key) {
        seq![JsonView::Text("energy"@)]
    } else {
        Seq::empty()
    };
    p + e
}

/// The updated properties of the source: of the actuator's, those that are its
/// power and energy on the bound channel, under the source's names.
pub open spec fn renamed_props(items: Seq<JsonView>, power_key: Seq<char>, energy_key: Seq<char>) -> Seq<
    JsonView,
>
    decreases items.len(),
{
    if items.len() == 0 {
        Seq::empty()
    } else {
        renamed_props(items.drop_last(), power_key, energy_key) + renamed_prop(
            items.last(),
            power_key,
            energy_key,
        )
    }
}

/// The energy that a source topic shows so far, in millionths; nothing counts
/// as zero.
pub open spec fn energy_so_far(source: JsonView) -> int {
    match source.at("value"@).at("energy"@).as_micros() {
        Some(m) => m,
        None => 0,
    }
}

/// Whether an energy in millionths can be held.
pub open spec fn can_hold(total: int) -> bool {
    i64::MIN <= total <= i64::MAX
}

/// The energy of a source after an increment, in millionths, where it can
/// be held.
pub open spec fn energy_after(source: JsonView, increment: int) -> Option<int> {
    if can_hold(energy_so_far(source) + increment) {
        Some(energy_so_far(source) + increment)
    } else {
        None
    }
}

/// The source with its power and its energy set, the energy in millionths.
pub open spec fn metered(source: JsonView, power: JsonView, energy: int) -> JsonView {
    source.with_in("value"@, "power"@, power).with_in(
        "value"@,
        "energy"@,
        JsonView::Number(Number::Micros(energy as i64)),
    )
}

fn rename_props(items: &Vec<Json>, power_key: &str, energy_key: &str) -> (r: Vec<Json>)
    ensures
        list_view(r@) == renamed_props(list_view(items@), power_key@, energy_key@),
{
    let mut out: Vec<Json> = Vec::new();
    let mut i: usize = 0;
    while i < items.len()
        invariant
            i <= items.len(),
            list_view(out@) == renamed_props(list_view(items@).take(i as int), power_key@, energy_key@),
        decreases items.len() - i,
    {
        let ghost before = list_view(out@);
        let ghost all = list_view(items@);
        assert(all.take(i + 1).drop_last() =~= all.take(i as int));
        assert(all.take(i + 1).last() == items@[i as int]@);
        match items[i].as_str() {
            Some(name) => {
                if str_eq(name, power_key) {
                    out.push(Json::text("power"));
                }
                if str_eq(name, energy_key) {
                    out.push(Json::text("energy"));
                }
            },
            None => {},
        }
        assert(list_view(out@) =~= before + renamed_prop(items@[i as int]@, power_key@, energy_key@));
        i += 1;
    }
    assert(list_view(items@).take(i as int) =~= list_view(items@));
    out
}

fn only_texts(items: &Vec<Json>) -> (r: bool)
    ensures
        r == all_text(list_view(items@)),
{
    let mut i: usize = 0;
    while i < items.len()
        invariant
            i <= items.len(),
            forall|j: int| 0 <= j < i ==> (#[trigger] list_view(items@)[j]) is Text,
        decreases items.len() - i,
    {
        if items[i].as_str().is_none() {
            assert(!(list_view(items@)[i as int] is Text));
            return false;
        }
        i += 1;
    }
    true
}

fn list_has_text(items: &Vec<Json>, key: &str) -> (r: bool)
    ensures
        r == has_text(list_view(items@), key@),
{
    let mut i: usize = 0;
    while i < items.len()
        invariant
            i <= items.len(),
            forall|j: int| 0 <= j < i ==> (#[trigger] list_view(items@)[j]).as_text() != Some(key@),
        decreases items.len() - i,
    {
        match items[i].as_str() {
            Some(name) => {
                if str_eq(name, key) {
                    assert(list_view(items@)[i as int].as_text() == Some(key@));
                    return true;
                }
            },
            None => {},
        }
        i += 1;
    }
    false
}

/// The energy of a source after an increment, where it can be held.
fn add_energy(source: &Json, increment: i128) -> (r: Option<i64>)
    ensures
        match r {
            Some(t) => energy_after(source@, increment as int) == Some(t as int),
            None => energy_after(source@, increment as int) is None,
        },
{
    let so_far: i128 = match source.at_in("value", "energy").as_micros() {
        Some(m) => m,
        None => 0,
    };
    match so_far.checked_add(increment) {
        Some(total) => {
            if total < i64::MIN as i128 || total > i64::MAX as i128 {
                None
            } else {
                Some(total as i64)
            }
        },
        None => None,
    }
}

/// Sets power and energy of the source.
fn meter(source: &mut Json, power: Json, energy: i64)
    requires
        old(source)@.settable_in("value"@),
    ensures
        final(source)@ == metered(old(source)@, power@, energy as int),
        final(source)@.settable_in("value"@),
{
    source.set_in("value", "power", power);
    source.set_in("value", "energy", Json::Number(Number::Micros(energy)));
}

/// The two-element list `["power", "energy"]`.
pub open spec fn power_energy_props() -> JsonView {
    JsonView::List(seq![JsonView::Text("power"@), JsonView::Text("energy"@)])
}

/// A power and energy sensor after the telemetry of its actuator.
pub open spec fn power_energy_sensor_mangled(source: JsonView, channel: Seq<char>, actuator: JsonView) -> Result<
    JsonView,
    MangleError,
> {
    let props = actuator.at("updated_properties"@).as_list();
    let reading = actuator.at("power_data"@).at("channel"@ + channel);
    if props is None || !all_text(props.unwrap()) {
        Err(MangleError::Malformed)
    } else if !has_text(props.unwrap(), "power_data"@) {
        Err(MangleError::NotUpdated)
    } else if !source.settable_in("value"@) || reading.at("energy"@).as_micros() is None || energy_after(
        source,
        reading.at("energy"@).as_micros().unwrap(),
    ) is None {
        Err(MangleError::Malformed)
    } else {
        Ok(
            metered(
                source,
                reading.at("active_power"@),
                energy_after(source, reading.at("energy"@).as_micros().unwrap()).unwrap(),
            ).with_in(
                "value"@,
                "updated_properties"@,
                power_energy_props(),
            ),
        )
    }
}

/// A power and energy sensor shows the active power of its channel and adds
/// up the energy, but only when the telemetry names `power_data` as updated.
/// An energy that cannot be held is an error and leaves the sensor as it is.
pub fn mangle_domo_power_energy_sensor(
    source_topic: &mut Json,
    channel_number_str: &str,
    actuator_topic: &Json,
) -> (r: Result<(), MangleError>)
    ensures
        match r {
            Ok(_) => power_energy_sensor_mangled(old(source_topic)@, channel_number_str@, actuator_topic@)
                == Ok::<JsonView, MangleError>(final(source_topic)@),
            Err(e) => power_energy_sensor_mangled(old(source_topic)@, channel_number_str@, actuator_topic@)
                == Err::<JsonView, MangleError>(e) && final(source_topic)@ == old(source_topic)@,
        },
{
    let listed = actuator_topic.at("updated_properties");
    let props = match listed.as_array() {
        Some(p) => p,
        None => {
            return Err(MangleError::Malformed);
        },
    };
    if !only_texts(props) {
        return Err(MangleError::Malformed);
    }
    if !list_has_text(props, "power_data") {
        return Err(MangleError::NotUpdated);
    }
    let channel_key = join2("channel", channel_number_str);
    let reading = actuator_topic.at_in("power_data", channel_key.as_str());
    let increment = match reading.at("energy").as_micros() {
        Some(m) => m,
        None => {
            return Err(MangleError::Malformed);
        },
    };
    if !source_topic.can_set_in("value") {
        return Err(MangleError::Malformed);
    }
    let energy = match add_energy(source_topic, increment) {
        Some(t) => t,
        None => {
            return Err(MangleError::Malformed);
        },
    };
    meter(source_topic, reading.at("active_power"), energy);
    let mut names: Vec<Json> = Vec::new();
    names.push(Json::text("power"));
    names.push(Json::text("energy"));
    assert(list_view(names@) =~= seq![JsonView::Text("power"@), JsonView::Text("energy"@)]);
    source_topic.set_in("value", "updated_properties", Json::List(names));
    Ok(())
}

/// A dimmable light on a dimmer after the telemetry of the dimmer.
pub open spec fn light_dimmable_shelly_dimmer_mangled(source: JsonView, actuator: JsonView) -> Result<
    JsonView,
    MangleError,
> {
    let props = actuator.at("updated_properties"@).as_list();
    let increment = actuator.at("energy1"@).as_micros();
    if !source.settable_in("value"@) || props is None || increment is None || energy_after(
        source,
        increment.unwrap(),
    ) is None {
        Err(MangleError::Malformed)
    } else {
        Ok(
            metered(
                source.with_in("value"@, "status"@, actuator.at("dimmer_status"@)),
                actuator.at("power1"@),
                energy_after(source, increment.unwrap()).unwrap(),
            ).with_in(
                "value"@,
                "updated_properties"@,
                JsonView::List(renamed_props(props.unwrap(), "power1"@, "energy1"@)),
            ),
        )
    }
}

/// A dimmable light on a dimmer shows the dimmer's status and power, and adds
/// up its energy. An energy that cannot be held is an error and leaves the
/// light as it is.
pub fn mangle_domo_light_dimmable_shelly_dimmer(source_topic: &mut Json, actuator_topic: &Json) -> (r:
    Result<(), MangleError>)
    ensures
        match r {
            Ok(_) => light_dimmable_shelly_dimmer_mangled(old(source_topic)@, actuator_topic@) == Ok::<
                JsonView,
                MangleError,
            >(final(source_topic)@),
            Err(e) => light_dimmable_shelly_dimmer_mangled(old(source_topic)@, actuator_topic@) == Err::<
                JsonView,
                MangleError,
            >(e) && final(source_topic)@ == old(source_topic)@,
        },
{
    let listed = actuator_topic.at("updated_properties");
    let props = match listed.as_array() {
        Some(p) => p,
        None => {
            return Err(MangleError::Malformed);
        },
    };
    let increment = match actuator_topic.at("energy1").as_micros() {
        Some(m) => m,
        None => {
            return Err(MangleError::Malformed);
        },
    };
    if !source_topic.can_set_in("value") {
        return Err(MangleError::Malformed);
    }
    let energy = match add_energy(source_topic, increment) {
        Some(t) => t,
        None => {
            return Err(MangleError::Malformed);
        },
    };
    source_topic.set_in("value", "status", actuator_topic.at("dimmer_status"));
    meter(source_topic, actuator_topic.at("power1"), energy);
    let names = rename_props(props, "power1", "energy1");
    source_topic.set_in("value", "updated_properties", Json::List(names));
    Ok(())
}

/// The colour of a channel of an RGBW actuator: `r`, `g`, `b`, `w` for the
/// channels 1 to 4.
pub open spec fn rgbw_colour(channel_number: u64) -> Option<Seq<char>> {
    if channel_number == 1 {
        Some("r"@)
    } else if channel_number == 2 {
        Some("g"@)
    } else if channel_number == 3 {
        Some("b"@)
    } else if channel_number == 4 {
        Some("w"@)
    } else {
        None
    }
}

/// A dimmable light on an RGBW actuator after the telemetry of the actuator.
pub open spec fn light_dimmable_shelly_rgbw_mangled(
    source: JsonView,
    channel_number: u64,
    actuator: JsonView,
) -> Result<JsonView, MangleError> {
    match rgbw_colour(channel_number) {
        Some(colour) => if source.settable_in("value"@) {
            Ok(source.with_in("value"@, "status"@, actuator.at("rgbw_status"@).at(colour)))
        } else {
            Err(MangleError::Malformed)
        },
        None => Ok(source),
    }
}

fn rgbw_colour_name(channel_number: u64) -> (r: Option<&'static str>)
    ensures
        match r {
            Some(s) => rgbw_colour(channel_number) == Some(s@),
            None => rgbw_colour(channel_number) is None,
        },
{
    if channel_number == 1 {
        Some("r")
    } else if channel_number == 2 {
        Some("g")
    } else if channel_number == 3 {
        Some("b")
    } else if channel_number == 4 {
        Some("w")
    } else {
        None
    }
}

/// A dimmable light on an RGBW actuator shows the level of its one colour.
/// A channel other than 1 to 4 changes nothing.
pub fn mangle_domo_light_dimmable_shelly_rgbw(
    source_topic: &mut Json,
    channel_number: u64,
    actuator_topic: &Json,
) -> (r: Result<(), MangleError>)
    ensures
        match r {
            Ok(_) => light_dimmable_shelly_rgbw_mangled(old(source_topic)@, channel_number, actuator_topic@)
                == Ok::<JsonView, MangleError>(final(source_topic)@),
            Err(e) => light_dimmable_shelly_rgbw_mangled(old(source_topic)@, channel_number, actuator_topic@)
                == Err::<JsonView, MangleError>(e) && final(source_topic)@ == old(source_topic)@,
        },
{
    match rgbw_colour_name(channel_number) {
        Some(colour) => {
            if source_topic.set_in("value", "status", actuator_topic.at_in("rgbw_status", colour)) {
                Ok(())
            } else {
                Err(MangleError::Malformed)
            }
        },
        None => Ok(()),
    }
}

/// An RGBW light after the telemetry of its actuator.
pub open spec fn rgbw_light_mangled(source: JsonView, actuator: JsonView) -> Result<JsonView, MangleError> {
    let levels = actuator.at("rgbw_status"@);
    if source.settable_in("value"@) {
        Ok(
            source.with_in("value"@, "r"@, levels.at("r"@)).with_in("value"@, "g"@, levels.at("g"@)).with_in(
                "value"@,
                "b"@,
                levels.at("b"@),
            ).with_in("value"@, "w"@, levels.at("w"@)),
        )
    } else {
        Err(MangleError::Malformed)
    }
}

/// An RGBW light shows the four levels of its actuator.
pub fn mangle_domo_rgbw_light(source_topic: &mut Json, actuator_topic: &Json) -> (r: Result<
    (),
    MangleError,
>)
    ensures
        match r {
            Ok(_) => rgbw_light_mangled(old(source_topic)@, actuator_topic@) == Ok::<JsonView, MangleError>(
                final(source_topic)@,
            ),
            Err(e) => rgbw_light_mangled(old(source_topic)@, actuator_topic@) == Err::<JsonView, MangleError>(
                e,
            ) && final(source_topic)@ == old(source_topic)@,
        },
{
    if !source_topic.can_set_in("value") {
        return Err(MangleError::Malformed);
    }
    source_topic.set_in("value", "r", actuator_topic.at_in("rgbw_status", "r"));
    source_topic.set_in("value", "g", actuator_topic.at_in("rgbw_status", "g"));
    source_topic.set_in("value", "b", actuator_topic.at_in("rgbw_status", "b"));
    source_topic.set_in("value", "w", actuator_topic.at_in("rgbw_status", "w"));
    Ok(())
}

/// Whether an actuator of this kind meters power and energy: all do but
/// `shelly_1` and `shelly_1plus`.
pub open spec fn is_metering(target: Seq<char>) -> bool {
    target != "shelly_1"@ && target != "shelly_1plus"@
}

/// A light, siren or switch after the telemetry of its actuator.
pub open spec fn light_siren_switch_mangled(
    source: JsonView,
    channel: Seq<char>,
    actuator: JsonView,
    target: Seq<char>,
) -> Result<JsonView, MangleError> {
    let props = actuator.at("updated_properties"@).as_list();
    let increment = actuator.at("energy"@ + channel).as_micros();
    if !source.settable_in("value"@) || props is None || !all_text(props.unwrap()) || (is_metering(target)
        && (increment is None || energy_after(source, increment.unwrap()) is None)) {
        Err(MangleError::Malformed)
    } else {
        let shown = source.with_in("value"@, "status"@, actuator.at("output"@ + channel));
        let counted = if is_metering(target) {
            metered(
                shown,
                actuator.at("power"@ + channel),
                energy_after(source, increment.unwrap()).unwrap(),
            )
        } else {
            shown
        };
        Ok(
            counted.with_in(
                "value"@,
                "updated_properties"@,
                JsonView::List(renamed_props(props.unwrap(), "power"@ + channel, "energy"@ + channel)),
            ),
        )
    }
}

/// A light, siren or switch shows the output of its channel. On an actuator
/// that meters it also shows the channel's power and adds up its energy; an
/// energy that cannot be held is an error and leaves the source as it is.
/// Its updated properties are those of power and energy alone.
pub fn mangle_domo_light_siren_switch(
    source_topic: &mut Json,
    channel_number_str: &str,
    actuator_topic: &Json,
    target_topic_name: &str,
) -> (r: Result<(), MangleError>)
    ensures
        match r {
            Ok(_) => light_siren_switch_mangled(
                old(source_topic)@,
                channel_number_str@,
                actuator_topic@,
                target_topic_name@,
            ) == Ok::<JsonView, MangleError>(final(source_topic)@),
            Err(e) => light_siren_switch_mangled(
                old(source_topic)@,
                channel_number_str@,
                actuator_topic@,
                target_topic_name@,
            ) == Err::<JsonView, MangleError>(e) && final(source_topic)@ == old(source_topic)@,
        },
{
    let listed = actuator_topic.at("updated_properties");
    let props = match listed.as_array() {
        Some(p) => p,
        None => {
            return Err(MangleError::Malformed);
        },
    };
    let power_key = join2("power", channel_number_str);
    let energy_key = join2("energy", channel_number_str);
    let output_key = join2("output", channel_number_str);
    let names = rename_props(props, power_key.as_str(), energy_key.as_str());
    if !only_texts(props) || !source_topic.can_set_in("value") {
        return Err(MangleError::Malformed);
    }
    let metering = !str_eq(target_topic_name, "shelly_1") && !str_eq(target_topic_name, "shelly_1plus");
    let mut energy: i64 = 0;
    if metering {
        let added = match actuator_topic.at(energy_key.as_str()).as_micros() {
            Some(increment) => add_energy(source_topic, increment),
            None => None,
        };
        match added {
            Some(t) => {
                energy = t;
            },
            None => {
                return Err(MangleError::Malformed);
            },
        }
    }
    source_topic.set_in("value", "status", actuator_topic.at(output_key.as_str()));
    if metering {
        meter(source_topic, actuator_topic.at(power_key.as_str()), energy);
    }
    source_topic.set_in("value", "updated_properties", Json::List(names));
    Ok(())
}

/// A presence sensor or a button after the telemetry of its actuator.
pub open spec fn input_sensor_mangled(source: JsonView, channel: Seq<char>, actuator: JsonView) -> Result<
    JsonView,
    MangleError,
> {
    let props = actuator.at("updated_properties"@).as_list();
    if props is None || !all_text(props.unwrap()) {
        Err(MangleError::Malformed)
    } else if !has_text(props.unwrap(), "input"@ + channel) {
        Err(MangleError::NotUpdated)
    } else if !source.settable_in("value"@) {
        Err(MangleError::Malformed)
    } else {
        Ok(source.with_in("value"@, "status"@, actuator.at("input"@ + channel)))
    }
}

/// A presence sensor or a button shows the input of its channel, but only
/// when the telemetry names that input as updated.
pub fn mangle_domo_pir_sensor_radar_sensor_button_bistable_button(
    source_topic: &mut Json,
    channel_number_str: &str,
    actuator_topic: &Json,
) -> (r: Result<(), MangleError>)
    ensures
        match r {
            Ok(_) => input_sensor_mangled(old(source_topic)@, channel_number_str@, actuator_topic@) == Ok::<
                JsonView,
                MangleError,
            >(final(source_topic)@),
            Err(e) => input_sensor_mangled(old(source_topic)@, channel_number_str@, actuator_topic@) == Err::<
                JsonView,
                MangleError,
            >(e) && final(source_topic)@ == old(source_topic)@,
        },
{
    let listed = actuator_topic.at("updated_properties");
    let props = match listed.as_array() {
        Some(p) => p,
        None => {
            return Err(MangleError::Malformed);
        },
    };
    if !only_texts(props) {
        return Err(MangleError::Malformed);
    }
    let input_key = join2("input", channel_number_str);
    if !list_has_text(props, input_key.as_str()) {
        return Err(MangleError::NotUpdated);
    }
    if source_topic.set_in("value", "status", actuator_topic.at(input_key.as_str())) {
        Ok(())
    } else {
        Err(MangleError::Malformed)
    }
}

/// A floor valve after the telemetry of its actuator.
pub open spec fn floor_valve_mangled(source: JsonView, channel: Seq<char>, actuator: JsonView) -> Result<
    JsonView,
    MangleError,
> {
    if source.settable_in("value"@) {
        Ok(source.with_in("value"@, "status"@, actuator.at("output"@ + channel)))
    } else {
        Err(MangleError::Malformed)
    }
}

/// A floor valve shows the output of its channel.
pub fn mangle_domo_floor_valve(source_topic: &mut Json, channel_number_str: &str, actuator_topic: &Json) -> (r:
    Result<(), MangleError>)
    ensures
        match r {
            Ok(_) => floor_valve_mangled(old(source_topic)@, channel_number_str@, actuator_topic@) == Ok::<
                JsonView,
                MangleError,
            >(final(source_topic)@),
            Err(e) => floor_valve_mangled(old(source_topic)@, channel_number_str@, actuator_topic@) == Err::<
                JsonView,
                MangleError,
            >(e) && final(source_topic)@ == old(source_topic)@,
        },
{
    let output_key = join2("output", channel_number_str);
    if source_topic.set_in("value", "status", actuator_topic.at(output_key.as_str())) {
        Ok(())
    } else {
        Err(MangleError::Malformed)
    }
}

/// A roller shutter or a garage gate after the telemetry of its actuator.
pub open spec fn roller_shutter_garage_gate_mangled(source: JsonView, actuator: JsonView) -> Result<
    JsonView,
    MangleError,
> {
    if source.settable_in("value"@) {
        Ok(source.with_in("value"@, "shutter_status"@, actuator.at("shutter_status"@)))
    } else {
        Err(MangleError::Malformed)
    }
}

/// A roller shutter or a garage gate shows the shutter status.
pub fn mangle_domo_roller_shutter_garage_gate(source_topic: &mut Json, actuator_topic: &Json) -> (r:
    Result<(), MangleError>)
    ensures
        match r {
            Ok(_) => roller_shutter_garage_gate_mangled(old(source_topic)@, actuator_topic@) == Ok::<
                JsonView,
                MangleError,
            >(final(source_topic)@),
            Err(e) => roller_shutter_garage_gate_mangled(old(source_topic)@, actuator_topic@) == Err::<
                JsonView,
                MangleError,
            >(e) && final(source_topic)@ == old(source_topic)@,
        },
{
    if source_topic.set_in("value", "shutter_status", actuator_topic.at("shutter_status")) {
        Ok(())
    } else {
        Err(MangleError::Malformed)
    }
}

/// A window or door sensor after the telemetry of its target.
pub open spec fn window_sensor_door_sensor_mangled(
    source: JsonView,
    channel: Seq<char>,
    actuator: JsonView,
    target: Seq<char>,
) -> Result<JsonView, MangleError> {
    let status = if target == "domo_ble_contact"@ {
        actuator.at("status"@)
    } else {
        actuator.at("input"@ + channel)
    };
    if source.settable_in("value"@) {
        Ok(source.with_in("value"@, "status"@, status))
    } else {
        Err(MangleError::Malformed)
    }
}

/// A window or door sensor shows the status of a BLE contact sensor, or the
/// input of its channel on any other target.
pub fn somo_window_sensor_door_sensor(
    source_topic: &mut Json,
    channel_number_str: &str,
    actuator_topic: &Json,
    target_topic_name: &str,
) -> (r: Result<(), MangleError>)
    ensures
        match r {
            Ok(_) => window_sensor_door_sensor_mangled(
                old(source_topic)@,
                channel_number_str@,
                actuator_topic@,
                target_topic_name@,
            ) == Ok::<JsonView, MangleError>(final(source_topic)@),
            Err(e) => window_sensor_door_sensor_mangled(
                old(source_topic)@,
                channel_number_str@,
                actuator_topic@,
                target_topic_name@,
            ) == Err::<JsonView, MangleError>(e) && final(source_topic)@ == old(source_topic)@,
        },
{
    let status = if str_eq(target_topic_name, "domo_ble_contact") {
        actuator_topic.at("status")
    } else {
        actuator_topic.at(join2("input", channel_number_str).as_str())
    };
    if source_topic.set_in("value", "status", status) {
        Ok(())
    } else {
        Err(MangleError::Malformed)
    }
}

/// A source of the light, siren and switch kind after a run of telemetry
/// updates, one after the other. An update that writes nothing leaves the
/// source as it is.
pub open spec fn light_after(source: JsonView, channel: Seq<char>, updates: Seq<JsonView>, target: Seq<char>) -> JsonView
    decreases updates.len(),
{
    if updates.len() == 0 {
        source
    } else {
        let before = light_after(source, channel, updates.drop_last(), target);
        match light_siren_switch_mangled(before, channel, updates.last(), target) {
            Ok(s) => s,
            Err(_) => before,
        }
    }
}

/// The energy that one update reports for a channel, in millionths.
pub open spec fn energy_increment(update: JsonView, channel: Seq<char>) -> int {
    match update.at("energy"@ + channel).as_micros() {
        Some(m) => m,
        None => 0,
    }
}

/// The energy that a run of updates reports for a channel, in millionths.
pub open spec fn energy_total(updates: Seq<JsonView>, channel: Seq<char>) -> int
    decreases updates.len(),
{
    if updates.len() == 0 {
        0
    } else {
        energy_total(updates.drop_last(), channel) + energy_increment(updates.last(), channel)
    }
}

/// An update that a metered light can take: it lists its updated
/// properties as texts and reports an energy that is not negative.
pub open spec fn is_metered_update(update: JsonView, channel: Seq<char>) -> bool {
    &&& update.at("updated_properties"@).as_list() is Some
    &&& all_text(update.at("updated_properties"@).as_list().unwrap())
    &&& update.at("energy"@ + channel).as_micros() is Some
    &&& energy_increment(update, channel) >= 0
}

/// The names of the fields that the projection sets are four different
/// texts.
pub proof fn lemma_field_names_differ()
    ensures
        "status"@ != "energy"@,
        "power"@ != "energy"@,
        "updated_properties"@ != "energy"@,
{
    reveal_strlit("status");
    reveal_strlit("energy");
    reveal_strlit("power");
    reveal_strlit("updated_properties");
    assert("status"@[0] != "energy"@[0]);
    assert("power"@.len() != "energy"@.len());
    assert("updated_properties"@.len() != "energy"@.len());
}

/// The actuators that meter are all but two: a `shelly_1pm`, for one, does.
pub proof fn lemma_shelly_1pm_meters()
    ensures
        is_metering("shelly_1pm"@),
        !is_metering("shelly_1"@),
        !is_metering("shelly_1plus"@),
{
    reveal_strlit("shelly_1pm");
    reveal_strlit("shelly_1");
    reveal_strlit("shelly_1plus");
    assert("shelly_1pm"@.len() == 10);
    assert("shelly_1"@.len() == 8);
    assert("shelly_1plus"@.len() == 12);
}

/// One update of a light on an actuator that meters adds the energy that
/// the update reports to the energy that the light showed, exactly.
pub proof fn lemma_energy_step(source: JsonView, channel: Seq<char>, update: JsonView, target: Seq<char>)
    requires
        is_metering(target),
        light_siren_switch_mangled(source, channel, update, target) is Ok,
    ensures
        ({
            let after = light_siren_switch_mangled(source, channel, update, target).unwrap();
            &&& update.at("energy"@ + channel).as_micros() is Some
            &&& energy_so_far(after) == energy_so_far(source) + energy_increment(update, channel)
            &&& after.at("value"@).at("energy"@) == JsonView::Number(
                Number::Micros((energy_so_far(source) + energy_increment(update, channel)) as i64),
            )
            &&& after.settable_in("value"@)
        }),
{
    lemma_field_names_differ();
}

/// The energy that a light shows never falls: after a run of updates that
/// report no negative energy, whatever else they hold and whatever the
/// actuator is, the light shows at least the energy that it showed before.
pub proof fn lemma_energy_never_falls(
    source: JsonView,
    channel: Seq<char>,
    updates: Seq<JsonView>,
    target: Seq<char>,
)
    requires
        forall|i: int| 0 <= i < updates.len() ==> energy_increment(#[trigger] updates[i], channel) >= 0,
    ensures
        energy_so_far(light_after(source, channel, updates, target)) >= energy_so_far(source),
    decreases updates.len(),
{
    if updates.len() > 0 {
        let head = updates.drop_last();
        assert forall|i: int| 0 <= i < head.len() implies energy_increment(#[trigger] head[i], channel) >= 0 by {
            assert(head[i] == updates[i]);
        }
        lemma_energy_never_falls(source, channel, head, target);
        let before = light_after(source, channel, head, target);
        assert(energy_increment(updates.last(), channel) >= 0);
        if light_siren_switch_mangled(before, channel, updates.last(), target) is Ok {
            lemma_field_names_differ();
            if is_metering(target) {
                lemma_energy_step(before, channel, updates.last(), target);
            }
        }
    }
}

/// On an actuator that meters, the energy that a light shows after a run of
/// updates is the energy it showed before plus the sum of the energies that
/// the updates report, as long as that sum can be held. This holds of every
/// prefix of the run, each being a run itself.
pub proof fn lemma_energy_is_prefix_sum(
    source: JsonView,
    channel: Seq<char>,
    updates: Seq<JsonView>,
    target: Seq<char>,
)
    requires
        is_metering(target),
        source.settable_in("value"@),
        forall|i: int| 0 <= i < updates.len() ==> is_metered_update(#[trigger] updates[i], channel),
        i64::MIN <= energy_so_far(source),
        energy_so_far(source) + energy_total(updates, channel) <= i64::MAX,
    ensures
        light_after(source, channel, updates, target).settable_in("value"@),
        energy_so_far(light_after(source, channel, updates, target)) == energy_so_far(source) + energy_total(
            updates,
            channel,
        ),
        energy_total(updates, channel) >= 0,
    decreases updates.len(),
{
    if updates.len() > 0 {
        let head = updates.drop_last();
        let last = updates.last();
        assert(is_metered_update(last, channel));
        assert forall|i: int| 0 <= i < head.len() implies is_metered_update(#[trigger] head[i], channel) by {
            assert(head[i] == updates[i]);
        }
        lemma_energy_total_not_negative(head, channel);
        lemma_energy_is_prefix_sum(source, channel, head, target);
        let before = light_after(source, channel, head, target);
        assert(light_siren_switch_mangled(before, channel, last, target) is Ok);
        lemma_energy_step(before, channel, last, target);
    }
}

proof fn lemma_energy_total_not_negative(updates: Seq<JsonView>, channel: Seq<char>)
    requires
        forall|i: int| 0 <= i < updates.len() ==> is_metered_update(#[trigger] updates[i], channel),
    ensures
        energy_total(updates, channel) >= 0,
    decreases updates.len(),
{
    if updates.len() > 0 {
        let head = updates.drop_last();
        assert forall|i: int| 0 <= i < head.len() implies is_metered_update(#[trigger] head[i], channel) by {
            assert(head[i] == updates[i]);
        }
        assert(is_metered_update(updates.last(), channel));
        lemma_energy_total_not_negative(head, channel);
    }
}

} // verus!
