//! Resolution of the logical commands of the cache into actions of the
//! actuator that is bound to the commanded topic.

use crate::actions::{
    action_of, compact_text, control_radiator_valve_payload, control_radiator_valve_text, object2,
    set_dimmer_payload, set_dimmer_text, set_led_dimmer_payload, set_led_dimmer_text, set_output_payload,
    set_output_text, set_rgbw_payload, set_rgbw_text, set_shutter_payload, set_shutter_text, shelly_action,
};
use crate::dhtmanager::{found, DHTCommand, DHTCommandView, DHTManager, ProbeView};
use crate::json::{Json, JsonView};
use crate::text::str_eq;
use crate::topic_from_actuator_topic::rgbw_colour;
use vstd::prelude::*;

verus! {

/// Why a command could not be resolved.
#[derive(Clone, Copy, Debug, PartialEq, Eq, Structural)]
pub enum CommandError {
    /// The commanded topic's identifier is no text.
    TopicUuid,
    /// The desired state does not have the type that the command takes.
    DesiredState,
    /// The shutter command is no text.
    ShutterCommand,
    /// The binding of the commanded topic has no value.
    NoConnection,
    /// The kind of the bound actuator is no text.
    TargetTopicName,
    /// The identifier of the bound actuator is no text.
    TargetTopicUuid,
    /// The bound channel is no whole number.
    TargetChannelNumber,
    /// The cache does not know the binding, the actuator or the valve.
    NotFound,
    /// The command lacks a part, or the actuator cannot follow it.
    NotAbleToParseCommand,
    /// The message holds no command that the bridge knows.
    NotAbleToParseMessage,
    /// The event of the cache is no volatile message.
    NotVolatile,
}

/// The short text that names an error to the peer that sent the command.
pub open spec fn short_text(e: CommandError) -> Seq<char> {
    match e {
        CommandError::TopicUuid => "err_topic_uuid"@,
        CommandError::DesiredState => "err_desired_state"@,
        CommandError::ShutterCommand => "err_shutter_command"@,
        CommandError::NoConnection => "no connection"@,
        CommandError::TargetTopicName => "err_target_topic_name"@,
        CommandError::TargetTopicUuid => "err_target_topic_uuid"@,
        CommandError::TargetChannelNumber => "err_target_channel_number"@,
        CommandError::NotFound => "not found"@,
        CommandError::NotAbleToParseCommand => "not_able_to_parse_command"@,
        CommandError::NotAbleToParseMessage => "not able to parse message"@,
        CommandError::NotVolatile => "not a volatile message"@,
    }
}

impl CommandError {
    /// The short text that goes back to the peer that sent the command.
    pub fn message(&self) -> (r: &'static str)
        ensures
            r@ == short_text(*self),
    {
        match self {
            CommandError::TopicUuid => "err_topic_uuid",
            CommandError::DesiredState => "err_desired_state",
            CommandError::ShutterCommand => "err_shutter_command",
            CommandError::NoConnection => "no connection",
            CommandError::TargetTopicName => "err_target_topic_name",
            CommandError::TargetTopicUuid => "err_target_topic_uuid",
            CommandError::TargetChannelNumber => "err_target_channel_number",
            CommandError::NotFound => "not found",
            CommandError::NotAbleToParseCommand => "not_able_to_parse_command",
            CommandError::NotAbleToParseMessage => "not able to parse message",
            CommandError::NotVolatile => "not a volatile message",
        }
    }
}

/// The actuator channel that a topic is bound to.
pub struct Target {
    pub topic_name: String,
    pub channel_number: u64,
    pub mac_address: Json,
}

/// The model of a target.
pub struct TargetView {
    pub topic_name: Seq<char>,
    pub channel_number: u64,
    pub mac_address: JsonView,
}

impl View for Target {
    type V = TargetView;

    open spec fn view(&self) -> TargetView {
        TargetView {
            topic_name: self.topic_name@,
            channel_number: self.channel_number,
            mac_address: self.mac_address@,
        }
    }
}

/// The actuator channel that the binding with an identifier names, with the
/// actuator's address as the cache holds it.
pub open spec fn target_of(cache: Seq<JsonView>, topic_uuid: Seq<char>) -> Result<TargetView, CommandError> {
    match found(cache, ProbeView::Uuid("domo_actuator_connection"@, topic_uuid)) {
        None => Err(CommandError::NotFound),
        Some(binding) => match binding.get("value"@) {
            None => Err(CommandError::NoConnection),
            Some(c) => if c.get("target_topic_name"@) is None || c.get("target_topic_uuid"@) is None || c.get(
                "target_channel_number"@,
            ) is None {
                Err(CommandError::NotAbleToParseCommand)
            } else if c.at("target_topic_name"@).as_text() is None {
                Err(CommandError::TargetTopicName)
            } else if c.at("target_topic_uuid"@).as_text() is None {
                Err(CommandError::TargetTopicUuid)
            } else if c.at("target_channel_number"@).as_u64() is None {
                Err(CommandError::TargetChannelNumber)
            } else {
                let name = c.at("target_topic_name"@).as_text().unwrap();
                let uuid = c.at("target_topic_uuid"@).as_text().unwrap();
                match found(cache, ProbeView::Uuid(name, uuid)) {
                    None => Err(CommandError::NotFound),
                    Some(actuator) => match actuator.at("value"@).get("mac_address"@) {
                        None => Err(CommandError::NotAbleToParseCommand),
                        Some(mac) => Ok(
                            (TargetView {
                                topic_name: name,
                                channel_number: c.at("target_channel_number"@).as_u64().unwrap(),
                                mac_address: mac,
                            }),
                        ),
                    },
                }
            },
        },
    }
}

fn resolve_target(dht_manager: &DHTManager, topic_uuid: &str) -> (r: Result<Target, CommandError>)
    ensures
        match r {
            Ok(t) => target_of(dht_manager@.cache, topic_uuid@) == Ok::<TargetView, CommandError>(t@),
            Err(e) => target_of(dht_manager@.cache, topic_uuid@) == Err::<TargetView, CommandError>(e),
        },
{
    let binding = match dht_manager.get_topic_uuid("domo_actuator_connection", topic_uuid) {
        Ok(b) => b,
        Err(_) => {
            return Err(CommandError::NotFound);
        },
    };
    let c = match binding.get("value") {
        Some(c) => c,
        None => {
            return Err(CommandError::NoConnection);
        },
    };
    if c.get("target_topic_name").is_none() || c.get("target_topic_uuid").is_none() || c.get(
        "target_channel_number",
    ).is_none() {
        return Err(CommandError::NotAbleToParseCommand);
    }
    let name_field = c.at("target_topic_name");
    let name = match name_field.as_str() {
        Some(n) => n,
        None => {
            return Err(CommandError::TargetTopicName);
        },
    };
    let uuid_field = c.at("target_topic_uuid");
    let uuid = match uuid_field.as_str() {
        Some(u) => u,
        None => {
            return Err(CommandError::TargetTopicUuid);
        },
    };
    let channel_number = match c.at("target_channel_number").as_u64() {
        Some(n) => n,
        None => {
            return Err(CommandError::TargetChannelNumber);
        },
    };
    let actuator = match dht_manager.get_topic_uuid(name, uuid) {
        Ok(a) => a,
        Err(_) => {
            return Err(CommandError::NotFound);
        },
    };
    let value = actuator.at("value");
    match value.get("mac_address") {
        Some(mac) => Ok(
            Target { topic_name: name.to_owned(), channel_number, mac_address: mac.duplicate() },
        ),
        None => Err(CommandError::NotAbleToParseCommand),
    }
}

/// The value of a resolved command: the device's address and the action.
pub open spec fn command_value(mac_address: JsonView, action: JsonView) -> JsonView {
    object2("mac_address"@, mac_address, "shelly_action"@, action)
}

fn actuator_command(mac_address: Json, name: &str, payload_text: String) -> (r: DHTCommand)
    ensures
        r@ == DHTCommandView::ActuatorCommand(command_value(mac_address@, action_of(name@, payload_text@))),
{
    let mut value = Json::Null;
    value.set("mac_address", mac_address);
    value.set("shelly_action", shelly_action(name, payload_text));
    DHTCommand::ActuatorCommand(value)
}

/// The action for a command to turn an output on or off. The command has
/// to name the commanded topic by a text and the desired state by a
/// boolean; one that lacks either is an error that names the field.
pub open spec fn turn_command(cache: Seq<JsonView>, command: JsonView) -> Result<DHTCommandView, CommandError> {
    match command.get("value"@) {
        None => Err(CommandError::NotAbleToParseCommand),
        Some(value) => if value.at("topic_uuid"@).as_text() is None {
            Err(CommandError::TopicUuid)
        } else if value.at("desired_state"@).as_bool() is None {
            Err(CommandError::DesiredState)
        } else {
            match target_of(cache, value.at("topic_uuid"@).as_text().unwrap()) {
                Err(e) => Err(e),
                Ok(t) => Ok(
                    DHTCommandView::ActuatorCommand(
                        command_value(
                            t.mac_address,
                            action_of(
                                "set_output"@,
                                compact_text(
                                    set_output_payload(
                                        t.channel_number,
                                        value.at("desired_state"@).as_bool().unwrap(),
                                    ),
                                ),
                            ),
                        ),
                    ),
                ),
            }
        },
    }
}

/// Resolves a command to turn an output on or off.
pub fn handle_turn_command(dht_manager: &DHTManager, command: &Json) -> (r: Result<DHTCommand, CommandError>)
    ensures
        match r {
            Ok(c) => turn_command(dht_manager@.cache, command@) == Ok::<DHTCommandView, CommandError>(c@),
            Err(e) => turn_command(dht_manager@.cache, command@) == Err::<DHTCommandView, CommandError>(e),
        },
{
    let value = match command.get("value") {
        Some(v) => v,
        None => {
            return Err(CommandError::NotAbleToParseCommand);
        },
    };
    let uuid_field = value.at("topic_uuid");
    let topic_uuid = match uuid_field.as_str() {
        Some(u) => u,
        None => {
            return Err(CommandError::TopicUuid);
        },
    };
    let desired_state = match value.at("desired_state").as_bool() {
        Some(b) => b,
        None => {
            return Err(CommandError::DesiredState);
        },
    };
    match resolve_target(dht_manager, topic_uuid) {
        Ok(t) => Ok(
            actuator_command(t.mac_address, "set_output", set_output_text(t.channel_number, desired_state)),
        ),
        Err(e) => Err(e),
    }
}

/// The number of a shutter command: `down` is 1, `stop` is 2, and `up` and
/// any other word are 0.
pub open spec fn shutter_number(word: Seq<char>) -> u64 {
    if word == "stop"@ {
        2
    } else if word == "down"@ {
        1
    } else {
        0
    }
}

/// The action for a command to move a shutter.
pub open spec fn shutter_command(cache: Seq<JsonView>, command: JsonView) -> Result<
    DHTCommandView,
    CommandError,
> {
    match command.get("value"@) {
        None => Err(CommandError::NotAbleToParseCommand),
        Some(value) => if value.at("topic_uuid"@).as_text() is None {
            Err(CommandError::TopicUuid)
        } else if value.at("shutter_command"@).as_text() is None {
            Err(CommandError::ShutterCommand)
        } else {
            match target_of(cache, value.at("topic_uuid"@).as_text().unwrap()) {
                Err(e) => Err(e),
                Ok(t) => Ok(
                    DHTCommandView::ActuatorCommand(
                        command_value(
                            t.mac_address,
                            action_of(
                                "set_shutter"@,
                                compact_text(
                                    set_shutter_payload(
                                        shutter_number(value.at("shutter_command"@).as_text().unwrap()),
                                    ),
                                ),
                            ),
                        ),
                    ),
                ),
            }
        },
    }
}

/// Resolves a command to move a shutter.
pub fn handle_shutter_command(dht_manager: &DHTManager, command: &Json) -> (r: Result<
    DHTCommand,
    CommandError,
>)
    ensures
        match r {
            Ok(c) => shutter_command(dht_manager@.cache, command@) == Ok::<DHTCommandView, CommandError>(c@),
            Err(e) => shutter_command(dht_manager@.cache, command@) == Err::<DHTCommandView, CommandError>(e),
        },
{
    let value = match command.get("value") {
        Some(v) => v,
        None => {
            return Err(CommandError::NotAbleToParseCommand);
        },
    };
    let uuid_field = value.at("topic_uuid");
    let topic_uuid = match uuid_field.as_str() {
        Some(u) => u,
        None => {
            return Err(CommandError::TopicUuid);
        },
    };
    let word_field = value.at("shutter_command");
    let word = match word_field.as_str() {
        Some(w) => w,
        None => {
            return Err(CommandError::ShutterCommand);
        },
    };
    let number: u64 = if str_eq(word, "stop") {
        2
    } else if str_eq(word, "down") {
        1
    } else {
        0
    };
    match resolve_target(dht_manager, topic_uuid) {
        Ok(t) => Ok(actuator_command(t.mac_address, "set_shutter", set_shutter_text(number))),
        Err(e) => Err(e),
    }
}

/// The colour that a channel of an LED dimmer drives: red unless the
/// channel is one of 2, 3 and 4.
pub open spec fn led_channel(channel_number: u64) -> Seq<char> {
    match rgbw_colour(channel_number) {
        Some(c) => c,
        None => "r"@,
    }
}

/// The action for a command to dim a light: on a dimmer its level, on an
/// RGBW actuator the level of the bound colour. Other actuators cannot dim.
pub open spec fn dim_command(cache: Seq<JsonView>, command: JsonView) -> Result<DHTCommandView, CommandError> {
    match command.get("value"@) {
        None => Err(CommandError::NotAbleToParseCommand),
        Some(value) => if value.at("topic_uuid"@).as_text() is None {
            Err(CommandError::TopicUuid)
        } else if value.at("desired_state"@).as_u64() is None {
            Err(CommandError::DesiredState)
        } else {
            let level = value.at("desired_state"@).as_u64().unwrap();
            match target_of(cache, value.at("topic_uuid"@).as_text().unwrap()) {
                Err(e) => Err(e),
                Ok(t) => if t.topic_name == "shelly_dimmer"@ {
                    Ok(
                        DHTCommandView::ActuatorCommand(
                            command_value(
                                t.mac_address,
                                action_of("set_dimmer"@, compact_text(set_dimmer_payload(level))),
                            ),
                        ),
                    )
                } else if t.topic_name == "shelly_rgbw"@ {
                    Ok(
                        DHTCommandView::ActuatorCommand(
                            command_value(
                                t.mac_address,
                                action_of(
                                    "set_led_dimmer"@,
                                    compact_text(set_led_dimmer_payload(led_channel(t.channel_number), level)),
                                ),
                            ),
                        ),
                    )
                } else {
                    Err(CommandError::NotAbleToParseCommand)
                },
            }
        },
    }
}

/// Resolves a command to dim a light.
pub fn handle_dim_command(dht_manager: &DHTManager, command: &Json) -> (r: Result<DHTCommand, CommandError>)
    ensures
        match r {
            Ok(c) => dim_command(dht_manager@.cache, command@) == Ok::<DHTCommandView, CommandError>(c@),
            Err(e) => dim_command(dht_manager@.cache, command@) == Err::<DHTCommandView, CommandError>(e),
        },
{
    let value = match command.get("value") {
        Some(v) => v,
        None => {
            return Err(CommandError::NotAbleToParseCommand);
        },
    };
    let uuid_field = value.at("topic_uuid");
    let topic_uuid = match uuid_field.as_str() {
        Some(u) => u,
        None => {
            return Err(CommandError::TopicUuid);
        },
    };
    let level = match value.at("desired_state").as_u64() {
        Some(n) => n,
        None => {
            return Err(CommandError::DesiredState);
        },
    };
    let t = match resolve_target(dht_manager, topic_uuid) {
        Ok(t) => t,
        Err(e) => {
            return Err(e);
        },
    };
    if str_eq(t.topic_name.as_str(), "shelly_dimmer") {
        Ok(actuator_command(t.mac_address, "set_dimmer", set_dimmer_text(level)))
    } else if str_eq(t.topic_name.as_str(), "shelly_rgbw") {
        let channel = if t.channel_number == 2 {
            "g"
        } else if t.channel_number == 3 {
            "b"
        } else if t.channel_number == 4 {
            "w"
        } else {
            "r"
        };
        Ok(actuator_command(t.mac_address, "set_led_dimmer", set_led_dimmer_text(channel, level)))
    } else {
        Err(CommandError::NotAbleToParseCommand)
    }
}

/// The four levels that a command for an RGBW light asks for.
pub open spec fn rgbw_levels(state: JsonView) -> Option<(u64, u64, u64, u64)> {
    match (state.at("r"@).as_u64(), state.at("g"@).as_u64(), state.at("b"@).as_u64(), state.at("w"@).as_u64()) {
        (Some(r), Some(g), Some(b), Some(w)) => Some((r, g, b, w)),
        _ => None,
    }
}

/// The action for a command to set the four levels of an RGBW light.
pub open spec fn rgbw_command(cache: Seq<JsonView>, command: JsonView) -> Result<DHTCommandView, CommandError> {
    match command.get("value"@) {
        None => Err(CommandError::NotAbleToParseCommand),
        Some(value) => if value.at("topic_uuid"@).as_text() is None {
            Err(CommandError::TopicUuid)
        } else if rgbw_levels(value.at("desired_state"@)) is None {
            Err(CommandError::DesiredState)
        } else {
            let (r, g, b, w) = rgbw_levels(value.at("desired_state"@)).unwrap();
            match target_of(cache, value.at("topic_uuid"@).as_text().unwrap()) {
                Err(e) => Err(e),
                Ok(t) => Ok(
                    DHTCommandView::ActuatorCommand(
                        command_value(
                            t.mac_address,
                            action_of("set_rgbw"@, compact_text(set_rgbw_payload(r, g, b, w))),
                        ),
                    ),
                ),
            }
        },
    }
}

/// Resolves a command to set the four levels of an RGBW light.
pub fn handle_rgbw_command(dht_manager: &DHTManager, command: &Json) -> (r: Result<DHTCommand, CommandError>)
    ensures
        match r {
            Ok(c) => rgbw_command(dht_manager@.cache, command@) == Ok::<DHTCommandView, CommandError>(c@),
            Err(e) => rgbw_command(dht_manager@.cache, command@) == Err::<DHTCommandView, CommandError>(e),
        },
{
    let value = match command.get("value") {
        Some(v) => v,
        None => {
            return Err(CommandError::NotAbleToParseCommand);
        },
    };
    let uuid_field = value.at("topic_uuid");
    let topic_uuid = match uuid_field.as_str() {
        Some(u) => u,
        None => {
            return Err(CommandError::TopicUuid);
        },
    };
    let state = value.at("desired_state");
    let levels = match (state.at("r").as_u64(), state.at("g").as_u64(), state.at("b").as_u64(), state.at(
        "w",
    ).as_u64()) {
        (Some(r), Some(g), Some(b), Some(w)) => (r, g, b, w),
        _ => {
            return Err(CommandError::DesiredState);
        },
    };
    match resolve_target(dht_manager, topic_uuid) {
        Ok(t) => Ok(
            actuator_command(
                t.mac_address,
                "set_rgbw",
                set_rgbw_text(levels.0, levels.1, levels.2, levels.3),
            ),
        ),
        Err(e) => Err(e),
    }
}

/// The value of a resolved valve command: the valve's address, the state
/// asked for and the action.
pub open spec fn valve_command_value(mac_address: Seq<char>, desired: bool) -> JsonView {
    JsonView::Null.with("mac_address"@, JsonView::Text(mac_address)).with(
        "desired_state"@,
        JsonView::Bool(desired),
    ).with(
        "shelly_action"@,
        action_of(
            "control_radiator_valve"@,
            compact_text(control_radiator_valve_payload(mac_address, desired)),
        ),
    )
}

/// The action for a command to open or close a radiator valve. The valve
/// is found by its topic's identifier and has to name its address.
pub open spec fn valve_command(cache: Seq<JsonView>, command: JsonView) -> Result<DHTCommandView, CommandError> {
    match command.get("value"@) {
        None => Err(CommandError::NotAbleToParseCommand),
        Some(value) => if value.at("topic_uuid"@).as_text() is None {
            Err(CommandError::TopicUuid)
        } else if value.at("desired_state"@).as_bool() is None {
            Err(CommandError::DesiredState)
        } else {
            match found(cache, ProbeView::Uuid("domo_ble_valve"@, value.at("topic_uuid"@).as_text().unwrap())) {
                None => Err(CommandError::NotFound),
                Some(valve) => match valve.at("value"@).at("mac_address"@).as_text() {
                    None => Err(CommandError::NotAbleToParseCommand),
                    Some(mac) => Ok(
                        DHTCommandView::ValveCommand(
                            valve_command_value(mac, value.at("desired_state"@).as_bool().unwrap()),
                        ),
                    ),
                },
            }
        },
    }
}

/// Resolves a command to open or close a radiator valve.
pub fn handle_valve_command(dht_manager: &DHTManager, command: &Json) -> (r: Result<DHTCommand, CommandError>)
    ensures
        match r {
            Ok(c) => valve_command(dht_manager@.cache, command@) == Ok::<DHTCommandView, CommandError>(c@),
            Err(e) => valve_command(dht_manager@.cache, command@) == Err::<DHTCommandView, CommandError>(e),
        },
{
    let value = match command.get("value") {
        Some(v) => v,
        None => {
            return Err(CommandError::NotAbleToParseCommand);
        },
    };
    let uuid_field = value.at("topic_uuid");
    let topic_uuid = match uuid_field.as_str() {
        Some(u) => u,
        None => {
            return Err(CommandError::TopicUuid);
        },
    };
    let desired = match value.at("desired_state").as_bool() {
        Some(b) => b,
        None => {
            return Err(CommandError::DesiredState);
        },
    };
    let valve = match dht_manager.get_topic_uuid("domo_ble_valve", topic_uuid) {
        Ok(v) => v,
        Err(_) => {
            return Err(CommandError::NotFound);
        },
    };
    let mac_field = valve.at_in("value", "mac_address");
    let mac = match mac_field.as_str() {
        Some(m) => m,
        None => {
            return Err(CommandError::NotAbleToParseCommand);
        },
    };
    let mut out = Json::Null;
    out.set("mac_address", Json::text(mac));
    out.set("desired_state", Json::Bool(desired));
    out.set(
        "shelly_action",
        shelly_action("control_radiator_valve", control_radiator_valve_text(mac, desired)),
    );
    Ok(DHTCommand::ValveCommand(out))
}

} // verus!
