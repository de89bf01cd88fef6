//! The sessions of the actuators of the second generation, which connect to
//! the bridge: what a status of theirs holds, and what a session does on
//! each event. The sockets and channels themselves are not held here.

use crate::actions::{request_action, request_of};
use crate::json::{list_view, Json, JsonView};
use crate::messages::{
    beacon_of, BleBeaconMessage, BleBeaconView, ESP32CommandMessage, ESP32CommandType, ESP32CommandView,
};
use crate::shellymanager::{Frame, PONG_TIMEOUT_SECS};
use crate::text::str_eq;
use crate::utils::{is_older_than, older_than};
use vstd::prelude::*;
use vstd::string::*;

verus! {

/// The messages that each channel between the sessions and the bridge
/// holds before it drops the oldest.
pub const CHANNEL_CAPACITY: usize = 16;

/// Whether an updated property is one that carries a beacon.
pub open spec fn is_beacon_property(prop: JsonView) -> bool {
    prop.as_text() == Some("beacon_adv"@) || prop.as_text() == Some("valve_operation"@)
}

/// The beacon that an updated property of a status carries: the line under
/// the property's name, forwarded by the actuator that the status names.
pub open spec fn beacon_for(status: JsonView, prop: JsonView) -> Option<BleBeaconView> {
    match (prop.as_text(), status.at("mac_address"@).as_text()) {
        (Some(name), Some(actuator)) => if is_beacon_property(prop) {
            match status.at(name).as_text() {
                Some(line) => beacon_of(line, actuator),
                None => None,
            }
        } else {
            None
        },
        _ => None,
    }
}

/// The beacons that the updated properties of a status carry, in their
/// order.
pub open spec fn beacons_of(status: JsonView, props: Seq<JsonView>) -> Seq<BleBeaconView>
    decreases props.len(),
{
    if props.len() == 0 {
        Seq::empty()
    } else {
        let head = beacons_of(status, props.drop_last());
        match beacon_for(status, props.last()) {
            Some(b) => head.push(b),
            None => head,
        }
    }
}

/// Every updated property carries a beacon.
pub open spec fn only_beacons(props: Seq<JsonView>) -> bool {
    forall|i: int| 0 <= i < props.len() ==> is_beacon_property(#[trigger] props[i])
}

/// The views of a list of beacons.
pub open spec fn beacons_view(b: Seq<BleBeaconMessage>) -> Seq<BleBeaconView> {
    Seq::new(b.len(), |i: int| b[i]@)
}

/// Reads the status of a second-generation actuator. The beacons that it
/// carries come back, and whether it carries nothing else, in which case
/// the status is not telemetry of the actuator itself. A status without a
/// list of updated properties carries no beacons and is telemetry.
pub fn parse_esp32_message(status_result: &Json) -> (r: (bool, Vec<BleBeaconMessage>))
    ensures
        match status_result@.at("updated_properties"@).as_list() {
            Some(props) => r.0 == only_beacons(props) && beacons_view(r.1@) == beacons_of(
                status_result@,
                props,
            ),
            None => !r.0 && r.1@.len() == 0,
        },
{
    let mut beacons: Vec<BleBeaconMessage> = Vec::new();
    let listed = status_result.at("updated_properties");
    let vec_prop = match listed.as_array() {
        Some(p) => p,
        None => {
            return (false, beacons);
        },
    };
    let actuator_field = status_result.at("mac_address");
    let ghost props = list_view(vec_prop@);
    let mut only = true;
    let mut i: usize = 0;
    assert(props.take(0) =~= Seq::empty());
    while i < vec_prop.len()
        invariant
            i <= vec_prop.len(),
            props == list_view(vec_prop@),
            actuator_field@ == status_result@.at("mac_address"@),
            only == only_beacons(props.take(i as int)),
            beacons_view(beacons@) == beacons_of(status_result@, props.take(i as int)),
        decreases vec_prop.len() - i,
    {
        let ghost before = beacons_view(beacons@);
        proof {
            assert(props.take(i + 1).drop_last() =~= props.take(i as int));
            assert(props.take(i + 1).last() == vec_prop@[i as int]@);
        }
        let carries = match vec_prop[i].as_str() {
            Some(name) => {
                if str_eq(name, "beacon_adv") || str_eq(name, "valve_operation") {
                    let line_field = status_result.at(name);
                    match (line_field.as_str(), actuator_field.as_str()) {
                        (Some(line), Some(actuator)) => {
                            match BleBeaconMessage::from(line, actuator) {
                                Some(b) => {
                                    beacons.push(b);
                                    assert(beacons_view(beacons@) =~= before.push(b@));
                                },
                                None => {},
                            }
                        },
                        _ => {},
                    }
                    true
                } else {
                    false
                }
            },
            None => false,
        };
        proof {
            let next = props.take(i + 1);
            if only && carries {
                assert forall|j: int| 0 <= j < next.len() implies is_beacon_property(#[trigger] next[j]) by {
                    if j < i {
                        assert(props.take(i as int)[j] == next[j]);
                    }
                }
            } else if !carries {
                assert(!is_beacon_property(next[i as int]));
            } else {
                let j = choose|j: int| 0 <= j < i && !is_beacon_property(#[trigger] props.take(i as int)[j]);
                assert(!is_beacon_property(next[j]));
            }
        }
        only = only && carries;
        i += 1;
    }
    assert(props.take(i as int) =~= props);
    (only, beacons)
}

/// What is known of a session. The time is in milliseconds.
#[derive(Debug)]
pub struct Esp32Session {
    pub mac_address: String,
    pub last_pong_timestamp: u64,
}

/// What comes to a session.
pub enum SessionEvent {
    /// A command from the bridge.
    Command(ESP32CommandMessage),
    /// A frame from the actuator.
    Frame(Frame),
}

/// What a session does after an event.
pub enum SessionAction {
    /// The message goes to the actuator.
    Send(Json),
    /// A ping goes to the actuator.
    Ping,
    /// The text is a message of the actuator, to be read.
    Read(String),
    /// The session ends.
    Close,
    Nothing,
}

/// The model of an action.
pub enum SessionActionView {
    Send(JsonView),
    Ping,
    Read(Seq<char>),
    Close,
    Nothing,
}

impl View for SessionAction {
    type V = SessionActionView;

    open spec fn view(&self) -> SessionActionView {
        match self {
            SessionAction::Send(m) => SessionActionView::Send(m@),
            SessionAction::Ping => SessionActionView::Ping,
            SessionAction::Read(t) => SessionActionView::Read(t@),
            SessionAction::Close => SessionActionView::Close,
            SessionAction::Nothing => SessionActionView::Nothing,
        }
    }
}

/// What a session of an actuator does with a command. An actuator command
/// is for the actuator it names, a valve command for the actuator that
/// carries it; either goes out as the request for its action. A ping
/// command ends a session whose actuator has not answered for more than
/// the timeout, and pings the actuator otherwise.
pub open spec fn commanded(mac: Seq<char>, last_pong: u64, command: ESP32CommandView, now: u64) -> SessionActionView {
    let addressed = match command.command_type {
        ESP32CommandType::Valve => command.actuator_mac_address,
        _ => command.mac_address,
    };
    if command.command_type == ESP32CommandType::Ping {
        if is_older_than(last_pong, now, PONG_TIMEOUT_SECS) {
            SessionActionView::Close
        } else {
            SessionActionView::Ping
        }
    } else {
        match command.payload.get("shelly_action"@) {
            Some(action) => if addressed == mac {
                SessionActionView::Send(request_of(action))
            } else {
                SessionActionView::Nothing
            },
            None => SessionActionView::Nothing,
        }
    }
}

/// The address of the actuator that a login answer names; empty where it
/// names none.
pub open spec fn session_address(cred: JsonView) -> Seq<char> {
    match cred.at("mac_address"@).as_text() {
        Some(mac) => mac,
        None => Seq::empty(),
    }
}

impl Esp32Session {
    /// The session of the actuator that logged in at a time, given the
    /// answer of the cache to its login.
    pub fn new(cred: &Json, now: u64) -> (r: Esp32Session)
        ensures
            r.mac_address@ == session_address(cred@),
            r.last_pong_timestamp == now,
    {
        let mac_field = cred.at("mac_address");
        let mac_address = match mac_field.as_str() {
            Some(m) => String::from_str(m),
            None => String::new(),
        };
        Esp32Session { mac_address, last_pong_timestamp: now }
    }
}

/// The bridge's server for the actuators of the second generation.
#[derive(Debug)]
pub struct WssManager {
    /// The port that the server listens on.
    pub http_port: u16,
}

impl WssManager {
    /// The server on a port.
    pub fn new(http_port: u16) -> (r: WssManager)
        ensures
            r.http_port == http_port,
    {
        WssManager { http_port }
    }

    /// What a session does with an event that comes at a time. A text frame
    /// is handed back to be read, a pong renews the session, a close frame
    /// ends it.
    pub fn handle_websocket_req(session: &mut Esp32Session, event: SessionEvent, now: u64) -> (r: SessionAction)
        ensures
            final(session).mac_address == old(session).mac_address,
            final(session).last_pong_timestamp == (if event matches SessionEvent::Frame(Frame::Pong) {
                now
            } else {
                old(session).last_pong_timestamp
            }),
            match event {
                SessionEvent::Command(c) => r@ == commanded(
                    old(session).mac_address@,
                    old(session).last_pong_timestamp,
                    c@,
                    now,
                ),
                SessionEvent::Frame(Frame::Text(t)) => r@ == SessionActionView::Read(t@),
                SessionEvent::Frame(Frame::Close) => r is Close,
                SessionEvent::Frame(_) => r is Nothing,
            },
    {
        match event {
            SessionEvent::Command(cmd) => {
                match cmd.command_type {
                    ESP32CommandType::Ping => {
                        if older_than(session.last_pong_timestamp, now, PONG_TIMEOUT_SECS) {
                            SessionAction::Close
                        } else {
                            SessionAction::Ping
                        }
                    },
                    ESP32CommandType::Valve => {
                        match cmd.payload.get("shelly_action") {
                            Some(action) => {
                                if str_eq(session.mac_address.as_str(), cmd.actuator_mac_address.as_str()) {
                                    SessionAction::Send(request_action(action.duplicate()))
                                } else {
                                    SessionAction::Nothing
                                }
                            },
                            None => SessionAction::Nothing,
                        }
                    },
                    ESP32CommandType::Actuator => {
                        match cmd.payload.get("shelly_action") {
                            Some(action) => {
                                if str_eq(cmd.mac_address.as_str(), session.mac_address.as_str()) {
                                    SessionAction::Send(request_action(action.duplicate()))
                                } else {
                                    SessionAction::Nothing
                                }
                            },
                            None => SessionAction::Nothing,
                        }
                    },
                }
            },
            SessionEvent::Frame(frame) => {
                match frame {
                    Frame::Text(t) => SessionAction::Read(t),
                    Frame::Close => SessionAction::Close,
                    Frame::Pong => {
                        session.last_pong_timestamp = now;
                        SessionAction::Nothing
                    },
                    _ => SessionAction::Nothing,
                }
            },
        }
    }
}

} // verus!
