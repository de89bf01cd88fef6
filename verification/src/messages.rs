//! The messages that pass between the bridge's parts.

use crate::json::{Json, JsonView};
use crate::text::{colon_form, mac_with_colons, parse_signed, signed_value, split_seq, str_split, strings_view};
use vstd::prelude::*;

verus! {

/// The credentials that a second-generation actuator presents.
#[derive(Debug)]
pub struct AuthCredMessage {
    pub user: String,
    pub pass: String,
}

/// What a command to the second-generation sessions is for.
#[derive(Clone, Copy, Debug, PartialEq, Eq, Structural)]
pub enum ESP32CommandType {
    Actuator,
    Valve,
    Ping,
}

/// A command to the second-generation sessions.
#[derive(Debug)]
pub struct ESP32CommandMessage {
    pub command_type: ESP32CommandType,
    pub mac_address: String,
    pub payload: Json,
    pub actuator_mac_address: String,
}

/// The model of a command.
pub struct ESP32CommandView {
    pub command_type: ESP32CommandType,
    pub mac_address: Seq<char>,
    pub payload: JsonView,
    pub actuator_mac_address: Seq<char>,
}

impl View for ESP32CommandMessage {
    type V = ESP32CommandView;

    open spec fn view(&self) -> ESP32CommandView {
        ESP32CommandView {
            command_type: self.command_type,
            mac_address: self.mac_address@,
            payload: self.payload@,
            actuator_mac_address: self.actuator_mac_address@,
        }
    }
}

/// A BLE advertisement as a second-generation actuator forwards it.
#[derive(Debug, Clone)]
pub struct BleBeaconMessage {
    pub actuator: String,
    pub mac_address: String,
    pub payload: String,
    pub rssi: i64,
}

/// The model of a beacon.
pub struct BleBeaconView {
    pub actuator: Seq<char>,
    pub mac_address: Seq<char>,
    pub payload: Seq<char>,
    pub rssi: i64,
}

impl View for BleBeaconMessage {
    type V = BleBeaconView;

    open spec fn view(&self) -> BleBeaconView {
        BleBeaconView {
            actuator: self.actuator@,
            mac_address: self.mac_address@,
            payload: self.payload@,
            rssi: self.rssi,
        }
    }
}

/// The piece of a split text at an index, empty where there is none.
pub open spec fn piece(parts: Seq<Seq<char>>, i: int) -> Seq<char> {
    if 0 <= i < parts.len() {
        parts[i]
    } else {
        Seq::empty()
    }
}

/// The beacon that a forwarded line stands for. The line holds the sensor's
/// address, the payload and the signal strength, with one space between
/// them; a missing or unreadable strength counts as zero. The forwarding
/// actuator's address is put in colon form, and without one there is no
/// beacon.
pub open spec fn beacon_of(socket: Seq<char>, actuator: Seq<char>) -> Option<BleBeaconView> {
    let parts = split_seq(socket, ' ');
    match colon_form(actuator) {
        Some(address) => Some(
            (BleBeaconView {
                actuator: address,
                mac_address: piece(parts, 0),
                payload: piece(parts, 1),
                rssi: match signed_value(piece(parts, 2)) {
                    Some(r) => r,
                    None => 0,
                },
            }),
        ),
        None => None,
    }
}

impl BleBeaconMessage {
    /// Reads a forwarded line.
    pub fn from(socket_string: &str, actuator: &str) -> (r: Option<BleBeaconMessage>)
        ensures
            match r {
                Some(m) => beacon_of(socket_string@, actuator@) == Some(m@),
                None => beacon_of(socket_string@, actuator@) is None,
            },
    {
        let address = match mac_with_colons(actuator) {
            Some(a) => a,
            None => {
                return None;
            },
        };
        let parts = str_split(socket_string, ' ');
        let ghost views = strings_view(parts@);
        let mac_address = if parts.len() > 0 {
            assert(views[0] == parts@[0]@);
            parts[0].clone()
        } else {
            String::new()
        };
        let payload = if parts.len() > 1 {
            assert(views[1] == parts@[1]@);
            parts[1].clone()
        } else {
            String::new()
        };
        let rssi: i64 = if parts.len() > 2 {
            assert(views[2] == parts@[2]@);
            match parse_signed(parts[2].as_str()) {
                Some(r) => r,
                None => 0,
            }
        } else {
            assert(signed_value(Seq::<char>::empty()) is None);
            0
        };
        Some(BleBeaconMessage { actuator: address, mac_address, payload, rssi })
    }
}

} // verus!
