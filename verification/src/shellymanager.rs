//! The session of one actuator of the first generation, to which the
//! bridge connects: what the bridge knows of it, and what it decides on
//! each frame. The socket itself is not held here.

use crate::actions::{action_of, compact_text, empty_payload, empty_text, request_action, request_of, shelly_action};
use crate::base64code::{base64_encoded, text_to_base64};
use crate::json::{Json, JsonView};
use crate::text::{join2, str_without, without_seq};
use crate::utils::{is_older_than, older_than};
use vstd::prelude::*;
use vstd::string::*;

verus! {

/// The seconds without an answer to a ping after which a session counts as
/// lost.
pub const PONG_TIMEOUT_SECS: u64 = 60;

/// The attempts that a connection gets.
pub const CONNECT_ATTEMPTS: u8 = 2;

/// The seconds that one attempt to connect may take.
pub const CONNECT_TIMEOUT_SECS: u64 = 10;

/// What is known of a session. Times are in milliseconds.
#[derive(Debug)]
pub struct ShellyManager {
    pub ip: String,
    pub mac_address: String,
    pub url: String,
    pub last_pong_timestamp: u64,
    pub last_action_timestamp: u64,
    pub user_login: String,
    pub user_password: String,
}

/// The model of a session.
pub struct ShellyView {
    pub ip: Seq<char>,
    pub mac_address: Seq<char>,
    pub url: Seq<char>,
    pub last_pong_timestamp: u64,
    pub last_action_timestamp: u64,
    pub user_login: Seq<char>,
    pub user_password: Seq<char>,
}

impl View for ShellyManager {
    type V = ShellyView;

    open spec fn view(&self) -> ShellyView {
        ShellyView {
            ip: self.ip@,
            mac_address: self.mac_address@,
            url: self.url@,
            last_pong_timestamp: self.last_pong_timestamp,
            last_action_timestamp: self.last_action_timestamp,
            user_login: self.user_login@,
            user_password: self.user_password@,
        }
    }
}

/// A frame that came from the actuator, or the failure to read one.
pub enum Frame {
    Text(String),
    Pong,
    Ping,
    Close,
    Failed,
    Other,
}

/// What the session does after a frame.
pub enum FrameOutcome {
    /// The text is a message to read.
    Message(String),
    /// The session is over; the address is that of its device.
    Closed(String),
    /// The session waits for the next frame.
    Continue,
}

/// The address of the device's socket: `wss://`, the discovered name,
/// `/things/`, the kind, a hyphen and the address without colons.
pub open spec fn session_url(mdns_name: Seq<char>, topic_name: Seq<char>, mac_address: Seq<char>) -> Seq<char> {
    "wss://"@ + mdns_name + "/things/"@ + topic_name + "-"@ + without_seq(mac_address, ":"@)
}

/// The value of the header that logs the bridge in: `Basic` and the base64
/// text of user name, colon and password.
pub open spec fn authorization(user_login: Seq<char>, user_password: Seq<char>) -> Seq<char> {
    "Basic "@ + base64_encoded(user_login + ":"@ + user_password)
}

/// The message that asks an actuator to report its state.
pub open spec fn get_update_request() -> JsonView {
    request_of(action_of("get_status_update"@, compact_text(empty_payload())))
}

/// The value of the header that logs the bridge in.
pub fn authorization_header(user_login: &str, user_password: &str) -> (r: String)
    ensures
        r@ == authorization(user_login@, user_password@),
{
    let mut credentials = String::from_str(user_login);
    credentials.append(":");
    credentials.append(user_password);
    join2("Basic ", text_to_base64(credentials.as_str()).as_str())
}

/// Whether a connection that failed for the given time in a row is given
/// up.
pub fn gives_up(failed_attempts: u8) -> (r: bool)
    ensures
        r == (failed_attempts >= CONNECT_ATTEMPTS),
{
    failed_attempts >= CONNECT_ATTEMPTS
}

/// The message that asks an actuator to report its state.
pub fn get_update_message() -> (r: Json)
    ensures
        r@ == get_update_request(),
{
    request_action(shelly_action("get_status_update", empty_text()))
}

impl ShellyManager {
    /// The session of a device that was connected at a time.
    pub fn new(
        ip: &str,
        topic_name: &str,
        mac_address: &str,
        mdns_name: &str,
        user_login: &str,
        user_password: &str,
        now: u64,
    ) -> (r: ShellyManager)
        ensures
            r@ == (ShellyView {
                ip: ip@,
                mac_address: mac_address@,
                url: session_url(mdns_name@, topic_name@, mac_address@),
                last_pong_timestamp: now,
                last_action_timestamp: 0,
                user_login: user_login@,
                user_password: user_password@,
            }),
    {
        let mut url = String::from_str("wss://");
        url.append(mdns_name);
        url.append("/things/");
        url.append(topic_name);
        url.append("-");
        url.append(str_without(mac_address, ":").as_str());
        ShellyManager {
            ip: String::from_str(ip),
            mac_address: String::from_str(mac_address),
            url,
            last_pong_timestamp: now,
            last_action_timestamp: 0,
            user_login: String::from_str(user_login),
            user_password: String::from_str(user_password),
        }
    }

    /// Takes note that the session was connected anew at a time.
    pub fn reconnect(&mut self, now: u64)
        ensures
            final(self).last_pong_timestamp == now,
            final(self).last_action_timestamp == 0,
            final(self).ip == old(self).ip,
            final(self).mac_address == old(self).mac_address,
            final(self).url == old(self).url,
            final(self).user_login == old(self).user_login,
            final(self).user_password == old(self).user_password,
    {
        self.last_pong_timestamp = now;
        self.last_action_timestamp = 0;
    }

    /// Takes note that an action was sent at a time.
    pub fn send_action(&mut self, now: u64)
        ensures
            final(self).last_action_timestamp == now,
            final(self).last_pong_timestamp == old(self).last_pong_timestamp,
            final(self).ip == old(self).ip,
            final(self).mac_address == old(self).mac_address,
            final(self).url == old(self).url,
            final(self).user_login == old(self).user_login,
            final(self).user_password == old(self).user_password,
    {
        self.last_action_timestamp = now;
    }

    /// Whether the device has not answered a ping for more than the timeout,
    /// so that the session has to be connected anew.
    pub fn needs_reconnect(&self, now: u64) -> (r: bool)
        ensures
            r == is_older_than(self.last_pong_timestamp, now, PONG_TIMEOUT_SECS),
    {
        older_than(self.last_pong_timestamp, now, PONG_TIMEOUT_SECS)
    }

    /// What the session does with a frame that came at a time: a text is a
    /// message, a pong renews the session, a close or a failure ends it.
    pub fn wait_for_shelly_message(&mut self, frame: Frame, now: u64) -> (r: FrameOutcome)
        ensures
            final(self).last_pong_timestamp == (if frame is Pong {
                now
            } else {
                old(self).last_pong_timestamp
            }),
            final(self).last_action_timestamp == old(self).last_action_timestamp,
            final(self).mac_address == old(self).mac_address,
            final(self).ip == old(self).ip,
            final(self).url == old(self).url,
            final(self).user_login == old(self).user_login,
            final(self).user_password == old(self).user_password,
            match frame {
                Frame::Text(t) => r matches FrameOutcome::Message(m) && m == t,
                Frame::Close => r matches FrameOutcome::Closed(mac) && mac@ == old(self).mac_address@,
                Frame::Failed => r matches FrameOutcome::Closed(mac) && mac@ == old(self).mac_address@,
                _ => r is Continue,
            },
    {
        match frame {
            Frame::Text(t) => FrameOutcome::Message(t),
            Frame::Pong => {
                self.last_pong_timestamp = now;
                FrameOutcome::Continue
            },
            Frame::Close => FrameOutcome::Closed(self.mac_address.clone()),
            Frame::Failed => FrameOutcome::Closed(self.mac_address.clone()),
            Frame::Ping => FrameOutcome::Continue,
            Frame::Other => FrameOutcome::Continue,
        }
    }
}

} // verus!
