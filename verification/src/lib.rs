//! Core of a home-automation bridge: JSON topic values, the BLE beacon codec,
//! the actuator-to-source topic projection, the command parser and the
//! radiator-valve command queue.

pub mod actions;
pub mod actuator_connection;
pub mod base64code;
pub mod bleutils;
pub mod bridge;
pub mod command_parser;
pub mod dhtmanager;
pub mod globalshellymanager;
pub mod hexcode;
pub mod json;
pub mod keyed;
pub mod messages;
pub mod shellymanager;
pub mod text;
pub mod topic_from_actuator_topic;
pub mod utils;
pub mod wssmanager;
