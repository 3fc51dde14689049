//! Relay dongle protocol, firmware state machine, GATT model and hub-side logic.

pub mod protocol;
pub mod firmware;
pub mod gatt;
pub mod text;
pub mod device_id;
pub mod board;
pub mod ble;
pub mod bridge;
pub mod persistence;
pub mod config;
pub mod matter;
