//! Verified core of a small quadcopter: the command protocol, the flight state
//! with its command heartbeat, motor selection, orientation telemetry framing
//! and the parsing of the Bluetooth address of the board.

pub mod orientation;
pub mod motors;
pub mod state;
pub mod telemetry;
pub mod address;
