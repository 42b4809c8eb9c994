//! Core logic of a network-connected vehicle barrier: an NEC infrared frame
//! decoder and pulse capture, the remote's command mapping, the text wire
//! protocol, the barrier controller's state machine and the parking-lot
//! occupancy counter.

pub mod capture;
pub mod gate;
pub mod nec;
pub mod occupancy;
pub mod protocol;
pub mod remote;
pub mod telemetry;
