//! A sensor channel's side: what a sampled input level means and what is
//! reported and shown for it.
use vstd::prelude::*;
use crate::protocol::{format_sensor_report, sensor_report_spec, SensorState};

verus! {

/// The sensor's input is pulled up: a low level means a vehicle is present.
pub open spec fn level_state(input_high: bool) -> SensorState {
    if input_high {
        SensorState::NotOccupied
    } else {
        SensorState::Occupied
    }
}

/// State of a channel whose input reads `input_high`.
pub fn state_from_level(input_high: bool) -> (r: SensorState)
    ensures
        r == level_state(input_high),
{
    if input_high {
        SensorState::NotOccupied
    } else {
        SensorState::Occupied
    }
}

/// The channel's two lights, `(red, green)`: red for occupied, green for free.
pub fn sensor_lights(state: SensorState) -> (r: (bool, bool))
    ensures
        r.0 == (state == SensorState::Occupied),
        r.1 == (state == SensorState::NotOccupied),
        r.0 != r.1,
{
    match state {
        SensorState::Occupied => (true, false),
        SensorState::NotOccupied => (false, true),
    }
}

/// The report channel `channel` sends for one sample of its input.
pub fn sample_report(channel: u64, input_high: bool) -> (r: Vec<u8>)
    ensures
        r@ == sensor_report_spec(channel, level_state(input_high)),
{
    format_sensor_report(channel, state_from_level(input_high))
}

} // verus!
