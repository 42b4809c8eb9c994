//! The parking lot's count of free spaces, kept from the sensors' reports.
use vstd::prelude::*;
use crate::protocol::{decimal, parse_sensor_data, parse_sensor_spec, push_decimal, SensorState};

verus! {

/// The abstract content of an `OccupancyCount`.
pub struct OccupancySnapshot {
    pub total_spaces: u64,
    pub free_spaces: u64,
    /// Last known state of channel `i + 1`.
    pub channels: Seq<SensorState>,
}

impl OccupancySnapshot {
    pub open spec fn wf(self) -> bool {
        self.free_spaces <= self.total_spaces
    }

    /// Whether a report of `st` on `channel` is a change of state.
    pub open spec fn is_edge(self, channel: u64, st: SensorState) -> bool {
        1 <= channel <= self.channels.len() && self.channels[channel - 1] != st
    }

    /// The count after a report: on a change of state the free spaces move by
    /// one, held within zero and the total; otherwise nothing changes.
    pub open spec fn after_report(self, channel: u64, st: SensorState) -> OccupancySnapshot {
        if self.is_edge(channel, st) {
            OccupancySnapshot {
                total_spaces: self.total_spaces,
                free_spaces: match st {
                    SensorState::Occupied => if self.free_spaces > 0 {
                        (self.free_spaces - 1) as u64
                    } else {
                        0
                    },
                    SensorState::NotOccupied => if self.free_spaces < self.total_spaces {
                        (self.free_spaces + 1) as u64
                    } else {
                        self.free_spaces
                    },
                },
                channels: self.channels.update(channel - 1, st),
            }
        } else {
            self
        }
    }

    /// The count after a sequence of reports, in order.
    pub open spec fn after_reports(self, reports: Seq<(u64, SensorState)>) -> OccupancySnapshot
        decreases reports.len(),
    {
        if reports.len() == 0 {
            self
        } else {
            let last = reports.last();
            self.after_reports(reports.drop_last()).after_report(last.0, last.1)
        }
    }
}

/// The free spaces stay between zero and the total whatever reports arrive,
/// in whatever order.
pub proof fn lemma_reports_keep_bounds(v: OccupancySnapshot, reports: Seq<(u64, SensorState)>)
    requires
        v.wf(),
    ensures
        v.after_reports(reports).wf(),
        v.after_reports(reports).total_spaces == v.total_spaces,
    decreases reports.len(),
{
    if reports.len() > 0 {
        lemma_reports_keep_bounds(v, reports.drop_last());
    }
}

/// A report that repeats a channel's known state changes nothing.
pub proof fn lemma_repeated_report_is_noop(v: OccupancySnapshot, channel: u64, st: SensorState)
    ensures
        v.after_report(channel, st).after_report(channel, st) == v.after_report(channel, st),
{
}

/// `Free spaces: <free>/<total>`
pub open spec fn status_spec(free: u64, total: u64) -> Seq<u8> {
    seq![70u8, 114u8, 101u8, 101u8, 32u8, 115u8, 112u8, 97u8, 99u8, 101u8, 115u8, 58u8, 32u8]
        + decimal(free as nat) + seq![47u8] + decimal(total as nat)
}

/// Free spaces of a parking lot and the last known state of each sensor.
pub struct OccupancyCount {
    pub total_spaces: u64,
    pub free_spaces: u64,
    pub channels: Vec<SensorState>,
}

impl View for OccupancyCount {
    type V = OccupancySnapshot;

    open spec fn view(&self) -> OccupancySnapshot {
        OccupancySnapshot {
            total_spaces: self.total_spaces,
            free_spaces: self.free_spaces,
            channels: self.channels@,
        }
    }
}

impl OccupancyCount {
    /// A lot of `total_spaces` spaces, all free, watched by `channel_count`
    /// sensors that are all taken to report `NotOccupied`.
    pub fn new(total_spaces: u64, channel_count: usize) -> (r: OccupancyCount)
        ensures
            r@.wf(),
            r@.total_spaces == total_spaces,
            r@.free_spaces == total_spaces,
            r@.channels == Seq::new(channel_count as nat, |i: int| SensorState::NotOccupied),
    {
        let mut channels: Vec<SensorState> = Vec::new();
        let mut i: usize = 0;
        while i < channel_count
            invariant
                i <= channel_count,
                channels@ == Seq::new(i as nat, |k: int| SensorState::NotOccupied),
            decreases channel_count - i,
        {
            channels.push(SensorState::NotOccupied);
            i = i + 1;
            assert(channels@ =~= Seq::new(i as nat, |k: int| SensorState::NotOccupied));
        }
        OccupancyCount { total_spaces, free_spaces: total_spaces, channels }
    }

    /// Takes a report of `state` on `channel` (counted from 1); says whether
    /// it changed the count, so that the display needs redrawing.
    pub fn apply_report(&mut self, channel: u64, state: SensorState) -> (changed: bool)
        requires
            old(self)@.wf(),
        ensures
            final(self)@ == old(self)@.after_report(channel, state),
            final(self)@.wf(),
            changed == old(self)@.is_edge(channel, state),
    {
        if channel < 1 || channel > self.channels.len() as u64 {
            return false;
        }
        let idx = (channel - 1) as usize;
        if self.channels[idx] == state {
            return false;
        }
        match state {
            SensorState::Occupied => {
                if self.free_spaces > 0 {
                    self.free_spaces = self.free_spaces - 1;
                }
            },
            SensorState::NotOccupied => {
                if self.free_spaces < self.total_spaces {
                    self.free_spaces = self.free_spaces + 1;
                }
            },
        }
        self.channels.set(idx, state);
        true
    }

    /// Takes a received message: a well-formed sensor report is applied, any
    /// other message is ignored. Says whether the count changed.
    pub fn handle_message(&mut self, data: &[u8]) -> (changed: bool)
        requires
            old(self)@.wf(),
        ensures
            final(self)@.wf(),
            match parse_sensor_spec(data@) {
                Some((n, st)) => final(self)@ == old(self)@.after_report(n, st) && changed
                    == old(self)@.is_edge(n, st),
                None => final(self)@ == old(self)@ && !changed,
            },
    {
        match parse_sensor_data(data) {
            Some((n, st)) => self.apply_report(n, st),
            None => false,
        }
    }

    /// The display's line, `Free spaces: <free>/<total>`.
    pub fn status_text(&self) -> (r: Vec<u8>)
        ensures
            r@ == status_spec(self.free_spaces, self.total_spaces),
    {
        let mut out: Vec<u8> = vec![
            70u8, 114u8, 101u8, 101u8, 32u8, 115u8, 112u8, 97u8, 99u8, 101u8, 115u8, 58u8, 32u8,
        ];
        push_decimal(&mut out, self.free_spaces);
        out.push(47u8);
        push_decimal(&mut out, self.total_spaces);
        assert(out@ =~= status_spec(self.free_spaces, self.total_spaces));
        out
    }
}

} // verus!
