//! Recording an infrared receiver's pulse train from the times of its level
//! changes.
use vstd::prelude::*;

verus! {

/// Most durations one capture holds; a full capture ends the frame.
pub const MAX_PULSES: usize = 70;

/// Time from `last_us` to `now_us` in microseconds, held within `u32`; a
/// clock that went backwards counts as no time.
pub open spec fn elapsed_spec(last_us: u64, now_us: u64) -> u32 {
    if now_us <= last_us {
        0
    } else if now_us - last_us > u32::MAX {
        u32::MAX
    } else {
        (now_us - last_us) as u32
    }
}

/// Durations between successive level changes of one frame, starting at the
/// falling edge that began it.
pub struct PulseCapture {
    pub pulses: Vec<u32>,
    pub last_edge_us: u64,
}

impl PulseCapture {
    pub open spec fn wf(&self) -> bool {
        self.pulses@.len() <= MAX_PULSES
    }

    /// A capture whose frame began at `start_us`.
    pub fn new(start_us: u64) -> (r: PulseCapture)
        ensures
            r.wf(),
            r.pulses@ == Seq::<u32>::empty(),
            r.last_edge_us == start_us,
    {
        PulseCapture { pulses: Vec::new(), last_edge_us: start_us }
    }

    pub fn is_full(&self) -> (r: bool)
        ensures
            r == (self.pulses@.len() >= MAX_PULSES),
    {
        self.pulses.len() >= MAX_PULSES
    }

    /// Records a level change at `now_us`: the time since the previous change
    /// is appended, unless the capture is full. Says whether it is full now.
    pub fn record_edge(&mut self, now_us: u64) -> (full: bool)
        requires
            old(self).wf(),
        ensures
            final(self).wf(),
            old(self).pulses@.len() < MAX_PULSES ==> final(self).pulses@ == old(
                self,
            ).pulses@.push(elapsed_spec(old(self).last_edge_us, now_us))
                && final(self).last_edge_us == now_us,
            old(self).pulses@.len() >= MAX_PULSES ==> *final(self) == *old(self),
            full == (final(self).pulses@.len() >= MAX_PULSES),
    {
        if self.pulses.len() >= MAX_PULSES {
            return true;
        }
        let d: u32 = if now_us <= self.last_edge_us {
            0
        } else if now_us - self.last_edge_us > 0xFFFF_FFFFu64 {
            0xFFFF_FFFFu32
        } else {
            (now_us - self.last_edge_us) as u32
        };
        self.pulses.push(d);
        self.last_edge_us = now_us;
        self.pulses.len() >= MAX_PULSES
    }

    /// The durations recorded so far.
    pub fn pulses(&self) -> (r: &[u32])
        ensures
            r@ == self.pulses@,
    {
        self.pulses.as_slice()
    }
}

} // verus!
