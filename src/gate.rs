//! The barrier controller: barrier position and lock, the actuator's pulse
//! widths, and the decisions taken on each command token and on the
//! auto-close timer.
use vstd::prelude::*;
use crate::protocol::GateCommand;

verus! {

/// Delay after opening at which the barrier closes by itself.
pub const AUTO_CLOSE_MS: u64 = 5000;

/// Counter top of a 50 Hz servo signal at the board's clock and divider.
pub const SERVO_TOP: u16 = 0xB71A;

/// Integer clock divider that `SERVO_TOP` was computed for.
pub const SERVO_DIVIDER: u8 = 64;

/// Period of the servo signal.
pub const SERVO_PERIOD_US: u32 = 20_000;

/// Shortest pulse the servo takes.
pub const SERVO_MIN_PULSE_US: u32 = 500;

/// Longest pulse the servo takes.
pub const SERVO_MAX_PULSE_US: u32 = 2500;

#[derive(Debug, Clone, Copy, PartialEq, Eq, Structural)]
pub enum Position {
    Closed,
    Open,
}

#[derive(Debug, Clone, Copy, PartialEq, Eq, Structural)]
pub enum Lock {
    Unlocked,
    Locked,
}

#[derive(Debug, Clone, Copy, PartialEq, Eq, Structural)]
pub struct BarrierState {
    pub position: Position,
    pub lock: Lock,
}

/// Something that happens to the controller.
#[derive(Debug, Clone, Copy, PartialEq, Eq, Structural)]
pub enum GateEvent {
    /// A token read from a connection.
    Command(GateCommand),
    /// The auto-close timer ran out.
    AutoCloseElapsed,
}

/// What the controller asks its surroundings to do after an event.
#[derive(Debug, Clone, Copy, PartialEq, Eq, Structural)]
pub enum GateAction {
    /// Drive the actuator to `compare` and arm the auto-close timer.
    Open { compare: u16, auto_close_ms: u64 },
    /// Drive the actuator to `compare`.
    Close { compare: u16 },
    /// The lock flag is now the given value.
    LockChanged(Lock),
    /// An open request while locked; nothing changes.
    RejectedLocked,
    /// An open request while open; nothing changes.
    AlreadyOpen,
    /// Nothing to do (an unknown token, or the timer with the barrier closed).
    Ignore,
}

/// The servo signal's timing.
#[derive(Debug, Clone, Copy, PartialEq, Eq, Structural)]
pub struct ServoCalibration {
    pub top: u16,
    pub period_us: u32,
    pub min_pulse_us: u32,
    pub max_pulse_us: u32,
}

impl ServoCalibration {
    pub open spec fn wf(self) -> bool {
        &&& self.period_us > 0
        &&& 2 * self.min_pulse_us <= self.max_pulse_us
        &&& self.max_pulse_us <= self.period_us
    }

    /// Compare value of a pulse of `pulse_us`: its share of the period, scaled
    /// to the counter's top.
    pub open spec fn compare_spec(self, pulse_us: u32) -> int {
        pulse_us as int * self.top as int / self.period_us as int
    }

    /// Compare value of the closed position: twice that of the shortest pulse.
    pub open spec fn closed_spec(self) -> int {
        2 * self.compare_spec(self.min_pulse_us)
    }

    /// Compare value of the open position: that of the longest pulse.
    pub open spec fn open_spec(self) -> int {
        self.compare_spec(self.max_pulse_us)
    }

    /// The calibration of the board's servo.
    pub fn standard() -> (r: ServoCalibration)
        ensures
            r.wf(),
            r.top == SERVO_TOP,
            r.period_us == SERVO_PERIOD_US,
            r.min_pulse_us == SERVO_MIN_PULSE_US,
            r.max_pulse_us == SERVO_MAX_PULSE_US,
    {
        ServoCalibration {
            top: SERVO_TOP,
            period_us: SERVO_PERIOD_US,
            min_pulse_us: SERVO_MIN_PULSE_US,
            max_pulse_us: SERVO_MAX_PULSE_US,
        }
    }

    /// Compare value of a pulse of `pulse_us`.
    pub fn compare_for(&self, pulse_us: u32) -> (r: u16)
        requires
            self.period_us > 0,
            pulse_us <= self.period_us,
        ensures
            r == self.compare_spec(pulse_us),
            r <= self.top,
    {
        proof {
            assert(pulse_us as int * self.top as int <= 0xFFFF_FFFF * 0xFFFF) by (nonlinear_arith)
                requires
                    pulse_us <= 0xFFFF_FFFF,
                    self.top <= 0xFFFF,
            ;
        }
        let wide: u64 = pulse_us as u64 * self.top as u64;
        proof {
            assert(pulse_us as int * self.top as int <= self.period_us as int * self.top as int)
                by (nonlinear_arith)
                requires
                    pulse_us <= self.period_us,
            ;
            assert(pulse_us as int * self.top as int / self.period_us as int <= self.top as int)
                by (nonlinear_arith)
                requires
                    pulse_us as int * self.top as int <= self.period_us as int * self.top as int,
                    self.period_us > 0,
            ;
        }
        (wide / self.period_us as u64) as u16
    }
}

pub open spec fn next_state(s: BarrierState, e: GateEvent) -> BarrierState {
    match e {
        GateEvent::Command(GateCommand::RequestOpen) => if s.lock == Lock::Unlocked
            && s.position == Position::Closed {
            BarrierState { position: Position::Open, lock: s.lock }
        } else {
            s
        },
        GateEvent::Command(GateCommand::ToggleLock) => BarrierState {
            position: s.position,
            lock: if s.lock == Lock::Locked { Lock::Unlocked } else { Lock::Locked },
        },
        GateEvent::Command(GateCommand::Unrecognized) => s,
        GateEvent::AutoCloseElapsed => BarrierState { position: Position::Closed, lock: s.lock },
    }
}

/// The barrier's controller. It starts closed and unlocked.
pub struct GateController {
    pub state: BarrierState,
    pub open_compare: u16,
    pub closed_compare: u16,
}

impl GateController {
    pub open spec fn wf(self) -> bool {
        self.closed_compare <= self.open_compare
    }

    pub open spec fn action_spec(self, e: GateEvent) -> GateAction {
        let s = self.state;
        match e {
            GateEvent::Command(GateCommand::RequestOpen) => if s.lock == Lock::Locked {
                GateAction::RejectedLocked
            } else if s.position == Position::Open {
                GateAction::AlreadyOpen
            } else {
                GateAction::Open { compare: self.open_compare, auto_close_ms: AUTO_CLOSE_MS }
            },
            GateEvent::Command(GateCommand::ToggleLock) => GateAction::LockChanged(
                next_state(s, e).lock,
            ),
            GateEvent::Command(GateCommand::Unrecognized) => GateAction::Ignore,
            GateEvent::AutoCloseElapsed => if s.position == Position::Open {
                GateAction::Close { compare: self.closed_compare }
            } else {
                GateAction::Ignore
            },
        }
    }

    /// A controller for a servo with the given calibration, closed and unlocked.
    pub fn new(cal: &ServoCalibration) -> (r: GateController)
        requires
            cal.wf(),
        ensures
            r.wf(),
            r.state == (BarrierState { position: Position::Closed, lock: Lock::Unlocked }),
            r.open_compare == cal.open_spec(),
            r.closed_compare == cal.closed_spec(),
    {
        let min = cal.compare_for(cal.min_pulse_us);
        let max = cal.compare_for(cal.max_pulse_us);
        proof {
            let t = cal.top as int;
            let p = cal.period_us as int;
            let a = cal.min_pulse_us as int;
            let b = cal.max_pulse_us as int;
            assert(2 * (a * t / p) <= b * t / p) by (nonlinear_arith)
                requires
                    p > 0,
                    t >= 0,
                    a >= 0,
                    2 * a <= b,
            {
                assert(2 * (a * t / p) * p <= 2 * a * t);
                assert(2 * a * t <= b * t);
            }
        }
        GateController {
            state: BarrierState { position: Position::Closed, lock: Lock::Unlocked },
            open_compare: max,
            closed_compare: 2 * min,
        }
    }

    /// Takes one event: updates the barrier state and says what to do.
    pub fn step(&mut self, e: GateEvent) -> (r: GateAction)
        ensures
            final(self).state == next_state(old(self).state, e),
            final(self).open_compare == old(self).open_compare,
            final(self).closed_compare == old(self).closed_compare,
            r == old(self).action_spec(e),
    {
        match e {
            GateEvent::Command(GateCommand::RequestOpen) => {
                if self.state.lock == Lock::Locked {
                    GateAction::RejectedLocked
                } else if self.state.position == Position::Open {
                    GateAction::AlreadyOpen
                } else {
                    self.state.position = Position::Open;
                    GateAction::Open { compare: self.open_compare, auto_close_ms: AUTO_CLOSE_MS }
                }
            },
            GateEvent::Command(GateCommand::ToggleLock) => {
                let lock = if self.state.lock == Lock::Locked {
                    Lock::Unlocked
                } else {
                    Lock::Locked
                };
                self.state.lock = lock;
                GateAction::LockChanged(lock)
            },
            GateEvent::Command(GateCommand::Unrecognized) => GateAction::Ignore,
            GateEvent::AutoCloseElapsed => {
                if self.state.position == Position::Open {
                    self.state.position = Position::Closed;
                    GateAction::Close { compare: self.closed_compare }
                } else {
                    GateAction::Ignore
                }
            },
        }
    }

    /// The two status lights, `(open, closed)`: exactly one is lit.
    pub fn indicators(&self) -> (r: (bool, bool))
        ensures
            r.0 == (self.state.position == Position::Open),
            r.1 == (self.state.position == Position::Closed),
            r.0 != r.1,
    {
        let open = self.state.position == Position::Open;
        (open, !open)
    }
}

/// A locked, closed barrier stays closed whatever command arrives.
pub proof fn lemma_locked_stays_closed(s: BarrierState, c: GateCommand)
    requires
        s.lock == Lock::Locked,
        s.position == Position::Closed,
    ensures
        next_state(s, GateEvent::Command(c)).position == Position::Closed,
{
}

/// The barrier only opens on an open request while unlocked.
pub proof fn lemma_opens_only_unlocked(s: BarrierState, e: GateEvent)
    requires
        s.position == Position::Closed,
        next_state(s, e).position == Position::Open,
    ensures
        s.lock == Lock::Unlocked,
        e == GateEvent::Command(GateCommand::RequestOpen),
{
}

/// While the barrier is open, an open request changes nothing and arms no
/// timer, however often it is repeated.
pub proof fn lemma_open_request_idempotent(g: GateController)
    requires
        g.state.position == Position::Open,
    ensures
        next_state(g.state, GateEvent::Command(GateCommand::RequestOpen)) == g.state,
        !(g.action_spec(GateEvent::Command(GateCommand::RequestOpen)) is Open),
{
}

/// Two open requests in a row on a closed, unlocked barrier: the first opens
/// it and arms the timer, the second is answered with `AlreadyOpen`.
pub proof fn lemma_open_twice(g: GateController)
    requires
        g.state == (BarrierState { position: Position::Closed, lock: Lock::Unlocked }),
    ensures
        ({
            let e = GateEvent::Command(GateCommand::RequestOpen);
            let s1 = next_state(g.state, e);
            let g1 = GateController { state: s1, ..g };
            &&& s1 == (BarrierState { position: Position::Open, lock: Lock::Unlocked })
            &&& g.action_spec(e) == (GateAction::Open {
                compare: g.open_compare,
                auto_close_ms: AUTO_CLOSE_MS,
            })
            &&& next_state(s1, e) == s1
            &&& g1.action_spec(e) == GateAction::AlreadyOpen
        }),
{
}

/// Opening a closed, unlocked barrier and letting the timer run out brings it
/// back to closed and unlocked, with the actuator driven to the closed width.
pub proof fn lemma_open_then_auto_close(g: GateController)
    requires
        g.state == (BarrierState { position: Position::Closed, lock: Lock::Unlocked }),
    ensures
        ({
            let s1 = next_state(g.state, GateEvent::Command(GateCommand::RequestOpen));
            let g1 = GateController { state: s1, ..g };
            &&& next_state(s1, GateEvent::AutoCloseElapsed) == g.state
            &&& g1.action_spec(GateEvent::AutoCloseElapsed) == (GateAction::Close {
                compare: g.closed_compare,
            })
        }),
{
}

} // verus!
