use barrier_gate::gate::{
    BarrierState, GateAction, GateController, GateEvent, Lock, Position, ServoCalibration,
    AUTO_CLOSE_MS,
};
use barrier_gate::protocol::{parse_command, GateCommand};

fn controller() -> GateController {
    GateController::new(&ServoCalibration::standard())
}

const OPEN: GateEvent = GateEvent::Command(GateCommand::RequestOpen);
const LOCK: GateEvent = GateEvent::Command(GateCommand::ToggleLock);

#[test]
fn starts_closed_and_unlocked() {
    let g = controller();
    assert_eq!(g.state, BarrierState { position: Position::Closed, lock: Lock::Unlocked });
    assert_eq!(g.indicators(), (false, true));
}

#[test]
fn standard_servo_compare_values() {
    let cal = ServoCalibration::standard();
    assert_eq!(cal.compare_for(500), 1171);
    assert_eq!(cal.compare_for(2500), 5859);
    let g = controller();
    assert_eq!(g.open_compare, 5859);
    assert_eq!(g.closed_compare, 2342);
    assert!(g.open_compare > g.closed_compare);
}

#[test]
fn open_rejected_while_locked() {
    let mut g = controller();
    assert_eq!(g.step(LOCK), GateAction::LockChanged(Lock::Locked));
    let before = g.state;
    assert_eq!(before, BarrierState { position: Position::Closed, lock: Lock::Locked });
    assert_eq!(g.step(OPEN), GateAction::RejectedLocked);
    assert_eq!(g.state, before);
}

#[test]
fn open_then_auto_close() {
    let mut g = controller();
    assert_eq!(g.step(OPEN), GateAction::Open { compare: 5859, auto_close_ms: AUTO_CLOSE_MS });
    assert_eq!(AUTO_CLOSE_MS, 5000);
    assert_eq!(g.state, BarrierState { position: Position::Open, lock: Lock::Unlocked });
    assert_eq!(g.indicators(), (true, false));
    assert_eq!(g.step(GateEvent::AutoCloseElapsed), GateAction::Close { compare: 2342 });
    assert_eq!(g.state, BarrierState { position: Position::Closed, lock: Lock::Unlocked });
    assert_eq!(g.indicators(), (false, true));
}

#[test]
fn second_open_request_is_no_transition() {
    let mut g = controller();
    assert!(matches!(g.step(OPEN), GateAction::Open { .. }));
    let opened = g.state;
    assert_eq!(g.step(OPEN), GateAction::AlreadyOpen);
    assert_eq!(g.state, opened);
    assert_eq!(g.step(OPEN), GateAction::AlreadyOpen);
    assert_eq!(g.state, opened);
}

#[test]
fn lock_toggles_without_moving() {
    let mut g = controller();
    g.step(OPEN);
    assert_eq!(g.step(LOCK), GateAction::LockChanged(Lock::Locked));
    assert_eq!(g.state.position, Position::Open);
    assert_eq!(g.step(LOCK), GateAction::LockChanged(Lock::Unlocked));
    assert_eq!(g.state, BarrierState { position: Position::Open, lock: Lock::Unlocked });
}

#[test]
fn unknown_token_and_idle_timer_do_nothing() {
    let mut g = controller();
    assert_eq!(g.step(GateEvent::Command(GateCommand::Unrecognized)), GateAction::Ignore);
    assert_eq!(g.step(GateEvent::AutoCloseElapsed), GateAction::Ignore);
    assert_eq!(g.state, BarrierState { position: Position::Closed, lock: Lock::Unlocked });
}

#[test]
fn tokens_drive_the_controller() {
    let mut g = controller();
    let cmd = parse_command(b"100\r\n");
    assert_eq!(cmd, GateCommand::RequestOpen);
    assert!(matches!(g.step(GateEvent::Command(cmd)), GateAction::Open { .. }));
    assert_eq!(parse_command(b" 90 "), GateCommand::ToggleLock);
    assert_eq!(parse_command(b"1000"), GateCommand::Unrecognized);
    assert_eq!(parse_command(b""), GateCommand::Unrecognized);
}
