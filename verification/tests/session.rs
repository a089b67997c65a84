use std::time::Duration;

use junie_tui::runtime::session::{driver_step, DriverAction, DriverView, TurnPhase};
use junie_tui::runtime::time::Moment;

fn idle() -> DriverView {
    DriverView {
        needs_settle: false,
        needs_present: false,
        quit: false,
        pending_input: false,
        stop_pending: false,
        deadline: None,
        now: Moment::from_millis(1_000),
    }
}

#[test]
fn every_turn_advances_the_clock_once_then_renders() {
    let v = idle();
    assert_eq!(driver_step(TurnPhase::Advance, &v), (DriverAction::AdvanceClock, TurnPhase::Settle));
    assert_eq!(driver_step(TurnPhase::Settle, &v), (DriverAction::Pass, TurnPhase::Present));
    assert_eq!(driver_step(TurnPhase::Present, &v), (DriverAction::Pass, TurnPhase::Decide));
}

#[test]
fn a_due_frame_is_presented_and_settling_repeats() {
    let v = DriverView { needs_settle: true, needs_present: true, ..idle() };
    assert_eq!(driver_step(TurnPhase::Settle, &v), (DriverAction::Settle, TurnPhase::Present));
    assert_eq!(driver_step(TurnPhase::Present, &v), (DriverAction::Present, TurnPhase::Settle));
    let unsettled = DriverView { needs_settle: true, ..idle() };
    assert_eq!(driver_step(TurnPhase::Present, &unsettled), (DriverAction::Pass, TurnPhase::Settle));
}

#[test]
fn decisions_go_quit_then_input_then_stop_then_wait() {
    let all = DriverView { quit: true, pending_input: true, stop_pending: true, ..idle() };
    assert_eq!(driver_step(TurnPhase::Decide, &all), (DriverAction::Quit, TurnPhase::Decide));
    let input = DriverView { quit: false, ..all };
    assert_eq!(driver_step(TurnPhase::Decide, &input), (DriverAction::Handle, TurnPhase::Advance));
    let stop = DriverView { pending_input: false, ..input };
    assert_eq!(driver_step(TurnPhase::Decide, &stop), (DriverAction::ServiceStop, TurnPhase::Advance));
    let wait = DriverView { stop_pending: false, ..stop };
    assert_eq!(
        driver_step(TurnPhase::Decide, &wait),
        (DriverAction::Poll(Duration::from_millis(100)), TurnPhase::Advance)
    );
    let soon = DriverView { deadline: Some(Moment::from_millis(1_030)), ..wait };
    assert_eq!(
        driver_step(TurnPhase::Decide, &soon),
        (DriverAction::Poll(Duration::from_millis(30)), TurnPhase::Advance)
    );
    let overdue = DriverView { deadline: Some(Moment::from_millis(10)), ..wait };
    assert_eq!(driver_step(TurnPhase::Decide, &overdue), (DriverAction::Poll(Duration::ZERO), TurnPhase::Advance));
}
