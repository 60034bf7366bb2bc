use terminal_loop::event::{IoErrorKind, IoFailure};
use terminal_loop::event_loop::clock::{poll_timeout, time_elapsed};
use terminal_loop::event_loop::tail::{
    TailDrain, TailStep, HARD_CAP, POLL_PAUSE, QUIET_WINDOW,
};

const MILLISECOND: u128 = 1_000_000;

#[test]
fn times_of_draining() {
    assert_eq!(QUIET_WINDOW, 50 * MILLISECOND);
    assert_eq!(HARD_CAP, 60_000 * MILLISECOND);
    assert_eq!(POLL_PAUSE, 2 * MILLISECOND);
}

#[test]
fn silence_ends_draining_after_the_quiet_window() {
    let mut tail = TailDrain::new(1_000);
    assert_eq!(tail.resume(1_000, Ok(0)), TailStep::Pause);
    assert_eq!(tail.resume(1_000 + QUIET_WINDOW - 1, Ok(0)), TailStep::Pause);
    assert_eq!(tail.resume(1_000 + QUIET_WINDOW, Ok(0)), TailStep::Drained);
}

#[test]
fn output_restarts_the_quiet_window() {
    let mut tail = TailDrain::new(0);
    assert_eq!(tail.resume(40 * MILLISECOND, Ok(12)), TailStep::Read);
    assert_eq!(tail, TailDrain { started: 0, last_data: 40 * MILLISECOND });
    assert_eq!(tail.resume(89 * MILLISECOND, Ok(0)), TailStep::Pause);
    assert_eq!(tail.resume(90 * MILLISECOND, Ok(0)), TailStep::Drained);
}

#[test]
fn error_ends_draining() {
    let mut tail = TailDrain::new(0);
    let failure = IoFailure { kind: IoErrorKind::Other, raw_os_error: None };
    assert_eq!(tail.resume(1, Err(failure)), TailStep::Drained);
    assert_eq!(tail, TailDrain { started: 0, last_data: 0 });
}

#[test]
fn draining_is_given_up_at_the_cap() {
    let tail = TailDrain::new(5);
    assert!(!tail.is_overdue(5));
    assert!(!tail.is_overdue(4 + HARD_CAP));
    assert!(tail.is_overdue(5 + HARD_CAP));
}

#[test]
fn clock_that_stands_still_or_goes_back() {
    assert_eq!(time_elapsed(7, 7), 0);
    assert_eq!(time_elapsed(7, 3), 0);
    assert_eq!(time_elapsed(3, 7), 4);
}

#[test]
fn poll_lasts_until_the_synchronized_update_ends() {
    assert_eq!(poll_timeout(None, 10), None);
    assert_eq!(poll_timeout(Some(150), 10), Some(140));
    assert_eq!(poll_timeout(Some(10), 10), Some(0));
    assert_eq!(poll_timeout(Some(3), 10), Some(0));
}
