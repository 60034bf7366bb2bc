use terminal_loop::event::{IoErrorKind, IoFailure};
use terminal_loop::event_loop::pty_read::{
    PtyRead, ReadAction, ReadReply, ReadStep, MAX_LOCKED_READ, READ_BUFFER_SIZE,
};

const BLOCKED: IoFailure = IoFailure { kind: IoErrorKind::WouldBlock, raw_os_error: None };
const BROKEN: IoFailure = IoFailure { kind: IoErrorKind::Other, raw_os_error: Some(5) };

fn begin() -> PtyRead {
    let mut read = PtyRead::new();
    assert_eq!(read.awaiting, ReadAction::Lease);
    assert_eq!(
        read.resume(ReadReply::Done, 0),
        ReadStep::Next(ReadAction::Read { offset: 0, len: READ_BUFFER_SIZE })
    );
    read
}

#[test]
fn limits_of_a_round() {
    assert_eq!(READ_BUFFER_SIZE, 1_048_576);
    assert_eq!(MAX_LOCKED_READ, 65_535);
}

#[test]
fn silent_pty_ends_the_round() {
    let mut read = begin();
    assert_eq!(
        read.resume(ReadReply::Read(Ok(0)), 0),
        ReadStep::Next(ReadAction::Release { wakeup: false })
    );
    assert_eq!(read.resume(ReadReply::Done, 0), ReadStep::Finished(Ok(0)));
}

#[test]
fn blocked_pty_ends_the_round() {
    let mut read = begin();
    assert_eq!(
        read.resume(ReadReply::Read(Err(BLOCKED)), 0),
        ReadStep::Next(ReadAction::Release { wakeup: false })
    );
    assert_eq!(read.resume(ReadReply::Done, 0), ReadStep::Finished(Ok(0)));
}

#[test]
fn bytes_are_parsed_and_announced() {
    let mut read = begin();
    assert_eq!(read.resume(ReadReply::Read(Ok(10)), 0), ReadStep::Next(ReadAction::TryLock));
    assert_eq!(
        read.resume(ReadReply::TryLock(true), 0),
        ReadStep::Next(ReadAction::Parse { len: 10 })
    );
    assert_eq!(
        read.resume(ReadReply::Done, 3),
        ReadStep::Next(ReadAction::Read { offset: 0, len: MAX_LOCKED_READ - 10 })
    );
    // The lock is held by now.
    assert_eq!(
        read.resume(ReadReply::Read(Ok(5)), 3),
        ReadStep::Next(ReadAction::Parse { len: 5 })
    );
    assert_eq!(
        read.resume(ReadReply::Done, 3),
        ReadStep::Next(ReadAction::Read { offset: 0, len: MAX_LOCKED_READ - 15 })
    );
    assert_eq!(
        read.resume(ReadReply::Read(Err(BLOCKED)), 3),
        ReadStep::Next(ReadAction::Release { wakeup: true })
    );
    assert_eq!(read.resume(ReadReply::Done, 3), ReadStep::Finished(Ok(15)));
}

#[test]
fn synchronized_bytes_are_not_announced() {
    let mut read = begin();
    read.resume(ReadReply::Read(Ok(10)), 0);
    read.resume(ReadReply::TryLock(true), 0);
    read.resume(ReadReply::Done, 10);
    assert_eq!(
        read.resume(ReadReply::Read(Ok(0)), 10),
        ReadStep::Next(ReadAction::Release { wakeup: false })
    );
}

#[test]
fn bytes_are_collected_while_the_terminal_is_locked_elsewhere() {
    let mut read = begin();
    read.resume(ReadReply::Read(Ok(100)), 0);
    assert_eq!(
        read.resume(ReadReply::TryLock(false), 0),
        ReadStep::Next(ReadAction::Read { offset: 100, len: READ_BUFFER_SIZE - 100 })
    );
    // A PTY without news does not end the round while bytes wait.
    assert_eq!(
        read.resume(ReadReply::Read(Err(BLOCKED)), 0),
        ReadStep::Next(ReadAction::TryLock)
    );
    read.resume(ReadReply::TryLock(false), 0);
    assert_eq!(read.resume(ReadReply::Read(Ok(0)), 0), ReadStep::Next(ReadAction::TryLock));
    read.resume(ReadReply::TryLock(false), 0);
    read.resume(ReadReply::Read(Ok(50)), 0);
    assert_eq!(
        read.resume(ReadReply::TryLock(true), 0),
        ReadStep::Next(ReadAction::Parse { len: 150 })
    );
}

#[test]
fn full_buffer_waits_for_the_lock() {
    let mut read = begin();
    read.resume(ReadReply::Read(Ok(READ_BUFFER_SIZE - 1)), 0);
    assert_eq!(
        read.resume(ReadReply::TryLock(false), 0),
        ReadStep::Next(ReadAction::Read { offset: READ_BUFFER_SIZE - 1, len: 1 })
    );
    read.resume(ReadReply::Read(Ok(1)), 0);
    assert_eq!(read.resume(ReadReply::TryLock(false), 0), ReadStep::Next(ReadAction::Lock));
    assert_eq!(
        read.resume(ReadReply::Done, 0),
        ReadStep::Next(ReadAction::Parse { len: READ_BUFFER_SIZE })
    );
    assert_eq!(
        read.resume(ReadReply::Done, 0),
        ReadStep::Next(ReadAction::Release { wakeup: true })
    );
    assert_eq!(read.resume(ReadReply::Done, 0), ReadStep::Finished(Ok(READ_BUFFER_SIZE)));
}

#[test]
fn lock_is_given_back_after_the_limit() {
    let mut read = begin();
    read.resume(ReadReply::Read(Ok(MAX_LOCKED_READ - 1)), 0);
    read.resume(ReadReply::TryLock(true), 0);
    assert_eq!(
        read.resume(ReadReply::Done, 0),
        ReadStep::Next(ReadAction::Read { offset: 0, len: 1 })
    );
    read.resume(ReadReply::Read(Ok(1)), 0);
    assert_eq!(
        read.resume(ReadReply::Done, 0),
        ReadStep::Next(ReadAction::Release { wakeup: true })
    );
    assert_eq!(read.resume(ReadReply::Done, 0), ReadStep::Finished(Ok(MAX_LOCKED_READ)));
}

#[test]
fn locked_read_stops_at_the_limit() {
    let mut read = begin();
    read.resume(ReadReply::Read(Ok(1)), 0);
    read.resume(ReadReply::TryLock(true), 0);
    assert_eq!(
        read.resume(ReadReply::Done, 0),
        ReadStep::Next(ReadAction::Read { offset: 0, len: MAX_LOCKED_READ - 1 })
    );
    assert!(!read.accepts(&ReadReply::Read(Ok(100_000))));
    assert!(!read.accepts(&ReadReply::Read(Ok(MAX_LOCKED_READ))));
    assert!(read.accepts(&ReadReply::Read(Ok(MAX_LOCKED_READ - 1))));
    read.resume(ReadReply::Read(Ok(MAX_LOCKED_READ - 1)), 0);
    read.resume(ReadReply::Done, 0);
    assert_eq!(read.resume(ReadReply::Done, 0), ReadStep::Finished(Ok(MAX_LOCKED_READ)));
}

#[test]
fn broken_pty_fails_the_round() {
    let mut read = begin();
    read.resume(ReadReply::Read(Ok(10)), 0);
    read.resume(ReadReply::TryLock(true), 0);
    read.resume(ReadReply::Done, 0);
    assert_eq!(
        read.resume(ReadReply::Read(Err(BROKEN)), 0),
        ReadStep::Next(ReadAction::Release { wakeup: false })
    );
    assert_eq!(read.resume(ReadReply::Done, 0), ReadStep::Finished(Err(BROKEN)));
}

#[test]
fn only_fitting_answers_to_a_read_are_accepted() {
    let mut read = PtyRead::new();
    assert!(read.accepts(&ReadReply::Done));
    assert!(!read.accepts(&ReadReply::Read(Ok(1))));
    read.resume(ReadReply::Done, 0);
    assert!(read.accepts(&ReadReply::Read(Ok(READ_BUFFER_SIZE))));
    assert!(!read.accepts(&ReadReply::Read(Ok(READ_BUFFER_SIZE + 1))));
    assert!(read.accepts(&ReadReply::Read(Err(BROKEN))));
    assert!(!read.accepts(&ReadReply::TryLock(true)));
    read.resume(ReadReply::Read(Ok(1)), 0);
    assert!(read.accepts(&ReadReply::TryLock(false)));
    assert!(!read.accepts(&ReadReply::Done));
}
