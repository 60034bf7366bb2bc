use std::borrow::Cow;

use terminal_loop::event::{ChildEvent, Event, IoErrorKind, IoFailure, WindowSize};
use terminal_loop::event_loop::machine::{
    Action, Config, Interest, Platform, PollEvent, Reply, StopCause,
};
use terminal_loop::event_loop::pty_read::{ReadAction, ReadReply, READ_BUFFER_SIZE};
use terminal_loop::event_loop::tail::{HARD_CAP, QUIET_WINDOW};
use terminal_loop::event_loop::{EventLoop, Msg, State};

const CHILD: usize = 1;
const PTY: usize = 2;

const SIZE: WindowSize =
    WindowSize { num_lines: 24, num_cols: 80, cell_width: 8, cell_height: 16 };

const READ_ONLY: Interest = Interest { readable: true, writable: false };
const READ_WRITE: Interest = Interest { readable: true, writable: true };

fn config(platform: Platform) -> Config {
    Config {
        drain_on_exit: false,
        ref_test: false,
        platform,
        child_token: CHILD,
        read_write_token: PTY,
        io_error: 5,
    }
}

fn event(key: usize, readable: bool, writable: bool) -> PollEvent {
    PollEvent { key, readable, writable, interrupt: false }
}

fn failure(kind: IoErrorKind, raw_os_error: Option<i32>) -> IoFailure {
    IoFailure { kind, raw_os_error }
}

struct Harness {
    event_loop: EventLoop,
    state: State,
}

impl Harness {
    /// An event loop which waits for events.
    fn polling(config: Config) -> Harness {
        let mut harness =
            Harness { event_loop: EventLoop::new(config), state: State::default() };
        assert_eq!(harness.event_loop.action(), Action::Register(READ_ONLY));
        assert_eq!(harness.resume(Reply::Registered(true)), Action::Poll);
        harness
    }

    fn resume(&mut self, reply: Reply) -> Action {
        assert!(self.event_loop.accepts(&self.state, &reply));
        let action = self.event_loop.resume(&mut self.state, reply);
        assert_eq!(action, self.event_loop.action());
        action
    }

    /// Report events while no message waits.
    fn events(&mut self, events: Vec<PollEvent>) -> Action {
        assert_eq!(self.resume(Reply::Polled(Ok(events))), Action::Receive);
        self.resume(Reply::Received(None))
    }

    fn read(&mut self, reply: ReadReply) -> Action {
        self.resume(Reply::Read(reply))
    }

    /// Go through a read which delivers nothing, up to giving back the lock.
    fn read_nothing(&mut self) -> Action {
        assert_eq!(self.event_loop.action(), Action::Read(ReadAction::Lease));
        assert_eq!(
            self.read(ReadReply::Done),
            Action::Read(ReadAction::Read { offset: 0, len: READ_BUFFER_SIZE })
        );
        assert_eq!(
            self.read(ReadReply::Read(Ok(0))),
            Action::Read(ReadAction::Release { wakeup: false })
        );
        self.read(ReadReply::Done)
    }

    /// Go through a read which fails, up to giving back the lock.
    fn read_failing(&mut self, failure: IoFailure) -> Action {
        self.read(ReadReply::Done);
        assert_eq!(
            self.read(ReadReply::Read(Err(failure))),
            Action::Read(ReadAction::Release { wakeup: false })
        );
        self.read(ReadReply::Done)
    }

    /// Go through a read which delivers `count` bytes.
    fn read_bytes(&mut self, count: usize) -> Action {
        self.read(ReadReply::Done);
        self.read(ReadReply::Read(Ok(count)));
        self.read(ReadReply::TryLock(true));
        self.read(ReadReply::Done);
        assert_eq!(
            self.read(ReadReply::Read(Ok(0))),
            Action::Read(ReadAction::Release { wakeup: true })
        );
        self.read(ReadReply::Done)
    }
}

#[test]
fn failed_registration_ends_the_loop() {
    let mut event_loop = EventLoop::new(config(Platform::Other));
    let mut state = State::default();
    assert_eq!(event_loop.resume(&mut state, Reply::Registered(false)), Action::Finish);
}

#[test]
fn recording_is_created_if_asked_for() {
    let mut event_loop = EventLoop::new(Config { ref_test: true, ..config(Platform::Other) });
    let mut state = State::default();
    assert_eq!(
        event_loop.resume(&mut state, Reply::Registered(true)),
        Action::CreateRecording
    );
    assert_eq!(event_loop.resume(&mut state, Reply::Done), Action::Poll);
}

#[test]
fn interrupted_poll_is_repeated() {
    let mut harness = Harness::polling(config(Platform::Linux));
    let interrupted = failure(IoErrorKind::Interrupted, Some(4));
    assert_eq!(harness.resume(Reply::Polled(Err(interrupted))), Action::Poll);
}

#[test]
fn failed_poll_ends_the_loop() {
    for kind in [IoErrorKind::Other, IoErrorKind::WouldBlock] {
        let mut harness = Harness::polling(config(Platform::Linux));
        assert_eq!(
            harness.resume(Reply::Polled(Err(failure(kind, None)))),
            Action::Deregister(StopCause::PollFailed)
        );
        assert_eq!(harness.resume(Reply::Done), Action::Finish);
    }
}

#[test]
fn timeout_ends_the_synchronized_update() {
    let mut harness = Harness::polling(config(Platform::Linux));
    assert_eq!(harness.resume(Reply::Polled(Ok(vec![]))), Action::Peek);
    assert_eq!(harness.resume(Reply::Peeked(false)), Action::StopSync);
    assert_eq!(harness.resume(Reply::Done), Action::Send(Event::Wakeup));
    assert_eq!(harness.resume(Reply::Done), Action::Poll);
}

#[test]
fn message_without_events_is_received() {
    let mut harness = Harness::polling(config(Platform::Linux));
    assert_eq!(harness.resume(Reply::Polled(Ok(vec![]))), Action::Peek);
    assert_eq!(harness.resume(Reply::Peeked(true)), Action::Receive);
    assert_eq!(
        harness.resume(Reply::Received(Some(Msg::Resize(SIZE)))),
        Action::Resize(SIZE)
    );
    assert_eq!(harness.resume(Reply::Done), Action::Receive);
    assert_eq!(
        harness.resume(Reply::Received(Some(Msg::Input(Cow::Borrowed(b"x"))))),
        Action::Receive
    );
    assert_eq!(harness.resume(Reply::Received(None)), Action::Reregister(READ_WRITE));
    assert_eq!(harness.resume(Reply::Done), Action::Poll);
}

#[test]
fn shutdown_ends_the_loop() {
    let mut harness = Harness::polling(config(Platform::Linux));
    harness.resume(Reply::Polled(Ok(vec![event(PTY, true, true)])));
    harness.resume(Reply::Received(Some(Msg::Input(Cow::Borrowed(b"x")))));
    assert_eq!(
        harness.resume(Reply::Received(Some(Msg::Shutdown))),
        Action::Deregister(StopCause::Shutdown)
    );
    assert_eq!(harness.resume(Reply::Done), Action::Finish);
    assert!(harness.state.needs_write());
    assert!(!harness.event_loop.accepts(&harness.state, &Reply::Done));
}

#[test]
fn input_is_written_in_order() {
    let mut harness = Harness::polling(config(Platform::Linux));
    harness.resume(Reply::Polled(Ok(vec![])));
    harness.resume(Reply::Peeked(true));
    harness.resume(Reply::Received(Some(Msg::Input(Cow::Borrowed(b"first ")))));
    harness.resume(Reply::Received(Some(Msg::Input(Cow::Owned(b"second".to_vec())))));
    assert_eq!(harness.resume(Reply::Received(None)), Action::Reregister(READ_WRITE));
    harness.resume(Reply::Done);

    let mut written = Vec::new();
    let mut action = harness.events(vec![event(PTY, false, true)]);
    while action == Action::Write {
        let count = harness.state.outgoing().len().min(4);
        written.extend_from_slice(&harness.state.outgoing()[..count]);
        action = harness.resume(Reply::Written(Ok(count)));
    }
    assert_eq!(written, b"first second");
    assert_eq!(action, Action::Reregister(READ_ONLY));
    assert_eq!(harness.resume(Reply::Done), Action::Poll);
}

#[test]
fn full_pty_is_written_to_later() {
    let mut harness = Harness::polling(config(Platform::Linux));
    harness.resume(Reply::Polled(Ok(vec![event(PTY, false, true)])));
    harness.resume(Reply::Received(Some(Msg::Input(Cow::Borrowed(b"abc")))));
    assert_eq!(harness.resume(Reply::Received(None)), Action::Write);
    assert_eq!(harness.resume(Reply::Written(Ok(0))), Action::Reregister(READ_WRITE));
    assert_eq!(harness.state.outgoing(), b"abc");
    harness.resume(Reply::Done);
    assert_eq!(harness.events(vec![event(PTY, false, true)]), Action::Write);
    let blocked = failure(IoErrorKind::WouldBlock, None);
    assert_eq!(harness.resume(Reply::Written(Err(blocked))), Action::Poll);
    assert_eq!(harness.state.outgoing(), b"abc");
}

#[test]
fn failed_write_ends_the_loop() {
    let mut harness = Harness::polling(config(Platform::Linux));
    harness.resume(Reply::Polled(Ok(vec![event(PTY, false, true)])));
    harness.resume(Reply::Received(Some(Msg::Input(Cow::Borrowed(b"abc")))));
    harness.resume(Reply::Received(None));
    assert_eq!(
        harness.resume(Reply::Written(Err(failure(IoErrorKind::Other, Some(5))))),
        Action::Deregister(StopCause::WriteFailed)
    );
    assert_eq!(harness.resume(Reply::Done), Action::Finish);
}

#[test]
fn writable_pty_without_input_is_left_alone() {
    let mut harness = Harness::polling(config(Platform::Linux));
    assert_eq!(harness.events(vec![event(PTY, false, true)]), Action::Poll);
}

#[test]
fn dead_pty_is_left_alone() {
    let mut harness = Harness::polling(config(Platform::Linux));
    let dead = PollEvent { key: PTY, readable: true, writable: true, interrupt: true };
    harness.resume(Reply::Polled(Ok(vec![dead])));
    harness.resume(Reply::Received(Some(Msg::Input(Cow::Borrowed(b"abc")))));
    assert_eq!(harness.resume(Reply::Received(None)), Action::Reregister(READ_WRITE));
}

#[test]
fn foreign_events_are_passed_over() {
    let mut harness = Harness::polling(config(Platform::Linux));
    let events = vec![event(17, true, true), event(PTY, true, false)];
    assert_eq!(harness.events(events), Action::Read(ReadAction::Lease));
    assert_eq!(harness.read_nothing(), Action::Poll);
}

#[test]
fn reading_comes_before_writing() {
    let mut harness = Harness::polling(config(Platform::Linux));
    harness.resume(Reply::Polled(Ok(vec![event(PTY, true, true)])));
    harness.resume(Reply::Received(Some(Msg::Input(Cow::Borrowed(b"abc")))));
    assert_eq!(
        harness.resume(Reply::Received(None)),
        Action::Read(ReadAction::Lease)
    );
    assert_eq!(harness.read_bytes(10), Action::Write);
    assert_eq!(harness.resume(Reply::Written(Ok(3))), Action::Poll);
}

#[test]
fn hangup_is_survived_on_linux() {
    let mut harness = Harness::polling(config(Platform::Linux));
    let events = vec![event(PTY, true, true), event(CHILD, true, false)];
    harness.resume(Reply::Polled(Ok(events)));
    harness.resume(Reply::Received(Some(Msg::Input(Cow::Borrowed(b"abc")))));
    harness.resume(Reply::Received(None));
    let hangup = failure(IoErrorKind::Other, Some(5));
    assert_eq!(harness.read_failing(hangup), Action::NextChildEvent);
}

#[test]
fn hangup_is_told_by_the_number_of_the_operating_system() {
    let config = Config::new(false, false, Platform::Linux, CHILD, PTY);
    assert_eq!(config.io_error, libc::EIO);
    assert_eq!(config, Config { io_error: libc::EIO, ..self::config(Platform::Linux) });
    let mut harness = Harness::polling(config);
    harness.events(vec![event(PTY, true, false)]);
    let hangup = failure(IoErrorKind::Other, Some(libc::EIO));
    assert_eq!(harness.read_failing(hangup), Action::Poll);

    let config = Config { io_error: 7, ..config };
    let mut harness = Harness::polling(config);
    harness.events(vec![event(PTY, true, false)]);
    let hangup = failure(IoErrorKind::Other, Some(7));
    assert_eq!(harness.read_failing(hangup), Action::Poll);
    harness.events(vec![event(PTY, true, false)]);
    let other = failure(IoErrorKind::Other, Some(5));
    assert_eq!(harness.read_failing(other), Action::Deregister(StopCause::ReadFailed));
}

#[test]
fn other_read_errors_end_the_loop() {
    let cases = [
        (Platform::Linux, Some(6)),
        (Platform::Linux, None),
        (Platform::Windows, Some(5)),
        (Platform::Other, Some(5)),
    ];
    for (platform, number) in cases {
        let mut harness = Harness::polling(config(platform));
        harness.events(vec![event(PTY, true, false)]);
        assert_eq!(
            harness.read_failing(failure(IoErrorKind::Other, number)),
            Action::Deregister(StopCause::ReadFailed)
        );
        assert_eq!(harness.resume(Reply::Done), Action::Finish);
    }
}

#[test]
fn living_child_changes_nothing() {
    let mut harness = Harness::polling(config(Platform::Linux));
    assert_eq!(harness.events(vec![event(CHILD, true, false)]), Action::NextChildEvent);
    assert_eq!(harness.resume(Reply::Child(None)), Action::Poll);
}

#[test]
fn exit_of_the_child_is_announced() {
    let mut harness = Harness::polling(config(Platform::Linux));
    harness.events(vec![event(CHILD, true, false), event(PTY, true, true)]);
    assert_eq!(
        harness.resume(Reply::Child(Some(ChildEvent::Exited(Some(3))))),
        Action::Send(Event::ChildExit(3))
    );
    assert_eq!(harness.resume(Reply::Done), Action::Send(Event::Exit));
    assert_eq!(harness.resume(Reply::Done), Action::Send(Event::Wakeup));
    assert_eq!(harness.resume(Reply::Done), Action::Deregister(StopCause::ChildExited));
    assert_eq!(harness.resume(Reply::Done), Action::Finish);
}

#[test]
fn exit_without_code_is_announced() {
    let mut harness = Harness::polling(config(Platform::Linux));
    harness.events(vec![event(CHILD, true, false)]);
    assert_eq!(
        harness.resume(Reply::Child(Some(ChildEvent::Exited(None)))),
        Action::Send(Event::Exit)
    );
}

#[test]
fn single_read_drains_the_child() {
    for platform in [Platform::Linux, Platform::Other] {
        let drain = Config { drain_on_exit: true, ..config(platform) };
        let mut harness = Harness::polling(drain);
        harness.events(vec![event(CHILD, true, false)]);
        assert_eq!(
            harness.resume(Reply::Child(Some(ChildEvent::Exited(None)))),
            Action::Read(ReadAction::Lease)
        );
        assert_eq!(harness.read_bytes(100), Action::Send(Event::Exit));
    }
}

#[test]
fn failed_drain_is_ignored() {
    let drain = Config { drain_on_exit: true, ..config(Platform::Linux) };
    let mut harness = Harness::polling(drain);
    harness.events(vec![event(CHILD, true, false)]);
    harness.resume(Reply::Child(Some(ChildEvent::Exited(None))));
    assert_eq!(
        harness.read_failing(failure(IoErrorKind::Other, Some(9))),
        Action::Send(Event::Exit)
    );
}

fn draining_on_windows() -> Harness {
    let drain = Config { drain_on_exit: true, ..config(Platform::Windows) };
    let mut harness = Harness::polling(drain);
    harness.events(vec![event(CHILD, true, false)]);
    assert_eq!(
        harness.resume(Reply::Child(Some(ChildEvent::Exited(None)))),
        Action::Clock
    );
    assert_eq!(harness.resume(Reply::Clock(1_000)), Action::Clock);
    harness
}

#[test]
fn windows_drains_until_silence() {
    let mut harness = draining_on_windows();
    assert_eq!(harness.resume(Reply::Clock(1_000)), Action::Read(ReadAction::Lease));
    assert_eq!(harness.read_nothing(), Action::Pause);
    assert_eq!(harness.resume(Reply::Done), Action::Clock);
    assert_eq!(harness.resume(Reply::Clock(2_000)), Action::Read(ReadAction::Lease));
    assert_eq!(harness.read_bytes(30), Action::Clock);
    harness.resume(Reply::Clock(1_999 + QUIET_WINDOW));
    assert_eq!(harness.read_nothing(), Action::Pause);
    harness.resume(Reply::Done);
    harness.resume(Reply::Clock(2_000 + QUIET_WINDOW));
    assert_eq!(harness.read_nothing(), Action::Send(Event::Exit));
}

#[test]
fn windows_draining_is_capped() {
    let mut harness = draining_on_windows();
    assert_eq!(
        harness.resume(Reply::Clock(999 + HARD_CAP)),
        Action::Read(ReadAction::Lease)
    );
    assert_eq!(harness.read_bytes(1), Action::Clock);
    assert_eq!(harness.resume(Reply::Clock(1_000 + HARD_CAP)), Action::Send(Event::Exit));
}

#[test]
fn windows_draining_ends_with_an_error() {
    let mut harness = draining_on_windows();
    harness.resume(Reply::Clock(1_000));
    assert_eq!(
        harness.read_failing(failure(IoErrorKind::Other, None)),
        Action::Send(Event::Exit)
    );
}

struct Screen;

impl vte::ansi::Handler for Screen {}

#[test]
fn synchronized_output_is_not_announced() {
    let mut harness = Harness::polling(config(Platform::Linux));
    harness.events(vec![event(PTY, true, false)]);
    harness.read(ReadReply::Done);
    harness.read(ReadReply::Read(Ok(3)));
    assert_eq!(
        harness.read(ReadReply::TryLock(true)),
        Action::Read(ReadAction::Parse { len: 3 })
    );
    // The update began in an earlier round.
    for byte in b"\x1b[?2026habc" {
        harness.state.parser.processor.advance(&mut Screen, *byte);
    }
    assert_eq!(harness.state.sync_bytes_count(), 3);
    harness.read(ReadReply::Done);
    assert_eq!(
        harness.read(ReadReply::Read(Ok(0))),
        Action::Read(ReadAction::Release { wakeup: false })
    );
    harness.read(ReadReply::Done);
    harness.state.parser.processor.stop_sync(&mut Screen);
    assert_eq!(harness.state.sync_bytes_count(), 0);
}

#[test]
fn only_fitting_answers_are_accepted() {
    let mut harness = Harness::polling(config(Platform::Linux));
    assert!(!harness.event_loop.accepts(&harness.state, &Reply::Done));
    assert!(!harness.event_loop.accepts(&harness.state, &Reply::Peeked(true)));
    harness.resume(Reply::Polled(Ok(vec![event(PTY, false, true)])));
    assert!(!harness.event_loop.accepts(&harness.state, &Reply::Child(None)));
    harness.resume(Reply::Received(Some(Msg::Input(Cow::Borrowed(b"abc")))));
    harness.resume(Reply::Received(None));
    assert!(harness.event_loop.accepts(&harness.state, &Reply::Written(Ok(usize::MAX))));
    harness.resume(Reply::Written(Ok(1)));
    assert!(!harness.event_loop.accepts(&harness.state, &Reply::Written(Ok(usize::MAX))));
    assert!(!harness.event_loop.accepts(&harness.state, &Reply::Clock(0)));
}
