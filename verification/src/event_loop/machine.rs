//! The main event loop.

use vstd::prelude::*;

use crate::event::{ChildEvent, Event, IoErrorKind, IoFailure, WindowSize};
use crate::event_loop::msg::Msg;
use crate::event_loop::parser::sync_buffer;
use crate::event_loop::pty_read::{PtyRead, ReadAction, ReadReply, ReadStep};
use crate::event_loop::state::{State, StateView, WriteStep};
use crate::event_loop::tail::{TailDrain, TailStep};

verus! {

/// Reads `libc::EIO`, the number of an I/O error. Operating systems differ in
/// it, so nothing is claimed of its value.
#[verifier::external_body]
fn eio() -> (number: i32) {
    libc::EIO
}

/// Whether `number` is what `libc::EIO` was read as.
pub closed spec fn is_eio(number: i32) -> bool {
    call_ensures(eio, (), number)
}

/// The operating systems on which the event loop behaves differently.
#[derive(Clone, Copy, Debug, PartialEq, Eq, Structural)]
pub enum Platform {
    Linux,
    Windows,
    Other,
}

/// What an event loop is created with.
#[derive(Clone, Copy, Debug, PartialEq, Eq, Structural)]
pub struct Config {
    /// Read what the child left behind before announcing that it exited.
    pub drain_on_exit: bool,
    /// Record everything that is read from the PTY.
    pub ref_test: bool,
    pub platform: Platform,
    /// Key of the poller's events about the child process.
    pub child_token: usize,
    /// Key of the poller's events about reading and writing.
    pub read_write_token: usize,
    /// The operating system's number of an I/O error.
    pub io_error: i32,
}

impl Config {
    /// The settings for the operating system that this is compiled for, with
    /// its number of an I/O error.
    pub fn new(
        drain_on_exit: bool,
        ref_test: bool,
        platform: Platform,
        child_token: usize,
        read_write_token: usize,
    ) -> (config: Config)
        ensures
            config == (Config {
                drain_on_exit,
                ref_test,
                platform,
                child_token,
                read_write_token,
                io_error: config.io_error,
            }),
            is_eio(config.io_error),
    {
        let io_error: i32 = eio();
        assert(is_eio(io_error));
        Config { drain_on_exit, ref_test, platform, child_token, read_write_token, io_error }
    }
}

/// What the poller is asked to watch the PTY for.
#[derive(Clone, Copy, Debug, PartialEq, Eq, Structural)]
pub struct Interest {
    pub readable: bool,
    pub writable: bool,
}

/// One event that the poller reported.
#[derive(Clone, Copy, Debug, PartialEq, Eq, Structural)]
pub struct PollEvent {
    pub key: usize,
    pub readable: bool,
    pub writable: bool,
    /// The other side of the PTY is closed.
    pub interrupt: bool,
}

/// Why the event loop ends.
#[derive(Clone, Copy, Debug, PartialEq, Eq, Structural)]
pub enum StopCause {
    /// A shutdown message was received.
    Shutdown,
    /// The child process exited.
    ChildExited,
    /// The poller failed.
    PollFailed,
    /// Reading from the PTY failed.
    ReadFailed,
    /// Writing to the PTY failed.
    WriteFailed,
}

/// What has to be done next to run the event loop.
#[derive(Clone, Copy, Debug, PartialEq, Eq, Structural)]
pub enum Action {
    /// Register the PTY with the poller.
    Register(Interest),
    /// Create the file into which the PTY's output is recorded.
    CreateRecording,
    /// Wait for events, until the timeout of a synchronized update at most.
    Poll,
    /// Look whether a message is waiting.
    Peek,
    /// End the synchronized update.
    StopSync,
    /// Receive a message if one is waiting.
    Receive,
    /// Resize the PTY.
    Resize(WindowSize),
    /// Ask the PTY for news of its child process.
    NextChildEvent,
    /// Send an event to the application.
    Send(Event),
    /// Read the clock.
    Clock,
    /// Sleep for [`crate::event_loop::tail::POLL_PAUSE`].
    Pause,
    /// Do this to read from the PTY.
    Read(ReadAction),
    /// Write [`State::outgoing`] to the PTY.
    Write,
    /// Register the PTY with the poller anew.
    Reregister(Interest),
    /// Remove the PTY from the poller.
    Deregister(StopCause),
    /// Nothing; the event loop has ended.
    Finish,
}

/// How an [`Action`] went.
#[derive(Debug)]
pub enum Reply {
    /// It was carried out.
    Done,
    /// Whether the PTY could be registered.
    Registered(bool),
    /// What the poller returned.
    Polled(Result<Vec<PollEvent>, IoFailure>),
    /// Whether a message is waiting.
    Peeked(bool),
    /// The message that was waiting.
    Received(Option<Msg>),
    /// What the PTY knows of its child process.
    Child(Option<ChildEvent>),
    /// The time on a monotonic clock, in nanoseconds.
    Clock(u128),
    /// How reading went.
    Read(ReadReply),
    /// The number of bytes written, or why writing failed.
    Written(Result<usize, IoFailure>),
}

/// What the event loop is doing.
#[derive(Clone, Copy, Debug, PartialEq, Eq)]
pub enum Phase {
    Registering,
    CreatingRecording,
    Polling,
    Peeking,
    StoppingSync,
    /// Announcing what the end of a synchronized update brought.
    WakingUp,
    Receiving,
    Resizing(WindowSize),
    AwaitingChild,
    AnnouncingChild(i32),
    /// From here to `TailPausing`: draining the child's output by the clock.
    TailStarting,
    TailTiming(TailDrain),
    TailReading(TailDrain, u128, PtyRead),
    TailPausing(TailDrain),
    /// Draining the child's output with a single read.
    FinalReading(PtyRead),
    AnnouncingExit,
    /// Announcing what the child left behind.
    AnnouncingWakeup,
    Reading(PtyRead),
    Writing,
    Reregistering,
    Deregistering(StopCause),
    Finished,
}

/// Model of an [`EventLoop`].
#[verifier::ext_equal]
pub struct LoopView {
    pub config: Config,
    pub interest: Interest,
    /// The events of the last poll.
    pub events: Seq<PollEvent>,
    /// The event which is being handled.
    pub at: nat,
    pub phase: Phase,
}

impl LoopView {
    /// An event loop which is about to start. It wants to read.
    pub open spec fn initial(config: Config) -> LoopView {
        LoopView {
            config,
            interest: Interest { readable: true, writable: false },
            events: Seq::empty(),
            at: 0,
            phase: Phase::Registering,
        }
    }

    /// What has to be done.
    pub open spec fn action(self) -> Action {
        match self.phase {
            Phase::Registering => Action::Register(self.interest),
            Phase::CreatingRecording => Action::CreateRecording,
            Phase::Polling => Action::Poll,
            Phase::Peeking => Action::Peek,
            Phase::StoppingSync => Action::StopSync,
            Phase::WakingUp => Action::Send(Event::Wakeup),
            Phase::Receiving => Action::Receive,
            Phase::Resizing(size) => Action::Resize(size),
            Phase::AwaitingChild => Action::NextChildEvent,
            Phase::AnnouncingChild(code) => Action::Send(Event::ChildExit(code)),
            Phase::TailStarting => Action::Clock,
            Phase::TailTiming(_) => Action::Clock,
            Phase::TailReading(_, _, read) => Action::Read(read.awaiting),
            Phase::TailPausing(_) => Action::Pause,
            Phase::FinalReading(read) => Action::Read(read.awaiting),
            Phase::AnnouncingExit => Action::Send(Event::Exit),
            Phase::AnnouncingWakeup => Action::Send(Event::Wakeup),
            Phase::Reading(read) => Action::Read(read.awaiting),
            Phase::Writing => Action::Write,
            Phase::Reregistering => Action::Reregister(self.interest),
            Phase::Deregistering(cause) => Action::Deregister(cause),
            Phase::Finished => Action::Finish,
        }
    }

    /// The same loop in another phase.
    pub open spec fn enter(self, phase: Phase) -> LoopView {
        LoopView { phase, ..self }
    }

    /// Whether `event` is about reading from or writing to a PTY which is not
    /// closed on the other side.
    pub open spec fn is_pty_event(self, event: PollEvent) -> bool {
        &&& event.key != self.config.child_token
        &&& event.key == self.config.read_write_token
        &&& !event.interrupt
    }

    /// Whether there is anything to do about `event`.
    pub open spec fn actionable(self, event: PollEvent, q: StateView) -> bool {
        ||| event.key == self.config.child_token
        ||| self.is_pty_event(event) && (event.readable || event.writable && q.needs_write())
    }

    /// What holds between any two steps of the loop, `q` being what is waiting
    /// to be written.
    pub open spec fn wf(self, q: StateView) -> bool {
        &&& q.wf()
        &&& match self.phase {
            Phase::AwaitingChild => {
                &&& self.at < self.events.len()
                &&& self.events[self.at as int].key == self.config.child_token
            },
            Phase::Reading(read) => {
                &&& self.at < self.events.len()
                &&& self.is_pty_event(self.events[self.at as int])
                &&& self.events[self.at as int].readable
                &&& read.wf()
            },
            Phase::Writing => {
                &&& self.at < self.events.len()
                &&& self.is_pty_event(self.events[self.at as int])
                &&& self.events[self.at as int].writable
                &&& q.current is Some
            },
            Phase::TailReading(_, _, read) => read.wf(),
            Phase::FinalReading(read) => read.wf(),
            _ => true,
        }
    }

    /// Whether `reply` can be the answer to what is being done.
    pub open spec fn answered_by(self, q: StateView, reply: Reply) -> bool {
        match self.phase {
            Phase::Registering => reply is Registered,
            Phase::Polling => reply is Polled,
            Phase::Peeking => reply is Peeked,
            Phase::Receiving => reply is Received,
            Phase::AwaitingChild => reply is Child,
            Phase::TailStarting => reply is Clock,
            Phase::TailTiming(_) => reply is Clock,
            Phase::TailReading(_, _, read) => reply matches Reply::Read(answer)
                && read.answered_by(answer),
            Phase::FinalReading(read) => reply matches Reply::Read(answer) && read.answered_by(
                answer,
            ),
            Phase::Reading(read) => reply matches Reply::Read(answer) && read.answered_by(answer),
            Phase::Writing => match reply {
                Reply::Written(Ok(n)) => q.current->0.has_room_for(n as nat),
                Reply::Written(Err(_)) => true,
                _ => false,
            },
            Phase::Finished => false,
            _ => reply is Done,
        }
    }

    /// The first event from `from` on about which there is anything to do.
    pub open spec fn first_actionable(self, q: StateView, from: nat) -> nat
        decreases self.events.len() - from,
    {
        if from >= self.events.len() {
            self.events.len()
        } else if self.actionable(self.events[from as int], q) {
            from
        } else {
            self.first_actionable(q, from + 1)
        }
    }

    /// All events are handled: watch for writability exactly while something
    /// is waiting to be written, and poll again.
    pub open spec fn settled(self, q: StateView) -> LoopView {
        if q.needs_write() != self.interest.writable {
            LoopView {
                interest: Interest { writable: q.needs_write(), ..self.interest },
                phase: Phase::Reregistering,
                ..self
            }
        } else {
            self.enter(Phase::Polling)
        }
    }

    /// Handle the events from `from` on.
    pub open spec fn visited(self, q: StateView, from: nat) -> (LoopView, StateView) {
        let at = self.first_actionable(q, from);
        let found = LoopView { at, ..self };
        if at >= self.events.len() {
            (found.settled(q), q)
        } else if self.events[at as int].key == self.config.child_token {
            (found.enter(Phase::AwaitingChild), q)
        } else if self.events[at as int].readable {
            (found.enter(Phase::Reading(PtyRead::initial())), q)
        } else {
            (found.enter(Phase::Writing), q.ensure_next())
        }
    }

    /// The event which is being handled was read for; see to writing.
    pub open spec fn read_for(self, q: StateView) -> (LoopView, StateView) {
        if self.events[self.at as int].writable && q.needs_write() {
            (self.enter(Phase::Writing), q.ensure_next())
        } else {
            self.visited(q, self.at + 1)
        }
    }

    /// A message was received, or there is none.
    pub open spec fn received(self, q: StateView, msg: Option<Msg>) -> (LoopView, StateView) {
        match msg {
            None => self.visited(q, 0),
            Some(Msg::Input(bytes)) => (self, q.push(bytes@)),
            Some(Msg::Resize(size)) => (self.enter(Phase::Resizing(size)), q),
            Some(Msg::Shutdown) => (self.enter(Phase::Deregistering(StopCause::Shutdown)), q),
        }
    }

    /// The poller returned. If nothing happened there may still be messages.
    pub open spec fn polled(self, outcome: Result<Vec<PollEvent>, IoFailure>) -> LoopView {
        match outcome {
            Ok(events) => LoopView {
                events: events@,
                at: 0,
                phase: if events@.len() == 0 {
                    Phase::Peeking
                } else {
                    Phase::Receiving
                },
                ..self
            },
            Err(failure) => if failure.kind is Interrupted {
                self
            } else {
                self.enter(Phase::Deregistering(StopCause::PollFailed))
            },
        }
    }

    /// The child is gone; drain its output if asked to.
    pub open spec fn exiting(self) -> LoopView {
        self.enter(
            if !self.config.drain_on_exit {
                Phase::AnnouncingExit
            } else if self.config.platform is Windows {
                Phase::TailStarting
            } else {
                Phase::FinalReading(PtyRead::initial())
            },
        )
    }

    /// A read for an event is over. On Linux, an I/O error says that the
    /// child's side hung up; its exit is reported by another event.
    pub open spec fn finished_reading(self, q: StateView, outcome: Result<usize, IoFailure>) -> (
        LoopView,
        StateView,
    ) {
        match outcome {
            Ok(_) => self.read_for(q),
            Err(failure) => if self.config.platform is Linux && failure.raw_os_error == Some(
                self.config.io_error,
            ) {
                self.visited(q, self.at + 1)
            } else {
                (self.enter(Phase::Deregistering(StopCause::ReadFailed)), q)
            },
        }
    }

    /// A round of draining by the clock is over.
    pub open spec fn finished_tail(
        self,
        tail: TailDrain,
        now: u128,
        outcome: Result<usize, IoFailure>,
    ) -> LoopView {
        self.enter(
            match tail.step(now, outcome) {
                TailStep::Read => Phase::TailTiming(tail.after(now, outcome)),
                TailStep::Pause => Phase::TailPausing(tail.after(now, outcome)),
                TailStep::Drained => Phase::AnnouncingExit,
            },
        )
    }

    /// An attempt to write was made.
    pub open spec fn wrote(self, q: StateView, outcome: Result<usize, IoFailure>) -> (
        LoopView,
        StateView,
    ) {
        match outcome {
            Ok(n) => {
                let left = if n == 0 {
                    q
                } else {
                    q.wrote(n as nat)
                };
                if n > 0 && left.current is Some {
                    (self, left)
                } else {
                    self.visited(left, self.at + 1)
                }
            },
            Err(failure) => if failure.transient() {
                self.visited(q, self.at + 1)
            } else {
                (self.enter(Phase::Deregistering(StopCause::WriteFailed)), q)
            },
        }
    }

    /// The loop, and what is waiting to be written, after the answer to what
    /// was being done. `sync_bytes` is the number of bytes that the parser
    /// holds back.
    pub open spec fn resumed(self, q: StateView, reply: Reply, sync_bytes: nat) -> (
        LoopView,
        StateView,
    ) {
        match (self.phase, reply) {
            (Phase::Registering, Reply::Registered(registered)) => (
                self.enter(
                    if !registered {
                        Phase::Finished
                    } else if self.config.ref_test {
                        Phase::CreatingRecording
                    } else {
                        Phase::Polling
                    },
                ),
                q,
            ),
            (Phase::CreatingRecording, _) => (self.enter(Phase::Polling), q),
            (Phase::Polling, Reply::Polled(outcome)) => (self.polled(outcome), q),
            (Phase::Peeking, Reply::Peeked(waiting)) => (
                self.enter(
                    if waiting {
                        Phase::Receiving
                    } else {
                        Phase::StoppingSync
                    },
                ),
                q,
            ),
            (Phase::StoppingSync, _) => (self.enter(Phase::WakingUp), q),
            (Phase::WakingUp, _) => (self.enter(Phase::Polling), q),
            (Phase::Receiving, Reply::Received(msg)) => self.received(q, msg),
            (Phase::Resizing(_), _) => (self.enter(Phase::Receiving), q),
            (Phase::AwaitingChild, Reply::Child(None)) => self.visited(q, self.at + 1),
            (Phase::AwaitingChild, Reply::Child(Some(ChildEvent::Exited(Some(code))))) => (
                self.enter(Phase::AnnouncingChild(code)),
                q,
            ),
            (Phase::AwaitingChild, Reply::Child(Some(ChildEvent::Exited(None)))) => (
                self.exiting(),
                q,
            ),
            (Phase::AnnouncingChild(_), _) => (self.exiting(), q),
            (Phase::TailStarting, Reply::Clock(now)) => (
                self.enter(Phase::TailTiming(TailDrain { started: now, last_data: now })),
                q,
            ),
            (Phase::TailTiming(tail), Reply::Clock(now)) => (
                self.enter(
                    if tail.overdue(now) {
                        Phase::AnnouncingExit
                    } else {
                        Phase::TailReading(tail, now, PtyRead::initial())
                    },
                ),
                q,
            ),
            (Phase::TailReading(tail, now, read), Reply::Read(answer)) => (
                if read.awaiting is Release {
                    self.finished_tail(tail, now, read.result())
                } else {
                    self.enter(Phase::TailReading(tail, now, read.resumed(answer, sync_bytes)))
                },
                q,
            ),
            (Phase::TailPausing(tail), _) => (self.enter(Phase::TailTiming(tail)), q),
            (Phase::FinalReading(read), Reply::Read(answer)) => (
                self.enter(
                    if read.awaiting is Release {
                        Phase::AnnouncingExit
                    } else {
                        Phase::FinalReading(read.resumed(answer, sync_bytes))
                    },
                ),
                q,
            ),
            (Phase::AnnouncingExit, _) => (self.enter(Phase::AnnouncingWakeup), q),
            (Phase::AnnouncingWakeup, _) => (
                self.enter(Phase::Deregistering(StopCause::ChildExited)),
                q,
            ),
            (Phase::Reading(read), Reply::Read(answer)) => if read.awaiting is Release {
                self.finished_reading(q, read.result())
            } else {
                (self.enter(Phase::Reading(read.resumed(answer, sync_bytes))), q)
            },
            (Phase::Writing, Reply::Written(outcome)) => self.wrote(q, outcome),
            (Phase::Reregistering, _) => (self.enter(Phase::Polling), q),
            (Phase::Deregistering(_), _) => (self.enter(Phase::Finished), q),
            _ => (self, q),
        }
    }
}

/// The main event loop.
///
/// Decides on all the PTY I/O and on when to run the PTY parser which updates
/// terminal state.
pub struct EventLoop {
    config: Config,
    interest: Interest,
    events: Vec<PollEvent>,
    at: usize,
    phase: Phase,
}

impl View for EventLoop {
    type V = LoopView;

    closed spec fn view(&self) -> LoopView {
        LoopView {
            config: self.config,
            interest: self.interest,
            events: self.events@,
            at: self.at as nat,
            phase: self.phase,
        }
    }
}

impl EventLoop {
    /// Create a new event loop.
    pub fn new(config: Config) -> (event_loop: EventLoop)
        ensures
            event_loop@ == LoopView::initial(config),
    {
        EventLoop {
            config,
            interest: Interest { readable: true, writable: false },
            events: Vec::new(),
            at: 0,
            phase: Phase::Registering,
        }
    }

    /// What has to be done next.
    pub fn action(&self) -> (action: Action)
        ensures
            action == self@.action(),
    {
        match self.phase {
            Phase::Registering => Action::Register(self.interest),
            Phase::CreatingRecording => Action::CreateRecording,
            Phase::Polling => Action::Poll,
            Phase::Peeking => Action::Peek,
            Phase::StoppingSync => Action::StopSync,
            Phase::WakingUp => Action::Send(Event::Wakeup),
            Phase::Receiving => Action::Receive,
            Phase::Resizing(size) => Action::Resize(size),
            Phase::AwaitingChild => Action::NextChildEvent,
            Phase::AnnouncingChild(code) => Action::Send(Event::ChildExit(code)),
            Phase::TailStarting => Action::Clock,
            Phase::TailTiming(_) => Action::Clock,
            Phase::TailReading(_, _, read) => Action::Read(read.awaiting),
            Phase::TailPausing(_) => Action::Pause,
            Phase::FinalReading(read) => Action::Read(read.awaiting),
            Phase::AnnouncingExit => Action::Send(Event::Exit),
            Phase::AnnouncingWakeup => Action::Send(Event::Wakeup),
            Phase::Reading(read) => Action::Read(read.awaiting),
            Phase::Writing => Action::Write,
            Phase::Reregistering => Action::Reregister(self.interest),
            Phase::Deregistering(cause) => Action::Deregister(cause),
            Phase::Finished => Action::Finish,
        }
    }

    /// Handle the events from `from` on.
    fn visit(&mut self, state: &mut State, from: usize)
        requires
            old(state)@.wf(),
        ensures
            (final(self)@, final(state)@) == old(self)@.visited(old(state)@, from as nat),
            final(self)@.wf(final(state)@),
            final(state).held_parser() == old(state).held_parser(),
    {
        let needs_write = state.needs_write();
        let ghost q = state@;
        let ghost before = self@;
        let mut at: usize = from;
        while at < self.events.len()
            invariant_except_break
                before.first_actionable(q, from as nat) == before.first_actionable(q, at as nat),
            invariant
                *self == *old(self),
                *state == *old(state),
                before == self@,
                q == state@,
                q.wf(),
                needs_write == q.needs_write(),
            ensures
                before.first_actionable(q, from as nat) == if at < self.events.len() {
                    at as nat
                } else {
                    self.events@.len()
                },
                at < self.events.len() ==> before.actionable(self.events@[at as int], q),
            decreases self.events.len() - at,
        {
            let event = self.events[at];
            if event.key == self.config.child_token {
                break;
            }
            if event.key == self.config.read_write_token && !event.interrupt && (event.readable
                || event.writable && needs_write) {
                break;
            }
            at = at + 1;
        }
        if at < self.events.len() {
            let event = self.events[at];
            self.at = at;
            if event.key == self.config.child_token {
                self.phase = Phase::AwaitingChild;
            } else if event.readable {
                self.phase = Phase::Reading(PtyRead::new());
            } else {
                state.ensure_next();
                self.phase = Phase::Writing;
            }
        } else {
            self.at = self.events.len();
            // Register write interest if necessary.
            if needs_write != self.interest.writable {
                self.interest.writable = needs_write;
                self.phase = Phase::Reregistering;
            } else {
                self.phase = Phase::Polling;
            }
        }
    }

    /// Handle the events after the one which is being handled.
    fn visit_next(&mut self, state: &mut State)
        requires
            old(state)@.wf(),
            old(self)@.at < old(self)@.events.len(),
        ensures
            (final(self)@, final(state)@) == old(self)@.visited(old(state)@, old(self)@.at + 1),
            final(self)@.wf(final(state)@),
            final(state).held_parser() == old(state).held_parser(),
    {
        assert(self.at < self.events.len());
        self.visit(state, self.at + 1);
    }

    /// Whether `reply` can be the answer to what is being done.
    pub fn accepts(&self, state: &State, reply: &Reply) -> (accepts: bool)
        requires
            self@.wf(state@),
        ensures
            accepts == self@.answered_by(state@, *reply),
    {
        match (self.phase, reply) {
            (Phase::Registering, Reply::Registered(_)) => true,
            (Phase::Polling, Reply::Polled(_)) => true,
            (Phase::Peeking, Reply::Peeked(_)) => true,
            (Phase::Receiving, Reply::Received(_)) => true,
            (Phase::AwaitingChild, Reply::Child(_)) => true,
            (Phase::TailStarting, Reply::Clock(_)) => true,
            (Phase::TailTiming(_), Reply::Clock(_)) => true,
            (Phase::TailReading(_, _, read), Reply::Read(answer)) => read.accepts(answer),
            (Phase::FinalReading(read), Reply::Read(answer)) => read.accepts(answer),
            (Phase::Reading(read), Reply::Read(answer)) => read.accepts(answer),
            (Phase::Writing, Reply::Written(Ok(n))) => state.has_room_for(*n),
            (Phase::Writing, Reply::Written(Err(_))) => true,
            (Phase::CreatingRecording, Reply::Done) => true,
            (Phase::StoppingSync, Reply::Done) => true,
            (Phase::WakingUp, Reply::Done) => true,
            (Phase::Resizing(_), Reply::Done) => true,
            (Phase::AnnouncingChild(_), Reply::Done) => true,
            (Phase::TailPausing(_), Reply::Done) => true,
            (Phase::AnnouncingExit, Reply::Done) => true,
            (Phase::AnnouncingWakeup, Reply::Done) => true,
            (Phase::Reregistering, Reply::Done) => true,
            (Phase::Deregistering(_), Reply::Done) => true,
            _ => false,
        }
    }

    /// Take a message from the channel.
    ///
    /// Input is queued for writing, everything else is acted on at once. A
    /// shutdown ends the loop, whatever else is waiting in the channel.
    fn drain_recv_channel(&mut self, state: &mut State, msg: Option<Msg>)
        requires
            old(state)@.wf(),
            old(self)@.phase is Receiving,
        ensures
            (final(self)@, final(state)@) == old(self)@.received(old(state)@, msg),
            final(self)@.wf(final(state)@),
            final(state).held_parser() == old(state).held_parser(),
    {
        match msg {
            Some(Msg::Input(input)) => {
                state.push_input(input);
            },
            Some(Msg::Resize(window_size)) => {
                self.phase = Phase::Resizing(window_size);
            },
            Some(Msg::Shutdown) => {
                self.phase = Phase::Deregistering(StopCause::Shutdown);
            },
            None => {
                self.visit(state, 0);
            },
        }
    }

    /// The poller returned.
    fn poll(&mut self, outcome: Result<Vec<PollEvent>, IoFailure>)
        ensures
            final(self)@ == old(self)@.polled(outcome),
    {
        match outcome {
            Ok(events) => {
                self.phase = if events.len() == 0 {
                    Phase::Peeking
                } else {
                    Phase::Receiving
                };
                self.events = events;
                self.at = 0;
            },
            Err(failure) => {
                match failure.kind {
                    IoErrorKind::Interrupted => {},
                    _ => {
                        self.phase = Phase::Deregistering(StopCause::PollFailed);
                    },
                }
            },
        }
    }

    /// The child process is gone.
    fn exit(&mut self)
        ensures
            final(self)@ == old(self)@.exiting(),
            forall|q: StateView| q.wf() ==> #[trigger] final(self)@.wf(q),
    {
        self.phase = if !self.config.drain_on_exit {
            Phase::AnnouncingExit
        } else {
            match self.config.platform {
                Platform::Windows => Phase::TailStarting,
                _ => Phase::FinalReading(PtyRead::new()),
            }
        };
    }

    /// A read for an event is over.
    fn finish_reading(&mut self, state: &mut State, outcome: Result<usize, IoFailure>)
        requires
            old(self)@.wf(old(state)@),
            old(self)@.phase is Reading,
        ensures
            (final(self)@, final(state)@) == old(self)@.finished_reading(old(state)@, outcome),
            final(self)@.wf(final(state)@),
            final(state).held_parser() == old(state).held_parser(),
    {
        match outcome {
            Ok(_) => {
                if self.events[self.at].writable && state.needs_write() {
                    state.ensure_next();
                    self.phase = Phase::Writing;
                } else {
                    self.visit_next(state);
                }
            },
            Err(failure) => {
                let hung_up = match (self.config.platform, failure.raw_os_error) {
                    (Platform::Linux, Some(number)) => number == self.config.io_error,
                    _ => false,
                };
                if hung_up {
                    self.visit_next(state);
                } else {
                    self.phase = Phase::Deregistering(StopCause::ReadFailed);
                }
            },
        }
    }

    /// An attempt to write was made.
    fn write(&mut self, state: &mut State, outcome: Result<usize, IoFailure>)
        requires
            old(self)@.wf(old(state)@),
            old(self)@.phase is Writing,
            old(self)@.answered_by(old(state)@, Reply::Written(outcome)),
        ensures
            (final(self)@, final(state)@) == old(self)@.wrote(old(state)@, outcome),
            final(self)@.wf(final(state)@),
            final(state).held_parser() == old(state).held_parser(),
    {
        match state.pty_write(outcome) {
            WriteStep::Again => {},
            WriteStep::Done => {
                self.visit_next(state);
            },
            WriteStep::Failed => {
                self.phase = Phase::Deregistering(StopCause::WriteFailed);
            },
        }
    }

    /// Take the answer to what was being done and say what has to be done
    /// next.
    pub fn resume(&mut self, state: &mut State, reply: Reply) -> (action: Action)
        requires
            old(self)@.wf(old(state)@),
            old(self)@.answered_by(old(state)@, reply),
        ensures
            (final(self)@, final(state)@) == old(self)@.resumed(
                old(state)@,
                reply,
                sync_buffer(old(state).held_parser()).len(),
            ),
            final(self)@.wf(final(state)@),
            action == final(self)@.action(),
            final(state).held_parser() == old(state).held_parser(),
    {
        match (self.phase, reply) {
            (Phase::Registering, Reply::Registered(registered)) => {
                self.phase = if !registered {
                    Phase::Finished
                } else if self.config.ref_test {
                    Phase::CreatingRecording
                } else {
                    Phase::Polling
                };
            },
            (Phase::CreatingRecording, _) => {
                self.phase = Phase::Polling;
            },
            (Phase::Polling, Reply::Polled(outcome)) => {
                self.poll(outcome);
            },
            (Phase::Peeking, Reply::Peeked(waiting)) => {
                self.phase = if waiting {
                    Phase::Receiving
                } else {
                    Phase::StoppingSync
                };
            },
            (Phase::StoppingSync, _) => {
                self.phase = Phase::WakingUp;
            },
            (Phase::WakingUp, _) => {
                self.phase = Phase::Polling;
            },
            (Phase::Receiving, Reply::Received(msg)) => {
                self.drain_recv_channel(state, msg);
            },
            (Phase::Resizing(_), _) => {
                self.phase = Phase::Receiving;
            },
            (Phase::AwaitingChild, Reply::Child(None)) => {
                self.visit_next(state);
            },
            (Phase::AwaitingChild, Reply::Child(Some(ChildEvent::Exited(Some(code))))) => {
                self.phase = Phase::AnnouncingChild(code);
            },
            (Phase::AwaitingChild, Reply::Child(Some(ChildEvent::Exited(None)))) => {
                self.exit();
            },
            (Phase::AnnouncingChild(_), _) => {
                self.exit();
            },
            (Phase::TailStarting, Reply::Clock(now)) => {
                self.phase = Phase::TailTiming(TailDrain::new(now));
            },
            (Phase::TailTiming(tail), Reply::Clock(now)) => {
                self.phase = if tail.is_overdue(now) {
                    Phase::AnnouncingExit
                } else {
                    Phase::TailReading(tail, now, PtyRead::new())
                };
            },
            (Phase::TailReading(tail, now, read), Reply::Read(answer)) => {
                let mut read = read;
                self.phase = match read.resume(answer, state.sync_bytes_count()) {
                    ReadStep::Next(_) => Phase::TailReading(tail, now, read),
                    ReadStep::Finished(outcome) => {
                        let mut tail = tail;
                        match tail.resume(now, outcome) {
                            TailStep::Read => Phase::TailTiming(tail),
                            TailStep::Pause => Phase::TailPausing(tail),
                            TailStep::Drained => Phase::AnnouncingExit,
                        }
                    },
                };
            },
            (Phase::TailPausing(tail), _) => {
                self.phase = Phase::TailTiming(tail);
            },
            (Phase::FinalReading(read), Reply::Read(answer)) => {
                let mut read = read;
                self.phase = match read.resume(answer, state.sync_bytes_count()) {
                    ReadStep::Next(_) => Phase::FinalReading(read),
                    ReadStep::Finished(_) => Phase::AnnouncingExit,
                };
            },
            (Phase::AnnouncingExit, _) => {
                self.phase = Phase::AnnouncingWakeup;
            },
            (Phase::AnnouncingWakeup, _) => {
                self.phase = Phase::Deregistering(StopCause::ChildExited);
            },
            (Phase::Reading(read), Reply::Read(answer)) => {
                let mut read = read;
                match read.resume(answer, state.sync_bytes_count()) {
                    ReadStep::Next(_) => {
                        self.phase = Phase::Reading(read);
                    },
                    ReadStep::Finished(outcome) => {
                        self.finish_reading(state, outcome);
                    },
                }
            },
            (Phase::Writing, Reply::Written(outcome)) => {
                self.write(state, outcome);
            },
            (Phase::Reregistering, _) => {
                self.phase = Phase::Polling;
            },
            (Phase::Deregistering(_), _) => {
                self.phase = Phase::Finished;
            },
            _ => {},
        }
        self.action()
    }
}

} // verus!
