//! What holds of the event loop as a whole.

use vstd::prelude::*;

use crate::event::{ChildEvent, Event, IoFailure};
use crate::event_loop::machine::{
    Action, Config, LoopView, Phase, PollEvent, Reply, StopCause,
};
use crate::event_loop::msg::Msg;
use crate::event_loop::pty_read::{PtyRead, ReadAction};
use crate::event_loop::state::StateView;
use crate::event_loop::tail::{TailDrain, HARD_CAP};

verus! {

/// One answer in the course of an event loop.
pub struct Exchange {
    pub reply: Reply,
    /// The number of bytes which the parser holds back at that point.
    pub sync_bytes: nat,
}

/// An event loop, and what waits to be written, after the answers in `trace`.
pub open spec fn run(config: Config, trace: Seq<Exchange>) -> (LoopView, StateView)
    decreases trace.len(),
{
    if trace.len() == 0 {
        (LoopView::initial(config), StateView::empty())
    } else {
        let (v, q) = run(config, trace.drop_last());
        v.resumed(q, trace.last().reply, trace.last().sync_bytes)
    }
}

/// Whether `trace` is a course that an event loop can take: each answer fits
/// what was being done.
pub open spec fn is_run(config: Config, trace: Seq<Exchange>) -> bool
    decreases trace.len(),
{
    trace.len() == 0 || {
        let (v, q) = run(config, trace.drop_last());
        &&& is_run(config, trace.drop_last())
        &&& v.answered_by(q, trace.last().reply)
    }
}

/// The input in one answer.
pub open spec fn input_of(reply: Reply) -> Seq<u8> {
    match reply {
        Reply::Received(Some(Msg::Input(bytes))) => bytes@,
        _ => Seq::empty(),
    }
}

/// The bytes of `outgoing` which the PTY took according to one answer.
pub open spec fn written_of(outgoing: Seq<u8>, reply: Reply) -> Seq<u8> {
    match reply {
        Reply::Written(Ok(n)) => if n < outgoing.len() {
            outgoing.take(n as int)
        } else {
            outgoing
        },
        _ => Seq::empty(),
    }
}

/// All input that was received in the course of `trace`, in order.
pub open spec fn input(trace: Seq<Exchange>) -> Seq<u8>
    decreases trace.len(),
{
    if trace.len() == 0 {
        Seq::empty()
    } else {
        input(trace.drop_last()) + input_of(trace.last().reply)
    }
}

/// All bytes that the PTY took in the course of `trace`, in order.
pub open spec fn written(config: Config, trace: Seq<Exchange>) -> Seq<u8>
    decreases trace.len(),
{
    if trace.len() == 0 {
        Seq::empty()
    } else {
        written(config, trace.drop_last()) + written_of(
            run(config, trace.drop_last()).1.outgoing(),
            trace.last().reply,
        )
    }
}

/// Taking the next buffer from the queue keeps every pending byte.
proof fn lemma_ensure_next_keeps_pending(q: StateView)
    ensures
        q.ensure_next().pending() == q.pending(),
        q.wf() ==> q.ensure_next().wf(),
        q.needs_write() ==> q.ensure_next().current is Some,
{
    if q.current is None && q.queue.len() > 0 {
        let next = q.ensure_next();
        assert(next.outgoing() =~= q.queue[0]);
        assert(q.pending() =~= q.queue.flatten());
        assert(next.pending() =~= q.pending());
    }
}

/// A new buffer goes behind every pending byte.
proof fn lemma_push_appends_to_pending(q: StateView, bytes: Seq<u8>)
    ensures
        q.push(bytes).pending() == q.pending() + bytes,
{
    q.queue.lemma_flatten_push(bytes);
    assert(q.push(bytes).pending() =~= q.pending() + bytes);
}

/// Bytes that the PTY took leave the front of the pending ones.
pub(crate) proof fn lemma_wrote_removes_from_pending(q: StateView, n: nat)
    requires
        q.wf(),
        q.current is Some,
    ensures
        n < q.outgoing().len() ==> q.outgoing().take(n as int) + q.wrote(n).pending()
            == q.pending(),
        n >= q.outgoing().len() ==> q.outgoing() + q.wrote(n).pending() == q.pending(),
        q.wrote(n).wf(),
{
    let left = q.wrote(n);
    if n < q.outgoing().len() {
        assert(left.outgoing() =~= q.outgoing().skip(n as int));
        assert(q.outgoing().take(n as int) + left.pending() =~= q.pending());
    } else if q.queue.len() > 0 {
        assert(left.outgoing() =~= q.queue[0]);
        assert(left.pending() =~= q.queue.flatten());
        assert(q.outgoing() + left.pending() =~= q.pending());
    } else {
        assert(q.outgoing() + left.pending() =~= q.pending());
    }
}

/// The phases in which handling events can end.
pub(crate) open spec fn is_after_visit(phase: Phase) -> bool {
    ||| phase is Polling
    ||| phase is Reregistering
    ||| phase is AwaitingChild
    ||| phase == Phase::Reading(PtyRead::initial())
    ||| phase is Writing
}

/// Where handling of the events from `from` on leads: nothing is lost from
/// the queue, and the loop is in order.
pub(crate) proof fn lemma_visited(v: LoopView, q: StateView, from: nat)
    requires
        q.wf(),
    ensures
        v.visited(q, from).0.wf(v.visited(q, from).1),
        v.visited(q, from).1.pending() == q.pending(),
        v.visited(q, from).1 == q || v.visited(q, from).1 == q.ensure_next(),
        v.visited(q, from).0.config == v.config,
        v.visited(q, from).0.interest.readable == v.interest.readable,
        is_after_visit(v.visited(q, from).0.phase),
{
    lemma_first_actionable(v, q, from);
    lemma_ensure_next_keeps_pending(q);
}

/// The first event with anything to do about it, and none before it.
pub(crate) proof fn lemma_first_actionable(v: LoopView, q: StateView, from: nat)
    ensures
        v.first_actionable(q, from) <= v.events.len(),
        from <= v.events.len() ==> from <= v.first_actionable(q, from),
        v.first_actionable(q, from) < v.events.len() ==> v.actionable(
            v.events[v.first_actionable(q, from) as int],
            q,
        ),
        forall|i: int|
            from <= i < v.first_actionable(q, from) ==> !v.actionable(#[trigger] v.events[i], q),
    decreases v.events.len() - from,
{
    if from < v.events.len() && !v.actionable(v.events[from as int], q) {
        lemma_first_actionable(v, q, from + 1);
    }
}

/// Where one step can lead: it stays out of the phases that only the child's
/// exit leads to, unless it is about that, and ends the loop only after the
/// PTY was removed from the poller or could not be registered.
pub(crate) proof fn lemma_phases(v: LoopView, q: StateView, reply: Reply, sync_bytes: nat)
    requires
        v.wf(q),
        v.answered_by(q, reply),
    ensures
        ({
            let phase = v.resumed(q, reply, sync_bytes).0.phase;
            &&& !(phase is Registering)
            &&& phase is Finished ==> v.phase is Deregistering || reply == Reply::Registered(false)
            &&& !leaving(v.phase) ==> (leaving(phase) <==> (reply matches Reply::Child(news)
                && news is Some))
            &&& leaving(v.phase) ==> leaving(phase) || phase is Finished && v.phase is Deregistering
        }),
{
    match v.phase {
        Phase::Receiving => {
            lemma_visited(v, q, 0);
        },
        Phase::AwaitingChild => {
            lemma_visited(v, q, v.at + 1);
        },
        Phase::Reading(_) => {
            lemma_visited(v, q, v.at + 1);
        },
        Phase::Writing => {
            lemma_visited(v, q, v.at + 1);
            if let Reply::Written(Ok(n)) = reply {
                lemma_wrote_removes_from_pending(q, n as nat);
                lemma_visited(v, q.wrote(n as nat), v.at + 1);
            }
        },
        _ => {},
    }
}

/// One step keeps the loop in order, and the pending bytes grow by input and
/// shrink by what the PTY took.
proof fn lemma_step(v: LoopView, q: StateView, reply: Reply, sync_bytes: nat)
    requires
        v.wf(q),
        v.answered_by(q, reply),
    ensures
        v.resumed(q, reply, sync_bytes).0.wf(v.resumed(q, reply, sync_bytes).1),
        v.resumed(q, reply, sync_bytes).0.config == v.config,
        v.resumed(q, reply, sync_bytes).0.interest.readable == v.interest.readable,
        written_of(q.outgoing(), reply) + v.resumed(q, reply, sync_bytes).1.pending()
            == q.pending() + input_of(reply),
{
    let (next, left) = v.resumed(q, reply, sync_bytes);
    lemma_ensure_next_keeps_pending(q);
    match reply {
        Reply::Received(Some(Msg::Input(bytes))) => {
            lemma_push_appends_to_pending(q, bytes@);
        },
        Reply::Received(None) => {
            lemma_visited(v, q, 0);
        },
        Reply::Child(None) => {
            lemma_visited(v, q, v.at + 1);
        },
        Reply::Read(_) => {
            lemma_visited(v, q, v.at + 1);
        },
        Reply::Written(Ok(n)) => {
            lemma_wrote_removes_from_pending(q, n as nat);
            lemma_visited(v, q, v.at + 1);
            lemma_visited(v, q.wrote(n as nat), v.at + 1);
            if n == 0 {
                assert(written_of(q.outgoing(), reply) =~= Seq::<u8>::empty());
            }
        },
        Reply::Written(Err(_)) => {
            lemma_visited(v, q, v.at + 1);
        },
        _ => {},
    }
    assert(written_of(q.outgoing(), reply) + left.pending() =~= q.pending() + input_of(reply));
}

/// Input reaches the PTY in the order in which it was received, without loss
/// and without repetition: at any point, what the PTY took and what still
/// waits together are all the input there was.
pub proof fn law_input_is_written_in_order(config: Config, trace: Seq<Exchange>)
    requires
        is_run(config, trace),
    ensures
        written(config, trace) + run(config, trace).1.pending() == input(trace),
        run(config, trace).0.wf(run(config, trace).1),
        run(config, trace).0.config == config,
    decreases trace.len(),
{
    if trace.len() > 0 {
        let before = trace.drop_last();
        law_input_is_written_in_order(config, before);
        let (v, q) = run(config, before);
        let last = trace.last();
        lemma_step(v, q, last.reply, last.sync_bytes);
        let taken = written_of(q.outgoing(), last.reply);
        let left = run(config, trace).1.pending();
        assert(written(config, trace) + left =~= written(config, before) + (taken + left));
        assert(input(trace) =~= written(config, before) + (q.pending() + input_of(last.reply)));
    } else {
        assert(StateView::empty().pending() =~= Seq::<u8>::empty());
    }
}

/// The phases from the settling of what to watch the PTY for up to the next
/// poll: that is what the poller was told, or is being told just now.
pub open spec fn registration_is_current(phase: Phase) -> bool {
    ||| phase is Registering
    ||| phase is CreatingRecording
    ||| phase is Polling
    ||| phase is Peeking
    ||| phase is StoppingSync
    ||| phase is WakingUp
    ||| phase is Reregistering
}

/// Whenever the loop waits for events, the poller watches the PTY for
/// writability exactly if something is waiting to be written, and always for
/// readability.
pub proof fn law_writability_is_watched_while_writing(config: Config, trace: Seq<Exchange>)
    requires
        is_run(config, trace),
    ensures
        run(config, trace).0.interest.readable,
        registration_is_current(run(config, trace).0.phase) ==> run(
            config,
            trace,
        ).0.interest.writable == run(config, trace).1.needs_write(),
    decreases trace.len(),
{
    if trace.len() > 0 {
        let before = trace.drop_last();
        law_writability_is_watched_while_writing(config, before);
        law_input_is_written_in_order(config, before);
        let (v, q) = run(config, before);
        lemma_step(v, q, trace.last().reply, trace.last().sync_bytes);
    }
}

/// Whether every buffer that waits has bytes left to write.
pub open spec fn nothing_empty_waits(q: StateView) -> bool {
    &&& q.current is Some ==> q.outgoing().len() > 0
    &&& forall|i: int| 0 <= i < q.queue.len() ==> (#[trigger] q.queue[i]).len() > 0
}

/// Whether an answer carries input of zero bytes.
pub open spec fn is_empty_input(reply: Reply) -> bool {
    reply matches Reply::Received(Some(Msg::Input(bytes))) && bytes@.len() == 0
}

/// As long as no input is empty, no write is: the PTY is always offered at
/// least one byte, so that a write of zero bytes means that it is full.
pub proof fn law_writes_are_never_empty(config: Config, trace: Seq<Exchange>)
    requires
        is_run(config, trace),
        forall|i: int| 0 <= i < trace.len() ==> !is_empty_input((#[trigger] trace[i]).reply),
    ensures
        nothing_empty_waits(run(config, trace).1),
        run(config, trace).0.action() is Write ==> run(config, trace).1.outgoing().len() > 0,
    decreases trace.len(),
{
    law_input_is_written_in_order(config, trace);
    if trace.len() > 0 {
        let before = trace.drop_last();
        assert forall|i: int| 0 <= i < before.len() implies !is_empty_input(
            (#[trigger] before[i]).reply,
        ) by {
            assert(before[i] == trace[i]);
        }
        law_writes_are_never_empty(config, before);
        law_input_is_written_in_order(config, before);
        let (v, q) = run(config, before);
        let last = trace.last();
        assert(!is_empty_input(trace[trace.len() - 1].reply));
        lemma_nothing_empty_after_ensure_next(q);
        match last.reply {
            Reply::Received(None) => {
                lemma_visited(v, q, 0);
            },
            Reply::Child(None) => {
                lemma_visited(v, q, v.at + 1);
            },
            Reply::Read(_) => {
                lemma_visited(v, q, v.at + 1);
            },
            Reply::Written(Ok(n)) => {
                lemma_wrote_removes_from_pending(q, n as nat);
                lemma_nothing_empty_after_wrote(q, n as nat);
                lemma_nothing_empty_after_ensure_next(q.wrote(n as nat));
                lemma_visited(v, q, v.at + 1);
                lemma_visited(v, q.wrote(n as nat), v.at + 1);
            },
            Reply::Written(Err(_)) => {
                lemma_visited(v, q, v.at + 1);
            },
            _ => {},
        }
    }
}

proof fn lemma_nothing_empty_after_ensure_next(q: StateView)
    requires
        nothing_empty_waits(q),
    ensures
        nothing_empty_waits(q.ensure_next()),
        nothing_empty_waits(q.goto_next()),
{
    if q.queue.len() > 0 {
        let next = q.goto_next();
        assert(next.outgoing() =~= q.queue[0]);
        assert forall|i: int| 0 <= i < next.queue.len() implies (#[trigger] next.queue[i]).len()
            > 0 by {
            assert(next.queue[i] == q.queue[i + 1]);
        }
    }
}

proof fn lemma_nothing_empty_after_wrote(q: StateView, n: nat)
    requires
        q.wf(),
        q.current is Some,
        nothing_empty_waits(q),
    ensures
        nothing_empty_waits(q.wrote(n)),
{
    lemma_nothing_empty_after_ensure_next(q);
    if n < q.outgoing().len() {
        assert(q.wrote(n).outgoing() =~= q.outgoing().skip(n as int));
    }
}

/// The loop reads from and writes to the PTY only for an event that says so,
/// and never for one which says that the other side is closed.
pub proof fn law_dead_pty_is_left_alone(config: Config, trace: Seq<Exchange>)
    requires
        is_run(config, trace),
    ensures
        ({
            let v = run(config, trace).0;
            let event = v.events[v.at as int];
            &&& v.phase is Reading ==> {
                &&& v.at < v.events.len()
                &&& event.key == config.read_write_token
                &&& event.readable
                &&& !event.interrupt
            }
            &&& v.action() is Write ==> {
                &&& v.at < v.events.len()
                &&& event.key == config.read_write_token
                &&& event.writable
                &&& !event.interrupt
            }
        }),
{
    law_input_is_written_in_order(config, trace);
}

/// The events of a poll are handled in order, and one is passed over only if
/// there is nothing to do about it. Once none is left, the loop polls again.
pub proof fn law_no_event_is_skipped(v: LoopView, q: StateView, from: nat)
    requires
        q.wf(),
        from <= v.events.len(),
    ensures
        from <= v.visited(q, from).0.at <= v.events.len(),
        forall|i: int|
            from <= i < v.visited(q, from).0.at ==> !v.actionable(#[trigger] v.events[i], q),
        v.visited(q, from).0.at < v.events.len() ==> v.actionable(
            v.events[v.visited(q, from).0.at as int],
            q,
        ),
        v.visited(q, from).0.at == v.events.len() <==> {
            ||| v.visited(q, from).0.action() is Poll
            ||| v.visited(q, from).0.action() is Reregister
        },
{
    lemma_first_actionable(v, q, from);
}

/// The phases between the exit of the child and the end of the loop.
pub open spec fn leaving(phase: Phase) -> bool {
    ||| phase is AnnouncingChild
    ||| phase is TailStarting
    ||| phase is TailTiming
    ||| phase is TailReading
    ||| phase is TailPausing
    ||| phase is FinalReading
    ||| phase is AnnouncingExit
    ||| phase is AnnouncingWakeup
    ||| phase == Phase::Deregistering(StopCause::ChildExited)
}

/// The exit of the child, and nothing else, makes the loop leave; there is no
/// way back to polling, and what still waits to be written is left as it is.
pub proof fn law_child_exit_is_final(v: LoopView, q: StateView, reply: Reply, sync_bytes: nat)
    requires
        v.wf(q),
        v.answered_by(q, reply),
    ensures
        !leaving(v.phase) ==> (leaving(v.resumed(q, reply, sync_bytes).0.phase) <==> (reply matches
            Reply::Child(news) && news is Some)),
        leaving(v.phase) ==> {
            &&& v.resumed(q, reply, sync_bytes).1 == q
            &&& leaving(v.resumed(q, reply, sync_bytes).0.phase) || v.resumed(
                q,
                reply,
                sync_bytes,
            ).0.phase is Finished && v.phase is Deregistering
        },
{
    lemma_phases(v, q, reply, sync_bytes);
}

/// The exit code, where one is known, is announced first; the draining, where
/// it is asked for, comes next.
pub proof fn law_exit_code_is_announced(
    v: LoopView,
    q: StateView,
    code: Option<i32>,
    sync_bytes: nat,
)
    requires
        v.wf(q),
        v.phase is AwaitingChild,
    ensures
        ({
            let (next, left) = v.resumed(
                q,
                Reply::Child(Some(ChildEvent::Exited(code))),
                sync_bytes,
            );
            &&& left == q
            &&& match code {
                Some(code) => {
                    &&& next.action() == Action::Send(Event::ChildExit(code))
                    &&& next.resumed(q, Reply::Done, sync_bytes) == (v.exiting(), q)
                },
                None => next == v.exiting(),
            }
            &&& v.exiting().action() == if !v.config.drain_on_exit {
                Action::Send(Event::Exit)
            } else if v.config.platform is Windows {
                Action::Clock
            } else {
                Action::Read(ReadAction::Lease)
            }
        }),
{
}

/// The events that were sent in the course of `trace`, in order, other than
/// the wakeups for what was read.
pub open spec fn announced(config: Config, trace: Seq<Exchange>) -> Seq<Event>
    decreases trace.len(),
{
    if trace.len() == 0 {
        Seq::empty()
    } else {
        let earlier = announced(config, trace.drop_last());
        match run(config, trace.drop_last()).0.action() {
            Action::Send(event) => earlier.push(event),
            _ => earlier,
        }
    }
}

/// Whether `events` ends with the announcement of the exit and a last wakeup,
/// and has no other announcement of the exit.
pub open spec fn ends_with_exit(events: Seq<Event>) -> bool {
    &&& events.len() >= 2
    &&& events[events.len() - 2] == Event::Exit
    &&& events[events.len() - 1] == Event::Wakeup
    &&& !events.take(events.len() - 2).contains(Event::Exit)
}

/// The exit is announced exactly once, if the child exited, and the last
/// thing sent after it is a wakeup, so that the output of the child that was
/// drained before gets drawn.
pub proof fn law_exit_is_announced_last(config: Config, trace: Seq<Exchange>)
    requires
        is_run(config, trace),
    ensures
        run(config, trace).0.phase == Phase::Deregistering(StopCause::ChildExited)
            ==> ends_with_exit(announced(config, trace)),
        run(config, trace).0.phase is Finished ==> ends_with_exit(announced(config, trace))
            || !announced(config, trace).contains(Event::Exit),
{
    law_input_is_written_in_order(config, trace);
    lemma_announced(config, trace);
}

/// What was announced, phase by phase.
proof fn lemma_announced(config: Config, trace: Seq<Exchange>)
    requires
        is_run(config, trace),
    ensures
        ({
            let events = announced(config, trace);
            match run(config, trace).0.phase {
                Phase::AnnouncingWakeup => {
                    &&& events.len() >= 1
                    &&& events.last() == Event::Exit
                    &&& !events.drop_last().contains(Event::Exit)
                },
                Phase::Deregistering(StopCause::ChildExited) => ends_with_exit(events),
                Phase::Finished => ends_with_exit(events) || !events.contains(Event::Exit),
                _ => !events.contains(Event::Exit),
            }
        }),
    decreases trace.len(),
{
    if trace.len() > 0 {
        let before = trace.drop_last();
        lemma_announced(config, before);
        law_input_is_written_in_order(config, before);
        let (v, q) = run(config, before);
        let last = trace.last();
        let earlier = announced(config, before);
        let events = announced(config, trace);
        lemma_phases(v, q, last.reply, last.sync_bytes);
        if let Action::Send(event) = v.action() {
            assert(events.drop_last() =~= earlier);
            if v.phase is AnnouncingWakeup {
                assert(events.take(events.len() - 2) =~= earlier.drop_last());
                assert(events[events.len() - 2] == earlier.last());
            }
            if event != Event::Exit && !earlier.contains(Event::Exit) {
                assert(!events.contains(Event::Exit)) by {
                    if events.contains(Event::Exit) {
                        let i = events.index_of(Event::Exit);
                        assert(i < earlier.len() ==> earlier[i] == Event::Exit);
                    }
                }
            }
        }
    }
}

/// Every PTY that was registered with the poller is removed from it before
/// the loop ends.
pub proof fn law_registered_pty_is_deregistered(config: Config, trace: Seq<Exchange>)
    requires
        is_run(config, trace),
        run(config, trace).0.phase is Finished,
    ensures
        trace.len() > 0,
        trace.len() == 1 ==> trace[0].reply == Reply::Registered(false),
        trace.len() > 1 ==> run(config, trace.drop_last()).0.action() is Deregister,
{
    let before = trace.drop_last();
    law_input_is_written_in_order(config, before);
    lemma_registering_comes_first(config, before);
    let (v, q) = run(config, before);
    lemma_phases(v, q, trace.last().reply, trace.last().sync_bytes);
}

proof fn lemma_registering_comes_first(config: Config, trace: Seq<Exchange>)
    requires
        is_run(config, trace),
    ensures
        run(config, trace).0.phase is Registering <==> trace.len() == 0,
{
    if trace.len() > 0 {
        let before = trace.drop_last();
        law_input_is_written_in_order(config, before);
        let (v, q) = run(config, before);
        lemma_phases(v, q, trace.last().reply, trace.last().sync_bytes);
    }
}

/// On Linux, an I/O error while reading does not end the loop: it goes on
/// with the next event, without writing for this one. Any other error, or the
/// same one elsewhere, ends it.
pub proof fn law_hangup_is_survived_on_linux(
    v: LoopView,
    q: StateView,
    read: PtyRead,
    failure: IoFailure,
    reply: Reply,
    sync_bytes: nat,
)
    requires
        v.wf(q),
        v.phase == Phase::Reading(read),
        v.answered_by(q, reply),
        read.awaiting is Release,
        read.failure == Some(failure),
    ensures
        v.config.platform is Linux && failure.raw_os_error == Some(v.config.io_error) ==> {
            &&& v.resumed(q, reply, sync_bytes) == v.visited(q, v.at + 1)
            &&& !(v.resumed(q, reply, sync_bytes).0.action() is Deregister)
        },
        !(v.config.platform is Linux && failure.raw_os_error == Some(v.config.io_error))
            ==> v.resumed(q, reply, sync_bytes) == (
            v.enter(Phase::Deregistering(StopCause::ReadFailed)),
            q,
        ),
{
    lemma_visited(v, q, v.at + 1);
}

/// A shutdown message ends the loop at once: nothing is written, read or sent
/// any more.
pub proof fn law_shutdown_ends_the_loop(v: LoopView, q: StateView, sync_bytes: nat)
    requires
        v.wf(q),
        v.phase is Receiving,
    ensures
        ({
            let (next, left) = v.resumed(q, Reply::Received(Some(Msg::Shutdown)), sync_bytes);
            &&& left == q
            &&& next.action() == Action::Deregister(StopCause::Shutdown)
            &&& next.resumed(q, Reply::Done, sync_bytes).0.action() is Finish
            &&& next.resumed(q, Reply::Done, sync_bytes).1 == q
        }),
{
}

/// A poll that ends without events and without messages ends a synchronized
/// update, announces what it brought, and polls again; nothing else changes.
pub proof fn law_timeout_ends_synchronized_update(
    v: LoopView,
    q: StateView,
    events: Vec<PollEvent>,
    sync_bytes: nat,
)
    requires
        v.wf(q),
        v.phase is Polling,
        events@.len() == 0,
    ensures
        ({
            let (peeking, q1) = v.resumed(q, Reply::Polled(Ok(events)), sync_bytes);
            let (stopping, q2) = peeking.resumed(q1, Reply::Peeked(false), sync_bytes);
            let (waking, q3) = stopping.resumed(q2, Reply::Done, sync_bytes);
            let (polling, q4) = waking.resumed(q3, Reply::Done, sync_bytes);
            &&& peeking.action() is Peek
            &&& stopping.action() is StopSync
            &&& waking.action() == Action::Send(Event::Wakeup)
            &&& polling.action() is Poll
            &&& polling.interest == v.interest
            &&& q4 == q
        }),
{
}

/// An interrupted poll is repeated and changes nothing.
pub proof fn law_interrupted_poll_is_repeated(
    v: LoopView,
    q: StateView,
    failure: IoFailure,
    sync_bytes: nat,
)
    requires
        v.wf(q),
        v.phase is Polling,
        failure.kind is Interrupted,
    ensures
        v.resumed(q, Reply::Polled(Err(failure)), sync_bytes) == (v, q),
{
}

/// Where the child's output is drained with a single read, its end is the
/// only way on, and the exit is announced whether or not the read failed.
pub proof fn law_single_read_drains(
    v: LoopView,
    q: StateView,
    read: PtyRead,
    reply: Reply,
    sync_bytes: nat,
)
    requires
        v.wf(q),
        v.phase == Phase::FinalReading(read),
        v.answered_by(q, reply),
    ensures
        ({
            let next = v.resumed(q, reply, sync_bytes).0;
            &&& read.awaiting is Release <==> next.action() == Action::Send(Event::Exit)
            &&& !(read.awaiting is Release) ==> next.phase is FinalReading
        }),
{
}

/// Draining the child's output by the clock takes no round of reading that
/// would begin [`HARD_CAP`] or more after it started.
pub proof fn law_draining_is_capped(
    v: LoopView,
    q: StateView,
    tail: TailDrain,
    now: u128,
    sync_bytes: nat,
)
    requires
        v.wf(q),
        v.phase == Phase::TailTiming(tail),
        tail.started <= now,
    ensures
        now - tail.started >= HARD_CAP <==> v.resumed(q, Reply::Clock(now), sync_bytes).0.action()
            == Action::Send(Event::Exit),
        now - tail.started < HARD_CAP <==> v.resumed(q, Reply::Clock(now), sync_bytes).0.action()
            == Action::Read(ReadAction::Lease),
{
}

} // verus!
