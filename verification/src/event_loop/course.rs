//! What happens in the course of an event loop, told from what it asks for and
//! how that goes.

use vstd::prelude::*;

use crate::event::{ChildEvent, Event, IoFailure, WindowSize};
use crate::event_loop::laws::{
    input, is_empty_input, is_run, law_input_is_written_in_order,
    law_writability_is_watched_while_writing, law_writes_are_never_empty, leaving,
    lemma_first_actionable, lemma_phases, lemma_visited, lemma_wrote_removes_from_pending, run,
    written, Exchange,
};
use crate::event_loop::machine::{
    Action, Config, Interest, LoopView, Phase, PollEvent, Reply, StopCause,
};
use crate::event_loop::msg::Msg;
use crate::event_loop::pty_read::{
    is_round, law_no_byte_is_lost, round, PtyRead, ReadAction, ReadExchange, ReadReply,
};
use crate::event_loop::state::StateView;

verus! {

/// What the loop asks for after the answers in `trace`.
pub open spec fn doing(config: Config, trace: Seq<Exchange>) -> Action {
    run(config, trace).0.action()
}

/// Whether any buffer waits to be written.
pub open spec fn waits(q: StateView) -> bool {
    q.current is Some || q.queue.len() > 0
}

/// Whether a failed operation may be tried again later.
pub open spec fn try_again(failure: IoFailure) -> bool {
    failure.kind is Interrupted || failure.kind is WouldBlock
}

/// Whether the child was reported to be gone in the course of `trace`.
pub open spec fn exited(trace: Seq<Exchange>) -> bool
    decreases trace.len(),
{
    trace.len() > 0 && {
        ||| exited(trace.drop_last())
        ||| trace.last().reply matches Reply::Child(news) && news is Some
    }
}

/// Until the loop has ended, it is on its way out exactly if the child was
/// reported to be gone.
proof fn lemma_exited(config: Config, trace: Seq<Exchange>)
    requires
        is_run(config, trace),
    ensures
        ({
            let (v, q) = run(config, trace);
            &&& v.wf(q)
            &&& v.config == config
            &&& !(v.phase is Finished) ==> (exited(trace) <==> leaving(v.phase))
        }),
    decreases trace.len(),
{
    law_input_is_written_in_order(config, trace);
    if trace.len() > 0 {
        let before = trace.drop_last();
        lemma_exited(config, before);
        let (v, q) = run(config, before);
        lemma_phases(v, q, trace.last().reply, trace.last().sync_bytes);
    }
}

// The sizes of the PTY.

/// The sizes in the messages that were received in the course of `trace`, in
/// order.
pub open spec fn sizes_asked_for(trace: Seq<Exchange>) -> Seq<WindowSize>
    decreases trace.len(),
{
    if trace.len() == 0 {
        Seq::empty()
    } else {
        let earlier = sizes_asked_for(trace.drop_last());
        match trace.last().reply {
            Reply::Received(Some(Msg::Resize(size))) => earlier.push(size),
            _ => earlier,
        }
    }
}

/// The sizes which the PTY was given in the course of `trace`, in order.
pub open spec fn sizes_given(config: Config, trace: Seq<Exchange>) -> Seq<WindowSize>
    decreases trace.len(),
{
    if trace.len() == 0 {
        Seq::empty()
    } else {
        let earlier = sizes_given(config, trace.drop_last());
        match doing(config, trace.drop_last()) {
            Action::Resize(size) => earlier.push(size),
            _ => earlier,
        }
    }
}

/// The PTY is given every size that was asked for, in order and no other: at
/// any point these are the sizes it has been given and the one which it is
/// being given.
pub proof fn law_pty_gets_every_size(config: Config, trace: Seq<Exchange>)
    requires
        is_run(config, trace),
    ensures
        sizes_asked_for(trace) == match doing(config, trace) {
            Action::Resize(size) => sizes_given(config, trace).push(size),
            _ => sizes_given(config, trace),
        },
    decreases trace.len(),
{
    if trace.len() > 0 {
        let before = trace.drop_last();
        law_pty_gets_every_size(config, before);
        law_input_is_written_in_order(config, before);
        let (v, q) = run(config, before);
        lemma_no_visit_resizes(v, q, trace.last().reply, trace.last().sync_bytes);
    }
}

/// Only a message leads to giving the PTY another size.
proof fn lemma_no_visit_resizes(v: LoopView, q: StateView, reply: Reply, sync_bytes: nat)
    requires
        v.wf(q),
        v.answered_by(q, reply),
    ensures
        ({
            let next = v.resumed(q, reply, sync_bytes).0;
            match reply {
                Reply::Received(Some(Msg::Resize(size))) => next.phase == Phase::Resizing(size),
                _ => !(next.phase is Resizing),
            }
        }),
{
    match v.phase {
        Phase::Receiving => {
            lemma_visited(v, q, 0);
        },
        Phase::AwaitingChild => {
            lemma_visited(v, q, v.at + 1);
        },
        Phase::Reading(_) => {
            lemma_visited(v, q, v.at + 1);
        },
        Phase::Writing => {
            lemma_visited(v, q, v.at + 1);
            if let Reply::Written(Ok(n)) = reply {
                lemma_wrote_removes_from_pending(q, n as nat);
                lemma_visited(v, q.wrote(n as nat), v.at + 1);
            }
        },
        _ => {},
    }
}

// The output of the child.

/// Whether `data` are the bytes that the reads in `trace` put into the buffer:
/// as many as each read says, and none for any other answer.
pub open spec fn is_delivery(trace: Seq<Exchange>, data: Seq<Seq<u8>>) -> bool {
    &&& data.len() == trace.len()
    &&& forall|i: int|
        0 <= i < trace.len() ==> (#[trigger] data[i]).len() == match trace[i].reply {
            Reply::Read(ReadReply::Read(Ok(got))) => got as nat,
            _ => 0,
        }
}

proof fn lemma_delivery(trace: Seq<Exchange>, data: Seq<Seq<u8>>)
    requires
        is_delivery(trace, data),
        trace.len() > 0,
    ensures
        is_delivery(trace.drop_last(), data.drop_last()),
        data.last().len() == match trace.last().reply {
            Reply::Read(ReadReply::Read(Ok(got))) => got as nat,
            _ => 0,
        },
{
    assert(data[data.len() - 1] == data.last());
    assert forall|i: int| 0 <= i < trace.drop_last().len() implies (
    #[trigger] data.drop_last()[i]).len() == match trace.drop_last()[i].reply {
        Reply::Read(ReadReply::Read(Ok(got))) => got as nat,
        _ => 0,
    } by {
        assert(data.drop_last()[i] == data[i]);
    }
}

/// The answers about reading since the lock was last given up.
pub open spec fn reads(config: Config, trace: Seq<Exchange>, data: Seq<Seq<u8>>) -> Seq<
    ReadExchange,
>
    decreases trace.len(),
{
    if trace.len() == 0 {
        Seq::empty()
    } else {
        let earlier = reads(config, trace.drop_last(), data.drop_last());
        match doing(config, trace.drop_last()) {
            Action::Read(ReadAction::Release { .. }) => Seq::empty(),
            Action::Read(_) => earlier.push(
                ReadExchange {
                    reply: trace.last().reply->Read_0,
                    data: data.last(),
                    sync_bytes: trace.last().sync_bytes,
                },
            ),
            _ => earlier,
        }
    }
}

/// Where the current round of reading stands, if there is one.
spec fn reading(phase: Phase) -> Option<PtyRead> {
    match phase {
        Phase::Reading(read) => Some(read),
        Phase::FinalReading(read) => Some(read),
        Phase::TailReading(_, _, read) => Some(read),
        _ => None,
    }
}

/// One step of the loop begins a round, takes the next step of one, or ends
/// it.
proof fn lemma_reading(v: LoopView, q: StateView, reply: Reply, sync_bytes: nat)
    requires
        v.wf(q),
        v.answered_by(q, reply),
    ensures
        ({
            let next = reading(v.resumed(q, reply, sync_bytes).0.phase);
            match reading(v.phase) {
                Some(read) => if read.awaiting is Release {
                    next is None || next == Some(PtyRead::initial())
                } else {
                    &&& reply is Read
                    &&& read.answered_by(reply->Read_0)
                    &&& next == Some(read.resumed(reply->Read_0, sync_bytes))
                },
                None => next is None || next == Some(PtyRead::initial()),
            }
        }),
{
    match v.phase {
        Phase::Receiving => {
            lemma_visited(v, q, 0);
        },
        Phase::AwaitingChild => {
            lemma_visited(v, q, v.at + 1);
        },
        Phase::Reading(_) => {
            lemma_visited(v, q, v.at + 1);
        },
        Phase::Writing => {
            lemma_visited(v, q, v.at + 1);
            if let Reply::Written(Ok(n)) = reply {
                lemma_wrote_removes_from_pending(q, n as nat);
                lemma_visited(v, q.wrote(n as nat), v.at + 1);
            }
        },
        _ => {},
    }
}

/// What the loop asks for to read, whether for an event or to drain the
/// child's output, are complete rounds of reading, each from its beginning:
/// everything that holds of a round holds of the loop's own reads.
pub proof fn law_reads_form_rounds(config: Config, trace: Seq<Exchange>, data: Seq<Seq<u8>>)
    requires
        is_run(config, trace),
        is_delivery(trace, data),
    ensures
        is_round(reads(config, trace, data)),
        match doing(config, trace) {
            Action::Read(action) => action == round(reads(config, trace, data)).awaiting,
            _ => reads(config, trace, data).len() == 0,
        },
{
    lemma_reads(config, trace, data);
    lemma_asked_for(run(config, trace).0);
}

/// The loop asks for something to read with exactly while a round goes on.
proof fn lemma_asked_for(v: LoopView)
    ensures
        match v.action() {
            Action::Read(action) => reading(v.phase) matches Some(read) && read.awaiting == action,
            _ => reading(v.phase) is None,
        },
{
}

proof fn lemma_reads(config: Config, trace: Seq<Exchange>, data: Seq<Seq<u8>>)
    requires
        is_run(config, trace),
        is_delivery(trace, data),
    ensures
        is_round(reads(config, trace, data)),
        match reading(run(config, trace).0.phase) {
            Some(read) => read == round(reads(config, trace, data)),
            None => reads(config, trace, data).len() == 0,
        },
    decreases trace.len(),
{
    if trace.len() > 0 {
        let before = trace.drop_last();
        lemma_delivery(trace, data);
        lemma_reads(config, before, data.drop_last());
        law_input_is_written_in_order(config, before);
        let (v, q) = run(config, before);
        let last = trace.last();
        lemma_reading(v, q, last.reply, last.sync_bytes);
        lemma_asked_for(v);
        let earlier = reads(config, before, data.drop_last());
        if reading(v.phase) is Some && !(round(earlier).awaiting is Release) {
            assert(reads(config, trace, data).drop_last() =~= earlier);
        }
    }
}

/// How the answers about reading grow.
proof fn lemma_next_reads(config: Config, trace: Seq<Exchange>, data: Seq<Seq<u8>>)
    requires
        is_run(config, trace),
        is_delivery(trace, data),
        trace.len() > 0,
    ensures
        ({
            let before = trace.drop_last();
            let earlier = round(reads(config, before, data.drop_last()));
            let now = round(reads(config, trace, data));
            let reply = trace.last().reply;
            if doing(config, before) is Read && !(earlier.awaiting is Release) {
                &&& reply is Read
                &&& earlier.answered_by(reply->Read_0)
                &&& now == earlier.resumed(reply->Read_0, trace.last().sync_bytes)
            } else {
                now == PtyRead::initial()
            }
        }),
{
    let before = trace.drop_last();
    lemma_delivery(trace, data);
    lemma_reads(config, before, data.drop_last());
    law_input_is_written_in_order(config, before);
    let (v, q) = run(config, before);
    let last = trace.last();
    lemma_reading(v, q, last.reply, last.sync_bytes);
    lemma_asked_for(v);
    let earlier = reads(config, before, data.drop_last());
    if reading(v.phase) is Some && !(round(earlier).awaiting is Release) {
        assert(reads(config, trace, data).drop_last() =~= earlier);
    }
}

/// The bytes which the child's output has gone through.
pub struct Output {
    /// The read buffer.
    pub memory: Seq<u8>,
    /// Every byte that the PTY delivered, in order, but for those which were
    /// not parsed when reading failed for good.
    pub delivered: Seq<u8>,
    /// Every byte that was handed to the parser, in order.
    pub parsed: Seq<u8>,
}

/// `memory` with `bytes` written over it at `offset`.
pub open spec fn overwritten(memory: Seq<u8>, offset: int, bytes: Seq<u8>) -> Seq<u8> {
    memory.take(offset) + bytes + memory.skip(offset + bytes.len())
}

impl Output {
    /// Nothing was delivered yet.
    pub open spec fn initial() -> Output {
        Output {
            memory: Seq::new(0x10_0000, |i: int| 0u8),
            delivered: Seq::empty(),
            parsed: Seq::empty(),
        }
    }

    /// The output after one more step: a read puts `data` into the buffer where
    /// the loop asked for it, and the parser gets what the loop asks for from
    /// the front of the buffer.
    pub open spec fn after(self, action: Action, reply: Reply, data: Seq<u8>) -> Output {
        match (action, reply) {
            (
                Action::Read(ReadAction::Read { offset, .. }),
                Reply::Read(ReadReply::Read(Ok(_))),
            ) => Output {
                memory: overwritten(self.memory, offset as int, data),
                delivered: self.delivered + data,
                ..self
            },
            (
                Action::Read(ReadAction::Read { .. }),
                Reply::Read(ReadReply::Read(Err(failure))),
            ) => if try_again(failure) {
                self
            } else {
                Output { delivered: self.parsed, ..self }
            },
            (Action::Read(ReadAction::Parse { len }), _) => Output {
                parsed: self.parsed + self.memory.take(len as int),
                ..self
            },
            _ => self,
        }
    }

    /// Whether `waiting` bytes at the front of the buffer are what was
    /// delivered but not parsed.
    spec fn has_waiting(self, waiting: int) -> bool {
        &&& self.memory.len() == 0x10_0000
        &&& self.delivered == self.parsed + self.memory.take(waiting)
    }
}

/// The child's output after the answers in `trace`.
pub open spec fn output(config: Config, trace: Seq<Exchange>, data: Seq<Seq<u8>>) -> Output
    decreases trace.len(),
{
    if trace.len() == 0 {
        Output::initial()
    } else {
        output(config, trace.drop_last(), data.drop_last()).after(
            doing(config, trace.drop_last()),
            trace.last().reply,
            data.last(),
        )
    }
}

/// Every byte of the child's output is parsed exactly once and in order, in
/// every course of the loop: what was delivered but not parsed yet lies at the
/// front of the buffer, and nothing of it is left once the loop gives up the
/// lock or turns to anything but reading.
pub proof fn law_output_is_parsed_in_order(
    config: Config,
    trace: Seq<Exchange>,
    data: Seq<Seq<u8>>,
)
    requires
        is_run(config, trace),
        is_delivery(trace, data),
    ensures
        ({
            let out = output(config, trace, data);
            let waiting = out.delivered.len() - out.parsed.len();
            &&& 0 <= waiting <= out.memory.len()
            &&& out.delivered == out.parsed + out.memory.take(waiting)
            &&& match doing(config, trace) {
                Action::Read(ReadAction::Read { offset, .. }) => offset == waiting,
                Action::Read(ReadAction::TryLock) => waiting > 0,
                Action::Read(ReadAction::Lock) => waiting == 0x10_0000,
                Action::Read(ReadAction::Parse { len }) => len == waiting && waiting > 0,
                _ => out.parsed == out.delivered,
            }
        }),
{
    lemma_output(config, trace, data);
    lemma_reads(config, trace, data);
    law_no_byte_is_lost(reads(config, trace, data));
    lemma_waiting(
        run(config, trace).0,
        round(reads(config, trace, data)),
        output(config, trace, data),
    );
}

/// The bytes in the buffer which a round still has to parse.
spec fn unparsed(read: PtyRead) -> int {
    if read.failure is Some {
        0
    } else {
        read.unprocessed as int
    }
}

proof fn lemma_waiting(v: LoopView, read: PtyRead, out: Output)
    requires
        reading(v.phase) matches Some(reading) ==> reading == read,
        reading(v.phase) is None ==> read == PtyRead::initial(),
        read.wf(),
        out.has_waiting(unparsed(read)),
    ensures
        ({
            let waiting = out.delivered.len() - out.parsed.len();
            &&& 0 <= waiting <= out.memory.len()
            &&& out.delivered == out.parsed + out.memory.take(waiting)
            &&& match v.action() {
                Action::Read(ReadAction::Read { offset, .. }) => offset == waiting,
                Action::Read(ReadAction::TryLock) => waiting > 0,
                Action::Read(ReadAction::Lock) => waiting == 0x10_0000,
                Action::Read(ReadAction::Parse { len }) => len == waiting && waiting > 0,
                _ => out.parsed == out.delivered,
            }
        }),
{
    lemma_asked_for(v);
    assert(out.delivered.len() == out.parsed.len() + unparsed(read));
    assert(out.parsed + out.memory.take(0) =~= out.parsed);
}

/// One step of a round keeps count of what waits in the buffer.
proof fn lemma_output_step(read: PtyRead, out: Output, answer: ReadReply, sync: nat, data: Seq<u8>)
    requires
        read.wf(),
        !(read.awaiting is Release),
        read.answered_by(answer),
        data.len() == match answer {
            ReadReply::Read(Ok(got)) => got as nat,
            _ => 0,
        },
        out.has_waiting(unparsed(read)),
    ensures
        out.after(Action::Read(read.awaiting), Reply::Read(answer), data).has_waiting(
            unparsed(read.resumed(answer, sync)),
        ),
{
    let after = out.after(Action::Read(read.awaiting), Reply::Read(answer), data);
    match (read.awaiting, answer) {
        (ReadAction::Read { offset, .. }, ReadReply::Read(Ok(got))) => {
            assert(after.memory.take(offset + got) =~= out.memory.take(offset as int) + data);
            assert(after.delivered =~= after.parsed + after.memory.take(offset + got));
        },
        _ => {
            assert(after.parsed + after.memory.take(0) =~= after.parsed);
        },
    }
}

/// The bytes that wait in the buffer are those which the current round counts.
proof fn lemma_output(config: Config, trace: Seq<Exchange>, data: Seq<Seq<u8>>)
    requires
        is_run(config, trace),
        is_delivery(trace, data),
    ensures
        output(config, trace, data).has_waiting(unparsed(round(reads(config, trace, data)))),
    decreases trace.len(),
{
    if trace.len() > 0 {
        let before = trace.drop_last();
        lemma_delivery(trace, data);
        lemma_output(config, before, data.drop_last());
        lemma_reads(config, before, data.drop_last());
        let v = run(config, before).0;
        let earlier = reads(config, before, data.drop_last());
        law_no_byte_is_lost(earlier);
        lemma_asked_for(v);
        lemma_next_reads(config, trace, data);
        if reading(v.phase) is Some && !(round(earlier).awaiting is Release) {
            lemma_output_step(
                round(earlier),
                output(config, before, data.drop_last()),
                trace.last().reply->Read_0,
                trace.last().sync_bytes,
                data.last(),
            );
        } else {
            let out = output(config, trace, data);
            assert(out.parsed + out.memory.take(0) =~= out.parsed);
        }
    } else {
        let out = output(config, trace, data);
        assert(out.parsed + out.memory.take(0) =~= out.delivered);
    }
}

// The events of a poll.

/// Whether there is anything to do about `event`, given whether anything waits
/// to be written.
pub open spec fn has_work(config: Config, event: PollEvent, waiting: bool) -> bool {
    if event.key == config.child_token {
        true
    } else if event.key == config.read_write_token && !event.interrupt {
        event.readable || event.writable && waiting
    } else {
        false
    }
}

/// Whether the loop went on from the event `from`: to the first one from there
/// on about which there is anything to do, or to the next poll if there is
/// none. The child is asked for, or the PTY is read from before it is written
/// to.
pub open spec fn went_on(config: Config, from: nat, v: LoopView, q: StateView) -> bool {
    &&& from <= v.at <= v.events.len()
    &&& forall|i: int|
        from <= i < v.at ==> !has_work(config, #[trigger] v.events[i], waits(q))
    &&& if v.at == v.events.len() {
        v.action() is Poll || v.action() is Reregister
    } else {
        let event = v.events[v.at as int];
        &&& has_work(config, event, waits(q))
        &&& if event.key == config.child_token {
            v.action() is NextChildEvent
        } else if event.readable {
            v.action() == Action::Read(ReadAction::Lease)
        } else {
            v.action() is Write
        }
    }
}

proof fn lemma_went_on(v: LoopView, q: StateView, from: nat)
    requires
        q.wf(),
        from <= v.events.len(),
    ensures
        went_on(v.config, from, v.visited(q, from).0, v.visited(q, from).1),
        v.visited(q, from).0.events == v.events,
        waits(v.visited(q, from).1) == waits(q),
{
    lemma_first_actionable(v, q, from);
    let (next, left) = v.visited(q, from);
    assert forall|i: int| from <= i < next.at implies !has_work(
        v.config,
        #[trigger] next.events[i],
        waits(left),
    ) by {
        assert(!v.actionable(v.events[i], q));
    }
}

/// Whether one step of the loop handles the events as it should, `outcome`
/// being what the current round of reading returns.
spec fn handles_events(
    before: (LoopView, StateView),
    reply: Reply,
    outcome: Result<usize, IoFailure>,
    leaves: bool,
    after: (LoopView, StateView),
) -> bool {
    let (v, q) = before;
    let (next, left) = after;
    let config = v.config;
    let event = v.events[v.at as int];
    match (v.action(), reply) {
        (Action::Poll, Reply::Polled(Ok(events))) => next.events == events@,
        (Action::Receive, Reply::Received(None)) => {
            &&& next.events == v.events
            &&& went_on(config, 0, next, left)
        },
        (Action::NextChildEvent, Reply::Child(None)) => {
            &&& next.events == v.events
            &&& went_on(config, v.at + 1, next, left)
        },
        (Action::Read(ReadAction::Release { .. }), _) => if leaves {
            next.events == v.events && next.at == v.at
        } else {
            &&& next.events == v.events
            &&& match outcome {
                Ok(_) => if event.writable && waits(q) {
                    next.at == v.at && next.action() is Write
                } else {
                    went_on(config, v.at + 1, next, left)
                },
                Err(failure) => if config.platform is Linux && failure.raw_os_error == Some(
                    config.io_error,
                ) {
                    went_on(config, v.at + 1, next, left)
                } else {
                    next.action() == Action::Deregister(StopCause::ReadFailed)
                },
            }
        },
        (Action::Write, Reply::Written(Ok(n))) => {
            &&& next.events == v.events
            &&& if n > 0 && waits(left) {
                next.at == v.at && next.action() is Write
            } else {
                went_on(config, v.at + 1, next, left)
            }
        },
        (Action::Write, Reply::Written(Err(failure))) => {
            &&& next.events == v.events
            &&& if try_again(failure) {
                went_on(config, v.at + 1, next, left)
            } else {
                next.action() == Action::Deregister(StopCause::WriteFailed)
            }
        },
        _ => next.events == v.events && next.at == v.at,
    }
}

proof fn lemma_handles_events(v: LoopView, q: StateView, reply: Reply, sync_bytes: nat)
    requires
        v.wf(q),
        v.answered_by(q, reply),
    ensures
        handles_events(
            (v, q),
            reply,
            match reading(v.phase) {
                Some(read) => read.result(),
                None => Ok(0),
            },
            leaving(v.phase),
            v.resumed(q, reply, sync_bytes),
        ),
{
    match v.phase {
        Phase::Receiving => {
            lemma_went_on(v, q, 0);
        },
        Phase::AwaitingChild => {
            lemma_went_on(v, q, v.at + 1);
        },
        Phase::Reading(_) => {
            lemma_went_on(v, q, v.at + 1);
        },
        Phase::Writing => {
            lemma_went_on(v, q, v.at + 1);
            if let Reply::Written(Ok(n)) = reply {
                lemma_wrote_removes_from_pending(q, n as nat);
                lemma_went_on(v, q.wrote(n as nat), v.at + 1);
            }
        },
        _ => {},
    }
}

/// The events which the last poll returned.
pub open spec fn polled_events(trace: Seq<Exchange>) -> Seq<PollEvent>
    decreases trace.len(),
{
    if trace.len() == 0 {
        Seq::empty()
    } else {
        match trace.last().reply {
            Reply::Polled(Ok(events)) => events@,
            _ => polled_events(trace.drop_last()),
        }
    }
}

/// Every event of a poll is handled, in order, before the loop polls again.
///
/// Handling begins with the first event once all messages are received. The
/// handling of an event is over when the child turned out to live, when a read
/// ended and nothing is to be written for the same event, when the PTY hung up
/// on Linux, or when the PTY takes no more bytes or none are left. The loop
/// goes on behind that event then, and passes over no event about which there
/// is anything to do. Until then it stays with the event: what was read for is
/// also written for, and writing goes on for as long as the PTY takes bytes.
/// Other errors end the loop.
pub proof fn law_every_event_is_handled(config: Config, trace: Seq<Exchange>, data: Seq<Seq<u8>>)
    requires
        is_run(config, trace),
        is_delivery(trace, data),
        trace.len() > 0,
    ensures
        ({
            let before = trace.drop_last();
            let (v, q) = run(config, before);
            let (next, left) = run(config, trace);
            let event = v.events[v.at as int];
            &&& next.events == polled_events(trace)
            &&& match (v.action(), trace.last().reply) {
                (Action::Poll, Reply::Polled(Ok(_))) => true,
                (Action::Receive, Reply::Received(None)) => went_on(config, 0, next, left),
                (Action::NextChildEvent, Reply::Child(None)) => went_on(
                    config,
                    v.at + 1,
                    next,
                    left,
                ),
                (Action::Read(ReadAction::Release { .. }), _) => exited(before) || match round(
                    reads(config, before, data.drop_last()),
                ).result() {
                    Ok(_) => if event.writable && waits(q) {
                        next.at == v.at && next.action() is Write
                    } else {
                        went_on(config, v.at + 1, next, left)
                    },
                    Err(failure) => if config.platform is Linux && failure.raw_os_error == Some(
                        config.io_error,
                    ) {
                        went_on(config, v.at + 1, next, left)
                    } else {
                        next.action() == Action::Deregister(StopCause::ReadFailed)
                    },
                },
                (Action::Write, Reply::Written(Ok(n))) => if n > 0 && waits(left) {
                    next.at == v.at && next.action() is Write
                } else {
                    went_on(config, v.at + 1, next, left)
                },
                (Action::Write, Reply::Written(Err(failure))) => if try_again(failure) {
                    went_on(config, v.at + 1, next, left)
                } else {
                    next.action() == Action::Deregister(StopCause::WriteFailed)
                },
                _ => next.at == v.at,
            }
        }),
    decreases trace.len(),
{
    let before = trace.drop_last();
    lemma_delivery(trace, data);
    lemma_polled_events(config, trace);
    lemma_exited(config, before);
    lemma_reads(config, before, data.drop_last());
    let (v, q) = run(config, before);
    lemma_asked_for(v);
    lemma_handles_events(v, q, trace.last().reply, trace.last().sync_bytes);
}

proof fn lemma_polled_events(config: Config, trace: Seq<Exchange>)
    requires
        is_run(config, trace),
    ensures
        run(config, trace).0.events == polled_events(trace),
    decreases trace.len(),
{
    if trace.len() > 0 {
        let before = trace.drop_last();
        lemma_polled_events(config, before);
        lemma_exited(config, before);
        let (v, q) = run(config, before);
        lemma_handles_events(v, q, trace.last().reply, trace.last().sync_bytes);
    }
}

// What follows what.

/// A loop registers the PTY for reading first. If that fails, it ends;
/// otherwise it creates the recording if asked to, and polls.
pub proof fn law_loop_starts_with_registering(config: Config, trace: Seq<Exchange>)
    requires
        is_run(config, trace),
    ensures
        trace.len() == 0 <==> doing(config, trace) is Register,
        trace.len() == 0 ==> doing(config, trace) == Action::Register(
            Interest { readable: true, writable: false },
        ),
        trace.len() == 1 ==> doing(config, trace) == if trace[0].reply == Reply::Registered(false) {
            Action::Finish
        } else if config.ref_test {
            Action::CreateRecording
        } else {
            Action::Poll
        },
        trace.len() > 0 && doing(config, trace.drop_last()) is CreateRecording ==> doing(
            config,
            trace,
        ) is Poll,
        doing(config, trace) is CreateRecording ==> trace.len() == 1,
    decreases trace.len(),
{
    if trace.len() > 0 {
        let before = trace.drop_last();
        law_input_is_written_in_order(config, before);
        let (v, q) = run(config, before);
        lemma_phases(v, q, trace.last().reply, trace.last().sync_bytes);
        lemma_recording_comes_once(v, q, trace.last().reply, trace.last().sync_bytes);
        law_loop_starts_with_registering(config, before);
    }
}

proof fn lemma_recording_comes_once(v: LoopView, q: StateView, reply: Reply, sync_bytes: nat)
    requires
        v.wf(q),
        v.answered_by(q, reply),
    ensures
        v.resumed(q, reply, sync_bytes).0.phase is CreatingRecording ==> v.phase is Registering,
{
    match v.phase {
        Phase::Receiving => {
            lemma_visited(v, q, 0);
        },
        Phase::AwaitingChild => {
            lemma_visited(v, q, v.at + 1);
        },
        Phase::Reading(_) => {
            lemma_visited(v, q, v.at + 1);
        },
        Phase::Writing => {
            lemma_visited(v, q, v.at + 1);
            if let Reply::Written(Ok(n)) = reply {
                lemma_wrote_removes_from_pending(q, n as nat);
                lemma_visited(v, q.wrote(n as nat), v.at + 1);
            }
        },
        _ => {},
    }
}

/// What follows a poll. With events, or with messages waiting, all messages
/// are received; with neither, a synchronized update is ended and what it
/// brought is announced. An interrupted poll is repeated, and any other error
/// ends the loop. The loop polls again once the PTY is registered anew.
pub proof fn law_polling(config: Config, trace: Seq<Exchange>)
    requires
        is_run(config, trace),
        trace.len() > 0,
    ensures
        ({
            let next = doing(config, trace);
            match (doing(config, trace.drop_last()), trace.last().reply) {
                (Action::Poll, Reply::Polled(Ok(events))) => if events@.len() > 0 {
                    next is Receive
                } else {
                    next is Peek
                },
                (Action::Poll, Reply::Polled(Err(failure))) => if failure.kind is Interrupted {
                    next is Poll
                } else {
                    next == Action::Deregister(StopCause::PollFailed)
                },
                (Action::Peek, Reply::Peeked(waiting)) => if waiting {
                    next is Receive
                } else {
                    next is StopSync
                },
                (Action::StopSync, _) => next == Action::Send(Event::Wakeup),
                (Action::Send(Event::Wakeup), _) => exited(trace.drop_last()) || next is Poll,
                (Action::Reregister(_), _) => next is Poll,
                _ => true,
            }
        }),
{
    let before = trace.drop_last();
    lemma_exited(config, before);
    let (v, q) = run(config, before);
    lemma_follows(v, q, trace.last().reply, trace.last().sync_bytes);
}

/// What follows a message. Input is kept for writing and the next message is
/// received; so it is after the PTY got a new size. A shutdown ends the loop.
/// What waits to be written is not touched by anything but input.
pub proof fn law_receiving(config: Config, trace: Seq<Exchange>)
    requires
        is_run(config, trace),
        trace.len() > 0,
    ensures
        ({
            let q = run(config, trace.drop_last()).1;
            let left = run(config, trace).1;
            let next = doing(config, trace);
            match (doing(config, trace.drop_last()), trace.last().reply) {
                (Action::Receive, Reply::Received(Some(Msg::Input(bytes)))) => {
                    &&& next is Receive
                    &&& left.current == q.current
                    &&& left.queue == q.queue.push(bytes@)
                },
                (Action::Receive, Reply::Received(Some(Msg::Resize(size)))) => {
                    &&& next == Action::Resize(size)
                    &&& left == q
                },
                (Action::Receive, Reply::Received(Some(Msg::Shutdown))) => {
                    &&& next == Action::Deregister(StopCause::Shutdown)
                    &&& left == q
                },
                (Action::Resize(_), _) => next is Receive && left == q,
                _ => true,
            }
        }),
{
    let before = trace.drop_last();
    law_input_is_written_in_order(config, before);
    let (v, q) = run(config, before);
    lemma_follows(v, q, trace.last().reply, trace.last().sync_bytes);
}

/// What follows the exit of the child. Its code is announced where it is
/// known. If asked to, the loop drains the child's output next: by the clock
/// on Windows, and with a single round of reading elsewhere, whatever comes of
/// it. Then it announces the exit, wakes the terminal up, removes the PTY from
/// the poller and ends. Nothing is written any more.
pub proof fn law_leaving(config: Config, trace: Seq<Exchange>)
    requires
        is_run(config, trace),
        trace.len() > 0,
    ensures
        ({
            let left = run(config, trace).1;
            let next = doing(config, trace);
            let leaves = if !config.drain_on_exit {
                next == Action::Send(Event::Exit)
            } else if config.platform is Windows {
                next is Clock
            } else {
                next == Action::Read(ReadAction::Lease)
            };
            &&& exited(trace) ==> left == run(config, trace.drop_last()).1
            &&& match (doing(config, trace.drop_last()), trace.last().reply) {
                (Action::NextChildEvent, Reply::Child(Some(ChildEvent::Exited(Some(code))))) => next
                    == Action::Send(Event::ChildExit(code)),
                (Action::NextChildEvent, Reply::Child(Some(ChildEvent::Exited(None)))) => leaves,
                (Action::Send(Event::ChildExit(_)), _) => leaves,
                (Action::Read(ReadAction::Release { .. }), _) => exited(trace)
                    && !(config.platform is Windows) ==> next == Action::Send(Event::Exit),
                (Action::Send(Event::Exit), _) => next == Action::Send(Event::Wakeup),
                (Action::Send(Event::Wakeup), _) => exited(trace) ==> next == Action::Deregister(
                    StopCause::ChildExited,
                ),
                (Action::Deregister(_), _) => next is Finish,
                _ => true,
            }
        }),
{
    let before = trace.drop_last();
    lemma_exited(config, before);
    lemma_drains(config, before);
    let (v, q) = run(config, before);
    lemma_phases(v, q, trace.last().reply, trace.last().sync_bytes);
    lemma_follows(v, q, trace.last().reply, trace.last().sync_bytes);
}

/// What one step leads to, phase by phase.
proof fn lemma_follows(v: LoopView, q: StateView, reply: Reply, sync_bytes: nat)
    requires
        v.wf(q),
        v.answered_by(q, reply),
    ensures
        ({
            let (next, left) = v.resumed(q, reply, sync_bytes);
            let leaves = if !v.config.drain_on_exit {
                next.action() == Action::Send(Event::Exit)
            } else if v.config.platform is Windows {
                next.action() is Clock
            } else {
                next.action() == Action::Read(ReadAction::Lease)
            };
            &&& leaving(v.phase) ==> left == q
            &&& match (v.phase, reply) {
                (Phase::Polling, Reply::Polled(Ok(events))) => if events@.len() > 0 {
                    next.action() is Receive
                } else {
                    next.action() is Peek
                },
                (Phase::Polling, Reply::Polled(Err(failure))) => if failure.kind is Interrupted {
                    next.action() is Poll
                } else {
                    next.action() == Action::Deregister(StopCause::PollFailed)
                },
                (Phase::Peeking, Reply::Peeked(waiting)) => if waiting {
                    next.action() is Receive
                } else {
                    next.action() is StopSync
                },
                (Phase::StoppingSync, _) => next.action() == Action::Send(Event::Wakeup),
                (Phase::WakingUp, _) => next.action() is Poll,
                (Phase::Reregistering, _) => next.action() is Poll,
                (Phase::Receiving, Reply::Received(Some(Msg::Input(bytes)))) => {
                    &&& next.action() is Receive
                    &&& left.current == q.current
                    &&& left.queue == q.queue.push(bytes@)
                },
                (Phase::Receiving, Reply::Received(Some(Msg::Resize(size)))) => {
                    next.action() == Action::Resize(size) && left == q
                },
                (Phase::Receiving, Reply::Received(Some(Msg::Shutdown))) => {
                    next.action() == Action::Deregister(StopCause::Shutdown) && left == q
                },
                (Phase::Resizing(_), _) => next.action() is Receive && left == q,
                (Phase::AwaitingChild, Reply::Child(Some(ChildEvent::Exited(code)))) => {
                    &&& left == q
                    &&& match code {
                        Some(code) => next.action() == Action::Send(Event::ChildExit(code)),
                        None => leaves,
                    }
                },
                (Phase::AnnouncingChild(_), _) => leaves,
                (Phase::FinalReading(read), _) => read.awaiting is Release ==> next.action()
                    == Action::Send(Event::Exit),
                (Phase::AnnouncingExit, _) => next.action() == Action::Send(Event::Wakeup),
                (Phase::AnnouncingWakeup, _) => next.action() == Action::Deregister(
                    StopCause::ChildExited,
                ),
                (Phase::Deregistering(_), _) => next.action() is Finish,
                _ => true,
            }
        }),
{
}

// Draining the child's output by the clock.

/// What the clock showed while the child's output was drained.
pub struct Draining {
    /// When it began.
    pub started: Option<u128>,
    /// When the current round of reading began.
    pub now: u128,
    /// When the last round with output began, or else when the draining did.
    pub last_output: u128,
}

impl Draining {
    pub open spec fn after(self, action: Action, reply: Reply) -> Draining {
        match (action, reply) {
            (Action::Clock, Reply::Clock(time)) => if self.started is None {
                Draining { started: Some(time), now: time, last_output: time }
            } else {
                Draining { now: time, ..self }
            },
            (Action::Read(ReadAction::Parse { .. }), _) => Draining {
                last_output: self.now,
                ..self
            },
            _ => self,
        }
    }
}

/// The draining after the answers in `trace`. The clock is first looked at when
/// it begins, and then before each round.
pub open spec fn draining(config: Config, trace: Seq<Exchange>) -> Draining
    decreases trace.len(),
{
    if trace.len() == 0 {
        Draining { started: None, now: 0, last_output: 0 }
    } else {
        draining(config, trace.drop_last()).after(
            doing(config, trace.drop_last()),
            trace.last().reply,
        )
    }
}

/// What a phase says of the draining.
spec fn drains(v: LoopView, draining: Draining) -> bool {
    match v.phase {
        Phase::TailTiming(tail) => {
            &&& v.config.platform is Windows
            &&& draining.started == Some(tail.started)
            &&& draining.last_output == tail.last_data
        },
        Phase::TailPausing(tail) => {
            &&& v.config.platform is Windows
            &&& draining.started == Some(tail.started)
            &&& draining.last_output == tail.last_data
        },
        Phase::TailReading(tail, now, read) => {
            &&& v.config.platform is Windows
            &&& draining.started == Some(tail.started)
            &&& draining.now == now
            &&& draining.last_output == if read.processed > 0 {
                now
            } else {
                tail.last_data
            }
        },
        Phase::FinalReading(_) => !(v.config.platform is Windows) && draining.started is None,
        Phase::TailStarting => v.config.platform is Windows && draining.started is None,
        Phase::AnnouncingExit => true,
        Phase::AnnouncingWakeup => true,
        Phase::Deregistering(_) => true,
        Phase::Finished => true,
        _ => draining.started is None,
    }
}

proof fn lemma_drains_step(
    v: LoopView,
    q: StateView,
    reply: Reply,
    sync_bytes: nat,
    draining: Draining,
)
    requires
        v.wf(q),
        v.answered_by(q, reply),
        drains(v, draining),
    ensures
        drains(v.resumed(q, reply, sync_bytes).0, draining.after(v.action(), reply)),
{
    match v.phase {
        Phase::Receiving => {
            lemma_visited(v, q, 0);
        },
        Phase::AwaitingChild => {
            lemma_visited(v, q, v.at + 1);
        },
        Phase::Reading(_) => {
            lemma_visited(v, q, v.at + 1);
        },
        Phase::Writing => {
            lemma_visited(v, q, v.at + 1);
            if let Reply::Written(Ok(n)) = reply {
                lemma_wrote_removes_from_pending(q, n as nat);
                lemma_visited(v, q.wrote(n as nat), v.at + 1);
            }
        },
        _ => {},
    }
}

proof fn lemma_drains(config: Config, trace: Seq<Exchange>)
    requires
        is_run(config, trace),
    ensures
        drains(run(config, trace).0, draining(config, trace)),
    decreases trace.len(),
{
    if trace.len() > 0 {
        let before = trace.drop_last();
        lemma_drains(config, before);
        law_input_is_written_in_order(config, before);
        let (v, q) = run(config, before);
        lemma_drains_step(
            v,
            q,
            trace.last().reply,
            trace.last().sync_bytes,
            draining(config, before),
        );
    }
}

/// Where the child's output is drained by the clock, a round without output
/// ends the draining only after 50 ms of silence, which count from its
/// beginning and anew from each round with output; before that, the loop
/// pauses and looks again. A round with output is followed by another one at
/// once. A failed round ends the draining, and no round begins 60 s or more
/// after its beginning.
pub proof fn law_output_is_drained_until_silence(
    config: Config,
    trace: Seq<Exchange>,
    data: Seq<Seq<u8>>,
)
    requires
        is_run(config, trace),
        is_delivery(trace, data),
        trace.len() > 0,
    ensures
        ({
            let before = trace.drop_last();
            let clock = draining(config, before);
            let next = doing(config, trace);
            match (doing(config, before), trace.last().reply) {
                (Action::Clock, Reply::Clock(time)) => match clock.started {
                    None => next is Clock,
                    Some(started) => if time >= started + 60_000_000_000 {
                        next == Action::Send(Event::Exit)
                    } else {
                        next == Action::Read(ReadAction::Lease)
                    },
                },
                (Action::Pause, _) => next is Clock,
                (Action::Read(ReadAction::Release { .. }), _) => clock.started is Some
                    ==> match round(reads(config, before, data.drop_last())).result() {
                    Err(_) => next == Action::Send(Event::Exit),
                    Ok(count) => if count > 0 {
                        next is Clock
                    } else if clock.now >= clock.last_output + 50_000_000 {
                        next == Action::Send(Event::Exit)
                    } else {
                        next is Pause
                    },
                },
                _ => true,
            }
        }),
{
    let before = trace.drop_last();
    lemma_delivery(trace, data);
    law_input_is_written_in_order(config, before);
    lemma_drains(config, before);
    lemma_reads(config, before, data.drop_last());
    let (v, q) = run(config, before);
    lemma_asked_for(v);
    lemma_drain_step(v, q, trace.last().reply, trace.last().sync_bytes, draining(config, before));
}

proof fn lemma_drain_step(
    v: LoopView,
    q: StateView,
    reply: Reply,
    sync_bytes: nat,
    clock: Draining,
)
    requires
        v.wf(q),
        v.answered_by(q, reply),
        drains(v, clock),
    ensures
        ({
            let next = v.resumed(q, reply, sync_bytes).0.action();
            match (v.action(), reply) {
                (Action::Clock, Reply::Clock(time)) => match clock.started {
                    None => next is Clock,
                    Some(started) => if time >= started + 60_000_000_000 {
                        next == Action::Send(Event::Exit)
                    } else {
                        next == Action::Read(ReadAction::Lease)
                    },
                },
                (Action::Pause, _) => next is Clock,
                (Action::Read(ReadAction::Release { .. }), _) => clock.started is Some ==> {
                    &&& reading(v.phase) is Some
                    &&& match reading(v.phase)->0.result() {
                        Err(_) => next == Action::Send(Event::Exit),
                        Ok(count) => if count > 0 {
                            next is Clock
                        } else if clock.now >= clock.last_output + 50_000_000 {
                            next == Action::Send(Event::Exit)
                        } else {
                            next is Pause
                        },
                    }
                },
                _ => true,
            }
        }),
{
}

/// Whether the clock never goes back in the course of `trace`.
pub open spec fn clock_is_monotonic(trace: Seq<Exchange>) -> bool {
    forall|i: int, j: int|
        #![trigger trace[i], trace[j]]
        0 <= i < j < trace.len() ==> match (trace[i].reply, trace[j].reply) {
            (Reply::Clock(earlier), Reply::Clock(later)) => earlier <= later,
            _ => true,
        }
}

/// The silence for which the draining waits is that since its beginning and
/// since every round with output: none of them began after the time from which
/// the silence is counted. `step` is any step of the course at which output
/// was parsed.
pub proof fn law_silence_counts_from_the_last_output(
    config: Config,
    trace: Seq<Exchange>,
    step: int,
)
    requires
        clock_is_monotonic(trace),
        0 <= step < trace.len(),
    ensures
        draining(config, trace).started matches Some(started) ==> {
            &&& started <= draining(config, trace).last_output
            &&& draining(config, trace).last_output <= draining(config, trace).now
        },
        ({
            let then = draining(config, trace.take(step));
            doing(config, trace.take(step)) matches Action::Read(action) && action is Parse
                && then.started is Some ==> then.now <= draining(config, trace).last_output
        }),
    decreases trace.len(),
{
    let before = trace.drop_last();
    lemma_monotonic(trace);
    lemma_draining(config, trace);
    lemma_draining(config, before);
    if step < before.len() {
        assert(before.take(step) =~= trace.take(step));
        law_silence_counts_from_the_last_output(config, before, step);
        lemma_started(config, trace, step);
    } else {
        assert(trace.take(step) =~= before);
    }
}

/// A draining which has begun goes on.
proof fn lemma_started(config: Config, trace: Seq<Exchange>, step: int)
    requires
        0 <= step < trace.len(),
    ensures
        draining(config, trace.take(step)).started is Some ==> draining(
            config,
            trace.drop_last(),
        ).started is Some,
    decreases trace.len(),
{
    let before = trace.drop_last();
    if step < before.len() {
        assert(before.take(step) =~= trace.take(step));
        lemma_started(config, before, step);
    } else {
        assert(trace.take(step) =~= before);
    }
}

proof fn lemma_monotonic(trace: Seq<Exchange>)
    requires
        clock_is_monotonic(trace),
        trace.len() > 0,
    ensures
        clock_is_monotonic(trace.drop_last()),
{
    let before = trace.drop_last();
    assert forall|i: int, j: int|
        #![trigger before[i], before[j]]
        0 <= i < j < before.len() implies match (before[i].reply, before[j].reply) {
        (Reply::Clock(earlier), Reply::Clock(later)) => earlier <= later,
        _ => true,
    } by {
        assert(before[i] == trace[i] && before[j] == trace[j]);
    }
}

/// The times of a draining are in order, and the latest was read from the
/// clock.
proof fn lemma_draining(config: Config, trace: Seq<Exchange>)
    requires
        clock_is_monotonic(trace),
    ensures
        ({
            let clock = draining(config, trace);
            clock.started matches Some(started) ==> {
                &&& started <= clock.last_output <= clock.now
                &&& exists|i: int|
                    0 <= i < trace.len() && (#[trigger] trace[i]).reply == Reply::Clock(clock.now)
            }
        }),
    decreases trace.len(),
{
    if trace.len() > 0 {
        let before = trace.drop_last();
        lemma_monotonic(trace);
        lemma_draining(config, before);
        let clock = draining(config, before);
        assert(trace.last() == trace[trace.len() - 1]);
        if clock.started is Some {
            let i = choose|i: int|
                0 <= i < before.len() && (#[trigger] before[i]).reply == Reply::Clock(clock.now);
            assert(trace[i] == before[i]);
        }
    }
}

// What the poller is told.

/// What the poller was last told to watch the PTY for.
pub open spec fn watched(config: Config, trace: Seq<Exchange>) -> Interest
    decreases trace.len(),
{
    if trace.len() == 0 {
        Interest { readable: false, writable: false }
    } else {
        match doing(config, trace.drop_last()) {
            Action::Register(interest) => interest,
            Action::Reregister(interest) => interest,
            _ => watched(config, trace.drop_last()),
        }
    }
}

/// Whenever the loop polls, the poller was told to watch the PTY for
/// readability, and for writability exactly while a buffer waits to be written.
/// It is told so anew only if that changed.
pub proof fn law_poller_watches_what_is_needed(config: Config, trace: Seq<Exchange>)
    requires
        is_run(config, trace),
    ensures
        ({
            let needed = Interest { readable: true, writable: waits(run(config, trace).1) };
            match doing(config, trace) {
                Action::Poll => watched(config, trace) == needed,
                Action::Reregister(interest) => interest == needed && watched(config, trace)
                    != needed,
                _ => true,
            }
        }),
{
    law_writability_is_watched_while_writing(config, trace);
    lemma_watched(config, trace);
    lemma_needed(run(config, trace).0, run(config, trace).1, watched(config, trace));
}

proof fn lemma_needed(v: LoopView, q: StateView, watched: Interest)
    requires
        v.interest.readable,
        tells(v, watched),
        v.phase is Polling || v.phase is Reregistering ==> v.interest.writable == q.needs_write(),
    ensures
        ({
            let needed = Interest { readable: true, writable: waits(q) };
            match v.action() {
                Action::Poll => watched == needed,
                Action::Reregister(interest) => interest == needed && watched != needed,
                _ => true,
            }
        }),
{
}

/// How what the loop wants to be watched relates to what the poller was told.
spec fn tells(v: LoopView, watched: Interest) -> bool {
    match v.phase {
        Phase::Registering => true,
        Phase::Finished => true,
        Phase::Reregistering => watched.writable != v.interest.writable,
        _ => watched == v.interest,
    }
}

proof fn lemma_tells(v: LoopView, q: StateView, reply: Reply, sync_bytes: nat, watched: Interest)
    requires
        v.wf(q),
        v.answered_by(q, reply),
        tells(v, watched),
    ensures
        tells(
            v.resumed(q, reply, sync_bytes).0,
            match v.action() {
                Action::Register(interest) => interest,
                Action::Reregister(interest) => interest,
                _ => watched,
            },
        ),
{
    match v.phase {
        Phase::Receiving => {
            lemma_visited(v, q, 0);
        },
        Phase::AwaitingChild => {
            lemma_visited(v, q, v.at + 1);
        },
        Phase::Reading(_) => {
            lemma_visited(v, q, v.at + 1);
        },
        Phase::Writing => {
            lemma_visited(v, q, v.at + 1);
            if let Reply::Written(Ok(n)) = reply {
                lemma_wrote_removes_from_pending(q, n as nat);
                lemma_visited(v, q.wrote(n as nat), v.at + 1);
            }
        },
        _ => {},
    }
}

proof fn lemma_watched(config: Config, trace: Seq<Exchange>)
    requires
        is_run(config, trace),
    ensures
        tells(run(config, trace).0, watched(config, trace)),
    decreases trace.len(),
{
    if trace.len() > 0 {
        let before = trace.drop_last();
        lemma_watched(config, before);
        law_input_is_written_in_order(config, before);
        let (v, q) = run(config, before);
        lemma_tells(
            v,
            q,
            trace.last().reply,
            trace.last().sync_bytes,
            watched(config, before),
        );
    }
}

/// As long as no input is empty, the poller watches for writability, whenever
/// the loop polls, exactly while the PTY has not taken all the input.
pub proof fn law_input_is_never_left_waiting(config: Config, trace: Seq<Exchange>)
    requires
        is_run(config, trace),
        forall|i: int| 0 <= i < trace.len() ==> !is_empty_input((#[trigger] trace[i]).reply),
        doing(config, trace) is Poll,
    ensures
        watched(config, trace).writable <==> written(config, trace).len() < input(trace).len(),
        written(config, trace).len() <= input(trace).len(),
{
    law_poller_watches_what_is_needed(config, trace);
    law_input_is_written_in_order(config, trace);
    law_writes_are_never_empty(config, trace);
    let q = run(config, trace).1;
    if q.queue.len() > 0 {
        assert(q.queue[0].len() > 0);
        assert(q.queue.flatten() == q.queue[0] + q.queue.drop_first().flatten());
    }
    assert(q.queue.len() == 0 ==> q.queue.flatten() =~= Seq::<u8>::empty());
    assert(written(config, trace).len() + q.pending().len() == input(trace).len());
}

// The answers.

/// Whether `reply` is a sensible answer to `action`, `offered` being the number
/// of bytes that are offered for writing: it is about the same thing, and says
/// that no more bytes were read or written than there was room for.
pub open spec fn is_sensible(action: Action, offered: nat, reply: Reply) -> bool {
    match action {
        Action::Register(_) => reply is Registered,
        Action::Poll => reply is Polled,
        Action::Peek => reply is Peeked,
        Action::Receive => reply is Received,
        Action::NextChildEvent => reply is Child,
        Action::Clock => reply is Clock,
        Action::Read(ReadAction::Read { len, .. }) => match reply {
            Reply::Read(ReadReply::Read(Ok(got))) => got <= len,
            Reply::Read(ReadReply::Read(Err(_))) => true,
            _ => false,
        },
        Action::Read(ReadAction::TryLock) => reply matches Reply::Read(answer) && answer is TryLock,
        Action::Read(_) => reply matches Reply::Read(answer) && answer is Done,
        Action::Write => match reply {
            Reply::Written(Ok(n)) => n <= offered,
            Reply::Written(Err(_)) => true,
            _ => false,
        },
        Action::Finish => false,
        _ => reply is Done,
    }
}

/// A loop can go on from every sensible answer, and from no other, except that
/// it bears with a PTY which claims to have taken more than it was offered.
pub proof fn law_sensible_answers_are_accepted(config: Config, trace: Seq<Exchange>, reply: Reply)
    requires
        is_run(config, trace),
    ensures
        ({
            let (v, q) = run(config, trace);
            let sensible = is_sensible(doing(config, trace), q.outgoing().len(), reply);
            &&& sensible ==> v.answered_by(q, reply)
            &&& v.answered_by(q, reply) && !(reply matches Reply::Written(outcome) && outcome is Ok)
                ==> sensible
        }),
{
    law_input_is_written_in_order(config, trace);
    lemma_sensible(run(config, trace).0, run(config, trace).1, reply);
}

proof fn lemma_sensible(v: LoopView, q: StateView, reply: Reply)
    requires
        v.wf(q),
    ensures
        is_sensible(v.action(), q.outgoing().len(), reply) ==> v.answered_by(q, reply),
        v.answered_by(q, reply) && !(reply matches Reply::Written(outcome) && outcome is Ok)
            ==> is_sensible(v.action(), q.outgoing().len(), reply),
{
}

} // verus!
