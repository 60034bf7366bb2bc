//! Reading from the PTY and parsing what was read.
//!
//! Parsing needs the lock on the terminal. Bytes are collected in a buffer as
//! long as somebody else holds it, and nobody is waited for until that buffer
//! is full. Once the lock is held only a bounded number of bytes is read
//! before it is given back.

use vstd::prelude::*;

use crate::event::{IoErrorKind, IoFailure};

verus! {

/// Max bytes to read from the PTY before forced terminal synchronization.
pub const READ_BUFFER_SIZE: usize = 0x10_0000;

/// Max bytes to read from the PTY while the terminal is locked.
pub const MAX_LOCKED_READ: usize = 65_535;

/// What has to be done next to read from the PTY.
#[derive(Clone, Copy, Debug, PartialEq, Eq, Structural)]
pub enum ReadAction {
    /// Reserve the next lock on the terminal.
    Lease,
    /// Read at most `len` bytes from the PTY into the buffer, at `offset`.
    Read { offset: usize, len: usize },
    /// Lock the terminal unless somebody else holds it.
    TryLock,
    /// Wait until the terminal is locked.
    Lock,
    /// Record and parse the first `len` bytes of the buffer.
    Parse { len: usize },
    /// Send a wakeup if asked to, and give up the lock and the reservation.
    Release { wakeup: bool },
}

/// How a [`ReadAction`] went.
#[derive(Clone, Copy, Debug, PartialEq, Eq)]
pub enum ReadReply {
    /// It was carried out.
    Done,
    /// The read returned this.
    Read(Result<usize, IoFailure>),
    /// Whether the terminal could be locked.
    TryLock(bool),
}

/// Where a read stands after a [`ReadReply`].
#[derive(Clone, Copy, Debug, PartialEq, Eq)]
pub enum ReadStep {
    /// This has to be done next.
    Next(ReadAction),
    /// The read is over: the number of bytes parsed, or why it failed.
    Finished(Result<usize, IoFailure>),
}

/// One round of reading from the PTY.
#[derive(Clone, Copy, Debug, PartialEq, Eq)]
pub struct PtyRead {
    /// Bytes in the buffer which are not parsed yet.
    pub unprocessed: usize,
    /// Bytes which were parsed in this round.
    pub processed: usize,
    /// Whether the terminal is locked.
    pub locked: bool,
    /// Why the round failed.
    pub failure: Option<IoFailure>,
    /// What is being done.
    pub awaiting: ReadAction,
}

impl PtyRead {
    /// A round which is about to begin.
    pub open spec fn initial() -> PtyRead {
        PtyRead {
            unprocessed: 0,
            processed: 0,
            locked: false,
            failure: None,
            awaiting: ReadAction::Lease,
        }
    }

    /// What holds between any two steps of a round.
    ///
    /// A read always has room in the buffer. Only a full buffer makes the loop
    /// wait for the lock. While the lock is held, nothing unparsed is left in
    /// the buffer when the next read begins, and that read cannot bring the
    /// round over [`MAX_LOCKED_READ`].
    pub open spec fn wf(self) -> bool {
        &&& self.unprocessed <= READ_BUFFER_SIZE
        &&& self.processed <= READ_BUFFER_SIZE
        &&& self.processed > 0 ==> self.locked
        &&& match self.awaiting {
            ReadAction::Lease => self == PtyRead::initial(),
            ReadAction::Read { offset, len } => {
                &&& offset == self.unprocessed
                &&& 0 < len && offset + len <= READ_BUFFER_SIZE
                &&& self.locked ==> self.unprocessed == 0 && len <= MAX_LOCKED_READ
                    - self.processed
                &&& self.processed < MAX_LOCKED_READ
                &&& self.failure is None
            },
            ReadAction::TryLock => {
                !self.locked && self.unprocessed > 0 && self.failure is None
            },
            ReadAction::Lock => {
                &&& !self.locked
                &&& self.unprocessed == READ_BUFFER_SIZE
                &&& self.failure is None
            },
            ReadAction::Parse { len } => {
                &&& self.locked
                &&& 0 < len == self.unprocessed
                &&& self.processed == 0 || self.processed + len <= MAX_LOCKED_READ
                &&& self.failure is None
            },
            ReadAction::Release { .. } => self.failure is None ==> self.unprocessed == 0,
        }
    }

    /// Whether `reply` can be the answer to what is being done. A read returns
    /// no more bytes than it was asked for.
    pub open spec fn answered_by(self, reply: ReadReply) -> bool {
        match self.awaiting {
            ReadAction::Read { len, .. } => match reply {
                ReadReply::Read(Ok(got)) => got <= len,
                ReadReply::Read(Err(_)) => true,
                _ => false,
            },
            ReadAction::TryLock => reply is TryLock,
            _ => reply is Done,
        }
    }

    /// The round ends well; the terminal is redrawn unless all bytes that were
    /// parsed are held back by a synchronized update.
    pub open spec fn finishing(self, sync_bytes: nat) -> PtyRead {
        PtyRead {
            awaiting: ReadAction::Release {
                wakeup: sync_bytes < self.processed && self.processed > 0,
            },
            ..self
        }
    }

    /// The round ends with an error, and nothing is redrawn.
    pub open spec fn failing(self, failure: IoFailure) -> PtyRead {
        PtyRead {
            failure: Some(failure),
            awaiting: ReadAction::Release { wakeup: false },
            ..self
        }
    }

    /// The next read: to the end of the buffer, but no further than to
    /// [`MAX_LOCKED_READ`] bytes once the terminal is locked.
    pub open spec fn reading(self) -> PtyRead {
        PtyRead {
            awaiting: ReadAction::Read {
                offset: self.unprocessed,
                len: if self.locked {
                    (MAX_LOCKED_READ - self.processed) as usize
                } else {
                    (READ_BUFFER_SIZE - self.unprocessed) as usize
                },
            },
            ..self
        }
    }

    /// The buffer holds `unprocessed` bytes which are to be parsed.
    pub open spec fn filled(self, unprocessed: usize) -> PtyRead {
        PtyRead {
            unprocessed,
            awaiting: if self.locked {
                ReadAction::Parse { len: unprocessed }
            } else {
                ReadAction::TryLock
            },
            ..self
        }
    }

    /// The terminal is locked for the rest of the round.
    pub open spec fn parsing(self) -> PtyRead {
        PtyRead {
            locked: true,
            awaiting: ReadAction::Parse { len: self.unprocessed },
            ..self
        }
    }

    /// The round after the answer to what was being done.
    pub open spec fn resumed(self, reply: ReadReply, sync_bytes: nat) -> PtyRead {
        match (self.awaiting, reply) {
            (ReadAction::Lease, _) => self.reading(),
            (ReadAction::Read { .. }, ReadReply::Read(Ok(got))) => {
                if got == 0 && self.unprocessed == 0 {
                    self.finishing(sync_bytes)
                } else {
                    self.filled((self.unprocessed + got) as usize)
                }
            },
            (ReadAction::Read { .. }, ReadReply::Read(Err(failure))) => {
                if !failure.transient() {
                    self.failing(failure)
                } else if self.unprocessed == 0 {
                    self.finishing(sync_bytes)
                } else {
                    self.filled(self.unprocessed)
                }
            },
            (ReadAction::TryLock, ReadReply::TryLock(locked)) => {
                if locked {
                    self.parsing()
                } else if self.unprocessed >= READ_BUFFER_SIZE {
                    PtyRead { awaiting: ReadAction::Lock, ..self }
                } else {
                    self.reading()
                }
            },
            (ReadAction::Lock, _) => self.parsing(),
            (ReadAction::Parse { .. }, _) => {
                let parsed = PtyRead {
                    processed: (self.processed + self.unprocessed) as usize,
                    unprocessed: 0,
                    ..self
                };
                if parsed.processed >= MAX_LOCKED_READ {
                    parsed.finishing(sync_bytes)
                } else {
                    parsed.reading()
                }
            },
            _ => self,
        }
    }

    /// What a round that gives up the lock returns.
    pub open spec fn result(self) -> Result<usize, IoFailure> {
        match self.failure {
            Some(failure) => Err(failure),
            None => Ok(self.processed),
        }
    }

    /// Begin a round with [`ReadAction::Lease`].
    pub fn new() -> (read: PtyRead)
        ensures
            read == PtyRead::initial(),
            read.wf(),
    {
        PtyRead {
            unprocessed: 0,
            processed: 0,
            locked: false,
            failure: None,
            awaiting: ReadAction::Lease,
        }
    }

    /// Whether `reply` can be the answer to what is being done.
    pub fn accepts(&self, reply: &ReadReply) -> (accepts: bool)
        requires
            self.wf(),
        ensures
            accepts == self.answered_by(*reply),
    {
        match (self.awaiting, reply) {
            (ReadAction::Read { len, .. }, ReadReply::Read(Ok(got))) => *got <= len,
            (ReadAction::Read { .. }, ReadReply::Read(Err(_))) => true,
            (ReadAction::Read { .. }, _) => false,
            (ReadAction::TryLock, ReadReply::TryLock(_)) => true,
            (ReadAction::TryLock, _) => false,
            (_, ReadReply::Done) => true,
            _ => false,
        }
    }

    fn finish(&mut self, sync_bytes: usize)
        ensures
            *final(self) == old(self).finishing(sync_bytes as nat),
    {
        self.awaiting = ReadAction::Release {
            wakeup: sync_bytes < self.processed && self.processed > 0,
        };
    }

    fn read(&mut self)
        requires
            old(self).locked ==> old(self).processed <= MAX_LOCKED_READ,
            old(self).unprocessed <= READ_BUFFER_SIZE,
        ensures
            *final(self) == old(self).reading(),
    {
        self.awaiting = ReadAction::Read {
            offset: self.unprocessed,
            len: if self.locked {
                MAX_LOCKED_READ - self.processed
            } else {
                READ_BUFFER_SIZE - self.unprocessed
            },
        };
    }

    fn fill(&mut self, unprocessed: usize)
        ensures
            *final(self) == old(self).filled(unprocessed),
    {
        self.unprocessed = unprocessed;
        self.awaiting = if self.locked {
            ReadAction::Parse { len: unprocessed }
        } else {
            ReadAction::TryLock
        };
    }

    fn parse(&mut self)
        ensures
            *final(self) == old(self).parsing(),
    {
        self.locked = true;
        self.awaiting = ReadAction::Parse { len: self.unprocessed };
    }

    /// Take the answer to what was being done and say how to go on.
    ///
    /// `sync_bytes` is the number of bytes which the parser holds back until a
    /// synchronized update ends.
    pub fn resume(&mut self, reply: ReadReply, sync_bytes: usize) -> (step: ReadStep)
        requires
            old(self).wf(),
            old(self).answered_by(reply),
        ensures
            final(self).wf(),
            *final(self) == old(self).resumed(reply, sync_bytes as nat),
            step == if old(self).awaiting is Release {
                ReadStep::Finished(old(self).result())
            } else {
                ReadStep::Next(final(self).awaiting)
            },
    {
        match (self.awaiting, reply) {
            (ReadAction::Lease, _) => {
                self.read();
            },
            (ReadAction::Read { .. }, ReadReply::Read(Ok(got))) => {
                if got == 0 && self.unprocessed == 0 {
                    self.finish(sync_bytes);
                } else {
                    self.fill(self.unprocessed + got);
                }
            },
            (ReadAction::Read { .. }, ReadReply::Read(Err(failure))) => {
                if !failure.is_transient() {
                    self.failure = Some(failure);
                    self.awaiting = ReadAction::Release { wakeup: false };
                } else if self.unprocessed == 0 {
                    self.finish(sync_bytes);
                } else {
                    self.fill(self.unprocessed);
                }
            },
            (ReadAction::TryLock, ReadReply::TryLock(locked)) => {
                if locked {
                    self.parse();
                } else if self.unprocessed >= READ_BUFFER_SIZE {
                    // Force block if we are at the buffer size limit.
                    self.awaiting = ReadAction::Lock;
                } else {
                    self.read();
                }
            },
            (ReadAction::Lock, _) => {
                self.parse();
            },
            (ReadAction::Parse { .. }, _) => {
                self.processed = self.processed + self.unprocessed;
                self.unprocessed = 0;
                if self.processed >= MAX_LOCKED_READ {
                    self.finish(sync_bytes);
                } else {
                    self.read();
                }
            },
            (ReadAction::Release { .. }, _) => {
                return ReadStep::Finished(match self.failure {
                    Some(failure) => Err(failure),
                    None => Ok(self.processed),
                });
            },
            _ => {},
        }
        ReadStep::Next(self.awaiting)
    }
}

/// One answer in the course of a round, with the bytes that a read put into
/// the buffer.
pub struct ReadExchange {
    pub reply: ReadReply,
    pub data: Seq<u8>,
    pub sync_bytes: nat,
}

/// The bytes which a round of reading has moved so far.
pub struct ReadTraffic {
    /// Every byte that the PTY delivered, in order.
    pub received: Seq<u8>,
    /// Those of them which were read while the terminal was locked.
    pub received_locked: Seq<u8>,
    /// The unparsed content of the buffer.
    pub buffer: Seq<u8>,
    /// Every byte that was parsed, in order.
    pub parsed: Seq<u8>,
}

impl ReadTraffic {
    /// The traffic after what `read` was doing was carried out: a read puts its
    /// bytes into the buffer at its offset, parsing takes them from the front.
    pub open spec fn after(self, read: PtyRead, exchange: ReadExchange) -> ReadTraffic {
        match read.awaiting {
            ReadAction::Read { offset, .. } => ReadTraffic {
                received: self.received + exchange.data,
                received_locked: if read.locked {
                    self.received_locked + exchange.data
                } else {
                    self.received_locked
                },
                buffer: self.buffer.take(offset as int) + exchange.data,
                parsed: self.parsed,
            },
            ReadAction::Parse { len } => ReadTraffic {
                buffer: self.buffer.skip(len as int),
                parsed: self.parsed + self.buffer.take(len as int),
                ..self
            },
            _ => self,
        }
    }
}

/// Where a round stands after the answers in `trace`.
pub open spec fn round(trace: Seq<ReadExchange>) -> PtyRead
    decreases trace.len(),
{
    if trace.len() == 0 {
        PtyRead::initial()
    } else {
        round(trace.drop_last()).resumed(trace.last().reply, trace.last().sync_bytes)
    }
}

/// What a round has moved after the answers in `trace`.
pub open spec fn traffic(trace: Seq<ReadExchange>) -> ReadTraffic
    decreases trace.len(),
{
    if trace.len() == 0 {
        ReadTraffic {
            received: Seq::empty(),
            received_locked: Seq::empty(),
            buffer: Seq::empty(),
            parsed: Seq::empty(),
        }
    } else {
        traffic(trace.drop_last()).after(round(trace.drop_last()), trace.last())
    }
}

/// Whether `trace` is a course that a round can take: each answer fits what
/// was being done, and a read delivers as many bytes as it says.
pub open spec fn is_round(trace: Seq<ReadExchange>) -> bool
    decreases trace.len(),
{
    trace.len() == 0 || {
        let before = round(trace.drop_last());
        let exchange = trace.last();
        &&& is_round(trace.drop_last())
        &&& !(before.awaiting is Release)
        &&& before.answered_by(exchange.reply)
        &&& exchange.data.len() == match exchange.reply {
            ReadReply::Read(Ok(got)) => got as nat,
            _ => 0,
        }
    }
}

/// Every byte that the PTY delivers is parsed exactly once and in order: at
/// any point of a round, what was parsed and what waits in the buffer together
/// are what was received.
pub proof fn law_no_byte_is_lost(trace: Seq<ReadExchange>)
    requires
        is_round(trace),
    ensures
        round(trace).wf(),
        traffic(trace).parsed + traffic(trace).buffer == traffic(trace).received,
        traffic(trace).parsed.len() == round(trace).processed,
        traffic(trace).buffer.len() == round(trace).unprocessed,
    decreases trace.len(),
{
    if trace.len() > 0 {
        let before = trace.drop_last();
        law_no_byte_is_lost(before);
        let old_traffic = traffic(before);
        let read = round(before);
        match read.awaiting {
            ReadAction::Read { offset, .. } => {
                assert(old_traffic.buffer.take(offset as int) =~= old_traffic.buffer);
            },
            ReadAction::Parse { len } => {
                assert(old_traffic.buffer.take(len as int) =~= old_traffic.buffer);
                assert(old_traffic.buffer.skip(len as int) =~= Seq::<u8>::empty());
            },
            _ => {},
        }
        assert(traffic(trace).parsed + traffic(trace).buffer =~= traffic(trace).received);
    }
}

/// A round that ends well has parsed every byte it received, and the count it
/// returns is the number of these bytes.
pub proof fn law_finished_round_parsed_everything(trace: Seq<ReadExchange>)
    requires
        is_round(trace),
        round(trace).awaiting is Release,
        round(trace).failure is None,
    ensures
        traffic(trace).parsed == traffic(trace).received,
        round(trace).result() == Ok::<usize, IoFailure>(traffic(trace).received.len() as usize),
        traffic(trace).received.len() <= usize::MAX,
{
    law_no_byte_is_lost(trace);
    assert(traffic(trace).buffer =~= Seq::<u8>::empty());
    assert(traffic(trace).parsed + traffic(trace).buffer =~= traffic(trace).parsed);
}

/// At most [`MAX_LOCKED_READ`] bytes are read from the PTY while the terminal
/// is locked.
pub proof fn law_reads_under_the_lock_are_bounded(trace: Seq<ReadExchange>)
    requires
        is_round(trace),
    ensures
        traffic(trace).received_locked.len() <= MAX_LOCKED_READ,
{
    lemma_received_locked(trace);
}

/// Bytes that were read while the terminal was locked are among those that
/// the round may take up to [`MAX_LOCKED_READ`].
proof fn lemma_received_locked(trace: Seq<ReadExchange>)
    requires
        is_round(trace),
    ensures
        ({
            let read = round(trace);
            let received_locked = traffic(trace).received_locked.len();
            &&& received_locked <= read.processed + read.unprocessed
            &&& received_locked > 0 ==> read.locked && read.processed + read.unprocessed
                <= MAX_LOCKED_READ
        }),
    decreases trace.len(),
{
    if trace.len() > 0 {
        lemma_received_locked(trace.drop_last());
        law_no_byte_is_lost(trace.drop_last());
    }
}

/// The terminal is never blocked for long: one round parses no more than one
/// buffer, and once [`MAX_LOCKED_READ`] bytes are parsed it reads nothing more.
pub proof fn law_lock_is_held_for_bounded_bytes(trace: Seq<ReadExchange>)
    requires
        is_round(trace),
    ensures
        traffic(trace).parsed.len() <= READ_BUFFER_SIZE,
        traffic(trace).parsed.len() >= MAX_LOCKED_READ ==> round(trace).awaiting is Release,
{
    law_no_byte_is_lost(trace);
}

/// Nobody is waited for while there is room in the buffer: the loop blocks on
/// the lock only with a full buffer, and reads only into a buffer with room.
pub proof fn law_blocks_only_when_full(trace: Seq<ReadExchange>)
    requires
        is_round(trace),
    ensures
        round(trace).awaiting is Lock ==> traffic(trace).buffer.len() == READ_BUFFER_SIZE,
        round(trace).awaiting matches ReadAction::Read { offset, len } ==> {
            &&& offset == traffic(trace).buffer.len()
            &&& 0 < len && offset + len <= READ_BUFFER_SIZE
        },
{
    law_no_byte_is_lost(trace);
}

/// A round wakes the terminal up exactly when it ends well after parsing more
/// bytes than the parser holds back for a synchronized update.
pub proof fn law_wakeup_unless_synchronized(trace: Seq<ReadExchange>)
    requires
        is_round(trace),
        round(trace).awaiting is Release,
    ensures
        round(trace).awaiting == (ReadAction::Release {
            wakeup: round(trace).failure is None && trace.last().sync_bytes < traffic(
                trace,
            ).parsed.len(),
        }),
{
    law_no_byte_is_lost(trace);
    law_no_byte_is_lost(trace.drop_last());
}

/// Errors which only ask to try again later never fail a round.
pub proof fn law_only_hard_errors_fail_a_round(trace: Seq<ReadExchange>)
    requires
        is_round(trace),
    ensures
        round(trace).result() matches Err(failure) ==> !failure.transient(),
    decreases trace.len(),
{
    if trace.len() > 0 {
        law_only_hard_errors_fail_a_round(trace.drop_last());
    }
}

/// Whether the terminal was locked in the course of `trace`: at once, or after
/// waiting for it.
pub open spec fn was_locked(trace: Seq<ReadExchange>) -> bool
    decreases trace.len(),
{
    trace.len() > 0 && {
        ||| was_locked(trace.drop_last())
        ||| trace.last().reply == ReadReply::TryLock(true)
        ||| round(trace.drop_last()).awaiting is Lock
    }
}

/// The error with which the last answer of `trace` ends a round: one which
/// does not just ask to try again later.
pub open spec fn hard_error(trace: Seq<ReadExchange>) -> Option<IoFailure> {
    if trace.len() == 0 {
        None
    } else {
        match trace.last().reply {
            ReadReply::Read(Err(failure)) => match failure.kind {
                IoErrorKind::Interrupted => None,
                IoErrorKind::WouldBlock => None,
                IoErrorKind::Other => Some(failure),
            },
            _ => None,
        }
    }
}

/// The lock which a round asks for is the only one it takes: bytes are parsed
/// only while the terminal is locked, and it is locked at most once.
pub proof fn law_parsing_needs_the_lock(trace: Seq<ReadExchange>)
    requires
        is_round(trace),
    ensures
        round(trace).awaiting is Parse ==> was_locked(trace),
        round(trace).awaiting is TryLock ==> !was_locked(trace),
        round(trace).awaiting is Lock ==> !was_locked(trace),
        traffic(trace).parsed.len() > 0 ==> was_locked(trace),
{
    law_no_byte_is_lost(trace);
    lemma_was_locked(trace);
}

proof fn lemma_was_locked(trace: Seq<ReadExchange>)
    requires
        is_round(trace),
    ensures
        round(trace).locked == was_locked(trace),
    decreases trace.len(),
{
    if trace.len() > 0 {
        lemma_was_locked(trace.drop_last());
        law_no_byte_is_lost(trace.drop_last());
    }
}

/// How a round goes on.
///
/// It reserves the lock and reads into the whole buffer. Whenever bytes wait
/// in the buffer after a read, all of them are parsed if the terminal is
/// locked, and otherwise the lock is tried. If somebody else holds it, more is
/// read behind the waiting bytes, and only a full buffer makes the round wait
/// for the lock. After parsing, the next read is for what the bound on locked
/// reads leaves. The round ends exactly when a read left nothing to parse,
/// when reading failed for good, or when that bound is reached.
pub proof fn law_round_goes_on(trace: Seq<ReadExchange>)
    requires
        is_round(trace),
    ensures
        trace.len() == 0 ==> round(trace).awaiting is Lease,
        trace.len() > 0 ==> ({
            let next = round(trace).awaiting;
            let waiting = traffic(trace).buffer.len();
            let parsed = traffic(trace).parsed.len();
            match (round(trace.drop_last()).awaiting, trace.last().reply) {
                (ReadAction::Lease, _) => next matches ReadAction::Read { offset, len } && offset
                    == 0 && len == 0x10_0000,
                (ReadAction::Read { .. }, _) => if hard_error(trace) is Some || waiting == 0 {
                    next is Release
                } else if was_locked(trace) {
                    next matches ReadAction::Parse { len } && len == waiting
                } else {
                    next is TryLock
                },
                (ReadAction::TryLock, ReadReply::TryLock(locked)) => if locked {
                    next matches ReadAction::Parse { len } && len == waiting
                } else if waiting == 0x10_0000 {
                    next is Lock
                } else {
                    next matches ReadAction::Read { offset, len } && offset == waiting && offset
                        + len == 0x10_0000
                },
                (ReadAction::Lock, _) => next matches ReadAction::Parse { len } && len == waiting,
                (ReadAction::Parse { .. }, _) => if parsed >= 65_535 {
                    next is Release
                } else {
                    next matches ReadAction::Read { offset, len } && offset == 0 && len == 65_535
                        - parsed
                },
                _ => false,
            }
        }),
{
    law_no_byte_is_lost(trace);
    lemma_was_locked(trace);
    if trace.len() > 0 {
        law_no_byte_is_lost(trace.drop_last());
    }
}

/// A round which ends returns the error of the read that failed for good and
/// wakes nobody up, or else the number of bytes it parsed, and then it wakes
/// the terminal up if these are more than the parser holds back.
pub proof fn law_round_reports_what_happened(trace: Seq<ReadExchange>)
    requires
        is_round(trace),
        round(trace).awaiting is Release,
    ensures
        match hard_error(trace) {
            Some(failure) => {
                &&& round(trace).result() == Err::<usize, IoFailure>(failure)
                &&& round(trace).awaiting == (ReadAction::Release { wakeup: false })
            },
            None => {
                &&& round(trace).result() matches Ok(count)
                &&& count == traffic(trace).parsed.len()
                &&& round(trace).awaiting == (ReadAction::Release {
                    wakeup: trace.last().sync_bytes < traffic(trace).parsed.len(),
                })
            },
        },
{
    law_no_byte_is_lost(trace);
    law_no_byte_is_lost(trace.drop_last());
    law_wakeup_unless_synchronized(trace);
    lemma_failure(trace);
}

/// A round carries an error exactly when its last answer was one that ends it.
proof fn lemma_failure(trace: Seq<ReadExchange>)
    requires
        is_round(trace),
    ensures
        round(trace).failure == hard_error(trace),
    decreases trace.len(),
{
    if trace.len() > 0 {
        lemma_failure(trace.drop_last());
        law_no_byte_is_lost(trace.drop_last());
    }
}

} // verus!
