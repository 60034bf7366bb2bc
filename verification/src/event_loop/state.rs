//! All of the mutable state needed to run the event loop.

use std::borrow::Cow;
use std::collections::VecDeque;

use vstd::prelude::*;

use crate::event::IoFailure;
use crate::event_loop::parser::{sync_buffer, Parser};
use crate::event_loop::writing::{Writing, WritingView};

verus! {

/// Model of what is waiting to be written to the PTY.
#[verifier::ext_equal]
pub struct StateView {
    /// The buffer which is being written.
    pub current: Option<WritingView>,
    /// The buffers after it, oldest first.
    pub queue: Seq<Seq<u8>>,
}

impl StateView {
    /// Nothing is waiting.
    pub open spec fn empty() -> StateView {
        StateView { current: None, queue: Seq::empty() }
    }

    /// No more of the current buffer is written than there is.
    pub open spec fn wf(self) -> bool {
        self.current matches Some(writing) ==> writing.wf()
    }

    /// Whether any buffer is waiting.
    pub open spec fn needs_write(self) -> bool {
        self.current is Some || self.queue.len() > 0
    }

    /// The bytes of the current buffer which still have to be written.
    pub open spec fn outgoing(self) -> Seq<u8> {
        match self.current {
            Some(writing) => writing.remaining(),
            None => Seq::empty(),
        }
    }

    /// Every byte which still has to be written, in the order of writing.
    pub open spec fn pending(self) -> Seq<u8> {
        self.outgoing() + self.queue.flatten()
    }

    /// One more buffer at the end of the queue.
    pub open spec fn push(self, bytes: Seq<u8>) -> StateView {
        StateView { current: self.current, queue: self.queue.push(bytes) }
    }

    /// The oldest queued buffer takes the place of the current one.
    pub open spec fn goto_next(self) -> StateView {
        if self.queue.len() == 0 {
            StateView { current: None, queue: self.queue }
        } else {
            StateView {
                current: Some(WritingView::fresh(self.queue[0])),
                queue: self.queue.drop_first(),
            }
        }
    }

    /// A current buffer is taken from the queue if there is none.
    pub open spec fn ensure_next(self) -> StateView {
        if self.current is None {
            self.goto_next()
        } else {
            self
        }
    }

    /// What is left after the PTY took `n` bytes of the current buffer.
    pub open spec fn wrote(self, n: nat) -> StateView {
        if n < self.outgoing().len() {
            StateView { current: Some(self.current->0.advanced(n)), queue: self.queue }
        } else {
            self.goto_next()
        }
    }
}

/// What to do after one attempt to write to the PTY.
#[derive(Clone, Copy, Debug, PartialEq, Eq, Structural)]
pub enum WriteStep {
    /// Write what is left of the current buffer.
    Again,
    /// Nothing more can be written for now.
    Done,
    /// The PTY is broken.
    Failed,
}

/// All of the mutable state needed to run the event loop.
///
/// Contains list of items to write, current write state, etc. Anything that
/// would otherwise be mutated on the event loop goes here.
pub struct State {
    write_list: VecDeque<Cow<'static, [u8]>>,
    writing: Option<Writing>,
    pub parser: Parser,
}

impl View for State {
    type V = StateView;

    closed spec fn view(&self) -> StateView {
        StateView {
            current: match self.writing {
                Some(writing) => Some(writing@),
                None => None,
            },
            queue: self.write_list@.map_values(|bytes: Cow<'static, [u8]>| bytes@),
        }
    }
}

impl Default for State {
    fn default() -> (state: State)
        ensures
            state@ == StateView::empty(),
            sync_buffer(state.held_parser()) == Seq::<u8>::empty(),
    {
        let state = State { write_list: VecDeque::new(), writing: None, parser: Parser::new() };
        assert(state@.queue =~= Seq::<Seq<u8>>::empty());
        state
    }
}

impl State {
    /// The parser which this state feeds.
    pub closed spec fn held_parser(self) -> Parser {
        self.parser
    }

    /// Number of bytes which the parser holds back until a synchronized update
    /// ends.
    pub fn sync_bytes_count(&self) -> (count: usize)
        ensures
            count == sync_buffer(self.held_parser()).len(),
    {
        self.parser.sync_bytes_count()
    }

    /// Queue a buffer behind everything that is already waiting.
    pub fn push_input(&mut self, input: Cow<'static, [u8]>)
        ensures
            final(self)@ == old(self)@.push(input@),
            final(self).held_parser() == old(self).held_parser(),
    {
        self.write_list.push_back(input);
        assert(self@.queue =~= old(self)@.queue.push(input@));
    }

    /// Make sure that there is a current buffer if any is waiting.
    pub fn ensure_next(&mut self)
        ensures
            final(self)@ == old(self)@.ensure_next(),
            final(self).held_parser() == old(self).held_parser(),
    {
        if self.writing.is_none() {
            self.goto_next();
        }
    }

    /// Replace the current buffer by the oldest queued one.
    pub fn goto_next(&mut self)
        ensures
            final(self)@ == old(self)@.goto_next(),
            final(self).held_parser() == old(self).held_parser(),
    {
        match self.write_list.pop_front() {
            Some(next) => {
                self.writing = Some(Writing::new(next));
                assert(self@.queue =~= old(self)@.queue.drop_first());
            },
            None => {
                self.writing = None;
            },
        }
    }

    /// Take the current buffer out of the state.
    pub fn take_current(&mut self) -> (current: Option<Writing>)
        ensures
            match (current, old(self)@.current) {
                (Some(writing), Some(before)) => writing@ == before,
                (None, None) => true,
                _ => false,
            },
            final(self)@ == (StateView { current: None, queue: old(self)@.queue }),
            final(self).held_parser() == old(self).held_parser(),
    {
        self.writing.take()
    }

    /// Whether anything is waiting to be written.
    pub fn needs_write(&self) -> (needs_write: bool)
        ensures
            needs_write == self@.needs_write(),
    {
        self.writing.is_some() || self.write_list.len() > 0
    }

    /// Put a buffer into the place of the current one.
    pub fn set_current(&mut self, new: Option<Writing>)
        ensures
            final(self)@ == (StateView {
                current: match new {
                    Some(writing) => Some(writing@),
                    None => None,
                },
                queue: old(self)@.queue,
            }),
            final(self).held_parser() == old(self).held_parser(),
    {
        self.writing = new;
    }

    /// The bytes to hand to the PTY next.
    pub fn outgoing(&self) -> (bytes: &[u8])
        requires
            self@.wf(),
        ensures
            bytes@ == self@.outgoing(),
    {
        match &self.writing {
            Some(writing) => writing.remaining_bytes(),
            None => &[],
        }
    }

    /// Whether the count of written bytes can grow by `n`.
    pub fn has_room_for(&self, n: usize) -> (has_room: bool)
        requires
            self@.current is Some,
        ensures
            has_room == self@.current->0.has_room_for(n as nat),
    {
        match &self.writing {
            Some(writing) => writing.has_room_for(n),
            None => false,
        }
    }

    /// Account for one attempt to write [`State::outgoing`] to the PTY.
    ///
    /// A PTY which took nothing, or asked to try again later, ends the writing
    /// for now and keeps every byte. Any other failure keeps them too. As long
    /// as the PTY takes bytes, writing goes on through the queue.
    pub fn pty_write(&mut self, outcome: Result<usize, IoFailure>) -> (step: WriteStep)
        requires
            old(self)@.current is Some,
            old(self)@.wf(),
            outcome matches Ok(n) ==> old(self)@.current->0.has_room_for(n as nat),
        ensures
            final(self).held_parser() == old(self).held_parser(),
            final(self)@.wf(),
            match outcome {
                Ok(n) => if n == 0 {
                    final(self)@ == old(self)@ && step is Done
                } else {
                    &&& final(self)@ == old(self)@.wrote(n as nat)
                    &&& step == if final(self)@.current is Some {
                        WriteStep::Again
                    } else {
                        WriteStep::Done
                    }
                },
                Err(failure) => {
                    &&& final(self)@ == old(self)@
                    &&& step == if failure.transient() {
                        WriteStep::Done
                    } else {
                        WriteStep::Failed
                    }
                },
            },
    {
        match self.take_current() {
            Some(mut current) => match outcome {
                Ok(0) => {
                    self.set_current(Some(current));
                    WriteStep::Done
                },
                Ok(n) => {
                    current.advance(n);
                    if current.finished() {
                        self.goto_next();
                        if self.writing.is_some() {
                            WriteStep::Again
                        } else {
                            WriteStep::Done
                        }
                    } else {
                        self.set_current(Some(current));
                        WriteStep::Again
                    }
                },
                Err(failure) => {
                    self.set_current(Some(current));
                    if failure.is_transient() {
                        WriteStep::Done
                    } else {
                        WriteStep::Failed
                    }
                },
            },
            None => WriteStep::Done,
        }
    }
}

} // verus!
