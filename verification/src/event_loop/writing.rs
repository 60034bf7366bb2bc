//! A buffer on its way to the PTY.

use std::borrow::Cow;

use vstd::prelude::*;
use vstd::slice::slice_subrange;

verus! {

/// Model of a [`Writing`]: the whole buffer and how much of it is written.
pub struct WritingView {
    pub source: Seq<u8>,
    pub written: nat,
}

impl WritingView {
    /// A buffer of which nothing is written yet.
    pub open spec fn fresh(source: Seq<u8>) -> WritingView {
        WritingView { source, written: 0 }
    }

    /// No more is written than there is.
    pub open spec fn wf(self) -> bool {
        self.written <= self.source.len()
    }

    /// The bytes which still have to be written.
    pub open spec fn remaining(self) -> Seq<u8> {
        self.source.skip(self.written as int)
    }

    /// Whether the count of written bytes can grow by `n`. It can as long as it
    /// stays within the buffer.
    pub open spec fn has_room_for(self, n: nat) -> bool {
        ||| self.written + n <= usize::MAX
        ||| self.written + n <= self.source.len()
    }

    /// The same buffer with `n` more bytes written.
    pub open spec fn advanced(self, n: nat) -> WritingView {
        WritingView { source: self.source, written: self.written + n }
    }
}

/// Helper type which tracks how much of a buffer has been written.
pub struct Writing {
    source: Cow<'static, [u8]>,
    written: usize,
}

impl View for Writing {
    type V = WritingView;

    closed spec fn view(&self) -> WritingView {
        WritingView { source: self.source@, written: self.written as nat }
    }
}

/// Length of a byte buffer, borrowed or owned.
pub fn buffer_len(buffer: &Cow<'static, [u8]>) -> (len: usize)
    ensures
        len == buffer@.len(),
{
    match buffer {
        Cow::Borrowed(bytes) => bytes.len(),
        Cow::Owned(bytes) => bytes.len(),
    }
}

/// A buffer's length fits the numbers by which its bytes are counted.
proof fn lemma_buffer_len(buffer: Cow<'static, [u8]>)
    ensures
        buffer@.len() <= usize::MAX,
{
    match buffer {
        Cow::Borrowed(bytes) => {
            assert(bytes.len() == bytes@.len());
        },
        Cow::Owned(bytes) => {
            assert(bytes.len() == bytes@.len());
        },
    }
}

impl Writing {
    /// Start writing a buffer.
    pub fn new(c: Cow<'static, [u8]>) -> (writing: Writing)
        ensures
            writing@ == WritingView::fresh(c@),
    {
        Writing { source: c, written: 0 }
    }

    /// Record that `n` more bytes were written.
    pub fn advance(&mut self, n: usize)
        requires
            old(self)@.has_room_for(n as nat),
        ensures
            final(self)@ == old(self)@.advanced(n as nat),
    {
        proof {
            lemma_buffer_len(self.source);
        }
        self.written = self.written + n;
    }

    /// The part of the buffer which still has to be written.
    pub fn remaining_bytes(&self) -> (bytes: &[u8])
        requires
            self@.wf(),
        ensures
            bytes@ == self@.remaining(),
    {
        match &self.source {
            Cow::Borrowed(bytes) => slice_subrange(bytes, self.written, bytes.len()),
            Cow::Owned(bytes) => slice_subrange(bytes.as_slice(), self.written, bytes.len()),
        }
    }

    /// Whether the whole buffer was written.
    pub fn finished(&self) -> (finished: bool)
        ensures
            finished == (self@.written >= self@.source.len()),
    {
        self.written >= buffer_len(&self.source)
    }

    /// Whether the count of written bytes can grow by `n`.
    pub fn has_room_for(&self, n: usize) -> (has_room: bool)
        ensures
            has_room == self@.has_room_for(n as nat),
    {
        proof {
            lemma_buffer_len(self.source);
        }
        n <= usize::MAX - self.written
    }
}

} // verus!
