//! The escape sequence parser that the event loop feeds.

use vstd::prelude::*;

verus! {

/// The ANSI parser, with the bytes that it holds back during a synchronized
/// update.
///
/// The parser itself is a [`vte::ansi::Processor`]; feeding it takes the
/// handler of the parsed sequences and is up to whoever runs the event loop.
#[verifier::external_body]
pub struct Parser {
    pub processor: vte::ansi::Processor,
}

/// The bytes which the parser holds back until the synchronized update ends.
pub uninterp spec fn sync_buffer(parser: Parser) -> Seq<u8>;

impl Parser {
    /// Calls `vte::ansi::Processor::new`.
    ///
    /// A new parser is not inside a synchronized update and holds no bytes
    /// back.
    #[verifier::external_body]
    pub(crate) fn new() -> (parser: Parser)
        ensures
            sync_buffer(parser) == Seq::<u8>::empty(),
    {
        Parser { processor: vte::ansi::Processor::new() }
    }

    /// Calls `vte::ansi::Processor::sync_bytes_count`.
    ///
    /// It returns the number of bytes in the synchronization buffer.
    #[verifier::external_body]
    pub(crate) fn sync_bytes_count(&self) -> (count: usize)
        ensures
            count == sync_buffer(*self).len(),
    {
        self.processor.sync_bytes_count()
    }
}

} // verus!
