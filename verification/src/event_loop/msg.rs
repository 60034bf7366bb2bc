//! Messages to the event loop.

use std::borrow::Cow;

use vstd::prelude::*;

use crate::event::WindowSize;
use crate::event_loop::writing::buffer_len;

verus! {

/// Messages that may be sent to the event loop.
#[derive(Debug)]
pub enum Msg {
    /// Data that should be written to the PTY.
    Input(Cow<'static, [u8]>),

    /// Indicates that the event loop should shut down, as the application is shutting down.
    Shutdown,

    /// Instruction to resize the PTY.
    Resize(WindowSize),
}

impl Msg {
    /// The message which carries `bytes` to the PTY.
    ///
    /// There is none for an empty buffer: the terminal hangs if 0 bytes are
    /// sent through.
    pub fn input(bytes: Cow<'static, [u8]>) -> (msg: Option<Msg>)
        ensures
            msg == if bytes@.len() == 0 {
                None
            } else {
                Some(Msg::Input(bytes))
            },
    {
        if buffer_len(&bytes) == 0 {
            None
        } else {
            Some(Msg::Input(bytes))
        }
    }
}

} // verus!
