//! Plain values that the event loop exchanges with its surroundings.

use vstd::prelude::*;

verus! {

/// Size of the terminal, in cells and in pixels per cell.
#[derive(Clone, Copy, Debug, PartialEq, Eq, Structural)]
pub struct WindowSize {
    pub num_lines: u16,
    pub num_cols: u16,
    pub cell_width: u16,
    pub cell_height: u16,
}

/// What the event loop tells the rest of the application.
#[derive(Clone, Copy, Debug, PartialEq, Eq, Structural)]
pub enum Event {
    /// New terminal content is available.
    Wakeup,
    /// The child process exited with this code.
    ChildExit(i32),
    /// The terminal is shutting down.
    Exit,
}

/// What the PTY reports of its child process.
#[derive(Clone, Copy, Debug, PartialEq, Eq)]
pub enum ChildEvent {
    /// The child is gone; its exit code, where one is known.
    Exited(Option<i32>),
}

/// The kinds of I/O errors that the event loop tells apart.
#[derive(Clone, Copy, Debug, PartialEq, Eq, Structural)]
pub enum IoErrorKind {
    Interrupted,
    WouldBlock,
    Other,
}

/// A failed I/O operation.
#[derive(Clone, Copy, Debug, PartialEq, Eq)]
pub struct IoFailure {
    pub kind: IoErrorKind,
    /// The operating system's error number, where there is one.
    pub raw_os_error: Option<i32>,
}

impl IoFailure {
    /// Whether the operation may simply be tried again later.
    pub open spec fn transient(self) -> bool {
        self.kind is Interrupted || self.kind is WouldBlock
    }

    /// Whether the operation may simply be tried again later.
    pub fn is_transient(&self) -> (transient: bool)
        ensures
            transient == self.transient(),
    {
        match self.kind {
            IoErrorKind::Interrupted | IoErrorKind::WouldBlock => true,
            IoErrorKind::Other => false,
        }
    }
}

} // verus!
