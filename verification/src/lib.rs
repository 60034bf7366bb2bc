//! The decisions of a terminal's PTY event loop, and the correction of a
//! terminal's grid after a resize under conpty.
//!
//! Nothing in this crate performs I/O. [`event_loop::EventLoop`] is told what
//! the poller, the PTY and the message channel answered, and says what has to
//! be done next; whoever runs it does that and reports back.

pub mod event;
pub mod event_loop;
pub mod term;
