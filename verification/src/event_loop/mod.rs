//! The event loop which reads from and writes to the pseudoterminal.

pub mod clock;
pub mod course;
pub mod laws;
pub mod machine;
pub mod msg;
pub mod parser;
pub mod pty_read;
pub mod receiver;
pub mod sender;
pub mod state;
pub mod tail;
pub mod writing;

pub use machine::EventLoop;
pub use msg::Msg;
pub use receiver::PeekableReceiver;
pub use sender::{EventLoopSendError, EventLoopSender, Notifier};
pub use state::State;
