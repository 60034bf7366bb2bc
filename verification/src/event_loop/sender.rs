//! Sending messages to the event loop.

use std::borrow::Cow;
use std::io;
use std::sync::mpsc::{SendError, Sender};

use vstd::prelude::*;
use vstd::string::to_string_from_display_ensures;

use crate::event::WindowSize;
use crate::event_loop::msg::Msg;

verus! {

/// [`std::sync::mpsc::Sender`], the sending half of a channel.
#[verifier::external_type_specification]
#[verifier::external_body]
#[verifier::reject_recursive_types(T)]
pub struct ExSender<T>(std::sync::mpsc::Sender<T>);

/// [`std::sync::mpsc::SendError`], which gives back the message that could not
/// be sent.
#[verifier::external_type_specification]
#[verifier::reject_recursive_types(T)]
pub struct ExSendError<T>(std::sync::mpsc::SendError<T>);

/// [`std::io::Error`].
#[verifier::external_type_specification]
#[verifier::external_body]
pub struct ExIoError(std::io::Error);

/// `std::sync::mpsc::Sender::send` gives the message back if it could not be
/// sent. Whether it could be depends on the receiving thread.
pub assume_specification<T>[ std::sync::mpsc::Sender::<T>::send ](sender: &Sender<T>, t: T) -> (sent:
    Result<(), SendError<T>>)
    ensures
        sent matches Err(error) ==> error.0 == t,
;

/// `<std::sync::mpsc::Sender as Clone>::clone` makes another sender for the
/// same channel. Which channel that is cannot be told from a sender here, so
/// nothing is claimed.
pub assume_specification<T>[ <std::sync::mpsc::Sender<T> as Clone>::clone ](sender: &Sender<T>) -> (
clone: Sender<T>)
;

/// Why a message did not reach the event loop.
#[derive(Debug)]
pub enum EventLoopSendError {
    /// Error polling the event loop.
    Io(io::Error),

    /// Error sending a message to the event loop.
    Send(SendError<Msg>),
}

impl EventLoopSendError {
    /// The text which describes the error: that of its cause.
    pub fn fmt(&self) -> (text: String)
        ensures
            match self {
                EventLoopSendError::Io(err) => to_string_from_display_ensures::<io::Error>(
                    err,
                    text,
                ),
                EventLoopSendError::Send(err) => to_string_from_display_ensures::<SendError<Msg>>(
                    err,
                    text,
                ),
            },
    {
        match self {
            EventLoopSendError::Io(err) => err.to_string(),
            EventLoopSendError::Send(err) => err.to_string(),
        }
    }
}

/// Whether `result` is what sending returns after the channel answered `sent`:
/// a refusal is passed on; otherwise `notify` was called, and what it returned
/// is.
pub open spec fn concluded<F: FnOnce() -> Result<(), io::Error>>(
    sent: Result<(), SendError<Msg>>,
    notify: F,
    result: Result<(), EventLoopSendError>,
) -> bool {
    match (sent, result) {
        (Err(error), _) => result == Err::<(), _>(EventLoopSendError::Send(error)),
        (Ok(_), Ok(_)) => notify.ensures((), Ok(())),
        (Ok(_), Err(EventLoopSendError::Io(error))) => notify.ensures((), Err(error)),
        (Ok(_), Err(EventLoopSendError::Send(_))) => false,
    }
}

/// Whether `result` is what came of sending `msg` into `channel` and waking the
/// event loop with `notify`. A message that the channel refused comes back.
pub open spec fn sent_into<F: FnOnce() -> Result<(), io::Error>>(
    channel: Sender<Msg>,
    msg: Msg,
    notify: F,
    result: Result<(), EventLoopSendError>,
) -> bool {
    exists|sent: Result<(), SendError<Msg>>|
        {
            &&& #[trigger] call_ensures(Sender::<Msg>::send, (&channel, msg), sent)
            &&& sent matches Err(error) ==> error.0 == msg
            &&& concluded(sent, notify, result)
        }
}

/// Whether `notify` may be called once `channel` took `msg`, which is the only
/// time that sending calls it.
pub open spec fn callable_once_sent<F: FnOnce() -> Result<(), io::Error>>(
    channel: Sender<Msg>,
    msg: Msg,
    notify: F,
) -> bool {
    forall|sent: Result<(), SendError<Msg>>|
        #[trigger] call_ensures(Sender::<Msg>::send, (&channel, msg), sent) && sent is Ok
            ==> notify.requires(())
}

/// Wake the event loop up for a message that its channel took.
///
/// The poller is notified only if the channel took the message.
pub fn conclude_send<F: FnOnce() -> Result<(), io::Error>>(
    sent: Result<(), SendError<Msg>>,
    notify: F,
) -> (result: Result<(), EventLoopSendError>)
    requires
        sent is Ok ==> notify.requires(()),
    ensures
        concluded(sent, notify, result),
{
    match sent {
        Err(error) => Err(EventLoopSendError::Send(error)),
        Ok(_) => {
            let notified = notify();
            match notified {
                Ok(unit) => {
                    assert(unit == ());
                    Ok(())
                },
                Err(error) => Err(EventLoopSendError::Io(error)),
            }
        },
    }
}

/// A handle by which messages are sent to the event loop.
#[derive(Clone)]
pub struct EventLoopSender {
    sender: Sender<Msg>,
}

impl EventLoopSender {
    /// Send into the event loop's channel.
    pub fn new(sender: Sender<Msg>) -> (handle: EventLoopSender)
        ensures
            handle.channel() == sender,
    {
        EventLoopSender { sender }
    }

    /// The channel.
    pub closed spec fn channel(self) -> Sender<Msg> {
        self.sender
    }

    /// Send a message to the event loop and wake it up with `notify`.
    ///
    /// A message that the channel does not take comes back in the error.
    pub fn send<F: FnOnce() -> Result<(), io::Error>>(&self, msg: Msg, notify: F) -> (result:
        Result<(), EventLoopSendError>)
        requires
            callable_once_sent(self.channel(), msg, notify),
        ensures
            sent_into(self.channel(), msg, notify, result),
    {
        let sent = self.sender.send(msg);
        assert(call_ensures(Sender::<Msg>::send, (&self.channel(), msg), sent));
        conclude_send(sent, notify)
    }
}

/// Tells the event loop what the user does.
pub struct Notifier(pub EventLoopSender);

impl Notifier {
    /// Send input to the PTY, and return how the sending went. Empty input is
    /// not sent.
    pub fn notify<F: FnOnce() -> Result<(), io::Error>>(
        &self,
        bytes: Cow<'static, [u8]>,
        notify: F,
    ) -> (result: Option<Result<(), EventLoopSendError>>)
        requires
            bytes@.len() > 0 ==> callable_once_sent(
                self.0.channel(),
                Msg::Input(bytes),
                notify,
            ),
        ensures
            result is None <==> bytes@.len() == 0,
            result matches Some(result) ==> sent_into(
                self.0.channel(),
                Msg::Input(bytes),
                notify,
                result,
            ),
    {
        match Msg::input(bytes) {
            Some(msg) => Some(self.0.send(msg, notify)),
            None => None,
        }
    }

    /// Resize the PTY, and return how the sending went.
    pub fn on_resize<F: FnOnce() -> Result<(), io::Error>>(
        &mut self,
        window_size: WindowSize,
        notify: F,
    ) -> (result: Result<(), EventLoopSendError>)
        requires
            callable_once_sent(old(self).0.channel(), Msg::Resize(window_size), notify),
        ensures
            *final(self) == *old(self),
            sent_into(old(self).0.channel(), Msg::Resize(window_size), notify, result),
    {
        self.0.send(Msg::Resize(window_size), notify)
    }
}

/// What comes of sending a message tells whether the channel took it: if it
/// did not, the message comes back in the error; if it did, the result is the
/// waker's own.
pub proof fn law_message_is_taken_or_comes_back<F: FnOnce() -> Result<(), io::Error>>(
    channel: Sender<Msg>,
    msg: Msg,
    notify: F,
    result: Result<(), EventLoopSendError>,
)
    requires
        sent_into(channel, msg, notify, result),
    ensures
        match result {
            Ok(_) => notify.ensures((), Ok(())),
            Err(EventLoopSendError::Io(error)) => notify.ensures((), Err(error)),
            Err(EventLoopSendError::Send(error)) => error.0 == msg,
        },
        exists|sent: Result<(), SendError<Msg>>|
            {
                &&& #[trigger] call_ensures(Sender::<Msg>::send, (&channel, msg), sent)
                &&& sent is Err <==> (result matches Err(error) && error is Send)
            },
{
}

/// A refusal by the channel is passed on as it is.
pub proof fn law_refusal_is_passed_on<F: FnOnce() -> Result<(), io::Error>>(
    error: SendError<Msg>,
    notify: F,
    result: Result<(), EventLoopSendError>,
)
    ensures
        concluded(Err(error), notify, result) <==> result == Err::<(), EventLoopSendError>(
            EventLoopSendError::Send(error),
        ),
{
}

} // verus!
