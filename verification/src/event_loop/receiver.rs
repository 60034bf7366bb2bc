//! A channel's receiving end whose next message can be looked at.

use std::sync::mpsc::{Receiver, TryRecvError};

use vstd::prelude::*;

verus! {

/// [`std::sync::mpsc::Receiver`], the receiving half of a channel.
#[verifier::external_type_specification]
#[verifier::external_body]
#[verifier::reject_recursive_types(T)]
pub struct ExReceiver<T>(std::sync::mpsc::Receiver<T>);

/// [`std::sync::mpsc::TryRecvError`]: no message is waiting, and perhaps every
/// sender is gone.
#[verifier::external_type_specification]
pub struct ExTryRecvError(std::sync::mpsc::TryRecvError);

/// `std::sync::mpsc::Receiver::try_recv` does not block. What it returns
/// depends on what other threads have sent so far, so nothing is claimed of
/// it.
pub assume_specification<T>[ std::sync::mpsc::Receiver::<T>::try_recv ](rx: &Receiver<T>) -> (
polled: Result<T, TryRecvError>)
;

/// The event loop's channel has no sender left.
#[derive(Clone, Copy, Debug, PartialEq, Eq, Structural)]
pub struct ChannelClosed;

/// The message to hold back when a channel with `peeked` held back already is
/// looked into: the same one, or else the one that the channel delivers.
pub open spec fn held_back<T>(peeked: Option<T>, polled: Result<T, TryRecvError>) -> Option<T> {
    match (peeked, polled) {
        (Some(message), _) => Some(message),
        (None, Ok(message)) => Some(message),
        (None, Err(_)) => None,
    }
}

/// What is received from a channel with `peeked` held back: that message, or
/// else what the channel delivers.
pub open spec fn handed_out<T>(peeked: Option<T>, polled: Result<T, TryRecvError>) -> Result<
    Option<T>,
    ChannelClosed,
> {
    match (peeked, polled) {
        (Some(message), _) => Ok(Some(message)),
        (None, Ok(message)) => Ok(Some(message)),
        (None, Err(TryRecvError::Empty)) => Ok(None),
        (None, Err(TryRecvError::Disconnected)) => Err(ChannelClosed),
    }
}

/// The message to hold back after a look into the channel.
pub fn hold_back<T>(peeked: Option<T>, polled: Result<T, TryRecvError>) -> (held: Option<T>)
    ensures
        held == held_back(peeked, polled),
{
    match (peeked, polled) {
        (Some(message), _) => Some(message),
        (None, Ok(message)) => Some(message),
        (None, Err(_)) => None,
    }
}

/// What is received, given what is held back and what the channel delivers.
pub fn hand_out<T>(peeked: Option<T>, polled: Result<T, TryRecvError>) -> (received: Result<
    Option<T>,
    ChannelClosed,
>)
    ensures
        received == handed_out(peeked, polled),
{
    match (peeked, polled) {
        (Some(message), _) => Ok(Some(message)),
        (None, Ok(message)) => Ok(Some(message)),
        (None, Err(TryRecvError::Empty)) => Ok(None),
        (None, Err(TryRecvError::Disconnected)) => Err(ChannelClosed),
    }
}

/// A receiver which can hold back one message.
#[verifier::reject_recursive_types(T)]
pub struct PeekableReceiver<T> {
    rx: Receiver<T>,
    peeked: Option<T>,
}

impl<T> PeekableReceiver<T> {
    /// The message which was looked at but not received yet.
    pub closed spec fn peeked(self) -> Option<T> {
        self.peeked
    }

    /// The channel.
    pub closed spec fn channel(self) -> Receiver<T> {
        self.rx
    }

    /// Receive from `rx`.
    pub fn new(rx: Receiver<T>) -> (receiver: Self)
        ensures
            receiver.peeked() is None,
            receiver.channel() == rx,
    {
        Self { rx, peeked: None }
    }

    /// Look at the next message without receiving it.
    ///
    /// The channel is asked for a message unless one is held back already, and
    /// the message that it delivers is held back.
    pub fn peek(&mut self) -> (message: Option<&T>)
        ensures
            match old(self).peeked() {
                Some(held) => final(self).peeked() == Some(held),
                None => exists|polled: Result<T, TryRecvError>|
                    {
                        &&& #[trigger] call_ensures(
                            Receiver::<T>::try_recv,
                            (&old(self).channel(),),
                            polled,
                        )
                        &&& final(self).peeked() == held_back(None, polled)
                    },
            },
            match message {
                Some(message) => final(self).peeked() == Some(*message),
                None => final(self).peeked() is None,
            },
            final(self).channel() == old(self).channel(),
    {
        if self.peeked.is_none() {
            let polled = self.rx.try_recv();
            assert(call_ensures(Receiver::<T>::try_recv, (&old(self).channel(),), polled));
            self.peeked = hold_back(None, polled);
        }
        self.peeked.as_ref()
    }

    /// Receive the next message if one is waiting.
    ///
    /// This is the message that is held back, or else the one that the channel
    /// delivers.
    pub fn recv(&mut self) -> (received: Result<Option<T>, ChannelClosed>)
        ensures
            match old(self).peeked() {
                Some(held) => received == Ok::<Option<T>, ChannelClosed>(Some(held)),
                None => exists|polled: Result<T, TryRecvError>|
                    {
                        &&& #[trigger] call_ensures(
                            Receiver::<T>::try_recv,
                            (&old(self).channel(),),
                            polled,
                        )
                        &&& received == handed_out(None, polled)
                    },
            },
            final(self).peeked() is None,
            final(self).channel() == old(self).channel(),
    {
        if self.peeked.is_some() {
            Ok(self.peeked.take())
        } else {
            let polled = self.rx.try_recv();
            assert(call_ensures(Receiver::<T>::try_recv, (&old(self).channel(),), polled));
            hand_out(None, polled)
        }
    }
}

/// A channel which some sender still holds, with its peekable receiver.
#[verifier::ext_equal]
pub struct Conversation<T> {
    /// Every message that was sent, in order.
    pub sent: Seq<T>,
    /// The messages in the channel, oldest first.
    pub waiting: Seq<T>,
    /// The message which was looked at but not received yet.
    pub peeked: Option<T>,
    /// Every message that was received, in order.
    pub received: Seq<T>,
}

/// Something that happens to a channel.
pub enum ChannelUse<T> {
    Send(T),
    Peek,
    Recv,
}

/// What a channel with the messages `waiting` delivers: the oldest of them.
pub open spec fn delivery<T>(waiting: Seq<T>) -> Result<T, TryRecvError> {
    if waiting.len() == 0 {
        Err(TryRecvError::Empty)
    } else {
        Ok(waiting[0])
    }
}

impl<T> Conversation<T> {
    /// Nothing was sent yet.
    pub open spec fn initial() -> Conversation<T> {
        Conversation {
            sent: Seq::empty(),
            waiting: Seq::empty(),
            peeked: None,
            received: Seq::empty(),
        }
    }

    /// The messages which were sent but not received, oldest first.
    pub open spec fn outstanding(self) -> Seq<T> {
        match self.peeked {
            Some(message) => seq![message] + self.waiting,
            None => self.waiting,
        }
    }

    /// The messages in the channel after the receiver turned to it. It does so
    /// only if nothing is held back.
    pub open spec fn left(self) -> Seq<T> {
        if self.peeked is None && self.waiting.len() > 0 {
            self.waiting.drop_first()
        } else {
            self.waiting
        }
    }

    /// What receiving returns.
    pub open spec fn next(self) -> Result<Option<T>, ChannelClosed> {
        handed_out(self.peeked, delivery(self.waiting))
    }

    /// What a look shows.
    pub open spec fn shown(self) -> Option<T> {
        held_back(self.peeked, delivery(self.waiting))
    }

    /// The conversation after one more thing happened.
    pub open spec fn after(self, what: ChannelUse<T>) -> Conversation<T> {
        match what {
            ChannelUse::Send(message) => Conversation {
                sent: self.sent.push(message),
                waiting: self.waiting.push(message),
                ..self
            },
            ChannelUse::Peek => Conversation { peeked: self.shown(), waiting: self.left(), ..self },
            ChannelUse::Recv => Conversation {
                peeked: None,
                waiting: self.left(),
                received: match self.next() {
                    Ok(Some(message)) => self.received.push(message),
                    _ => self.received,
                },
                ..self
            },
        }
    }
}

/// A conversation after `uses` happened to its channel, in this order.
pub open spec fn conversation<T>(uses: Seq<ChannelUse<T>>) -> Conversation<T>
    decreases uses.len(),
{
    if uses.len() == 0 {
        Conversation::initial()
    } else {
        conversation(uses.drop_last()).after(uses.last())
    }
}

/// Messages are received in the order in which they were sent, none lost,
/// doubled or overtaken, however looks and receives alternate: what was
/// received, what is held back and what is in the channel together are what
/// was sent.
pub proof fn law_messages_are_received_in_order<T>(uses: Seq<ChannelUse<T>>)
    ensures
        conversation(uses).received + conversation(uses).outstanding() == conversation(uses).sent,
    decreases uses.len(),
{
    if uses.len() > 0 {
        law_messages_are_received_in_order(uses.drop_last());
        let before = conversation(uses.drop_last());
        let after = conversation(uses);
        match uses.last() {
            ChannelUse::Send(message) => {
                assert(after.outstanding() =~= before.outstanding().push(message));
            },
            ChannelUse::Peek => {
                law_peek_shows_the_first_message(before);
            },
            ChannelUse::Recv => {
                law_recv_takes_the_first_message(before);
                if before.outstanding().len() > 0 {
                    assert(before.outstanding() =~= seq![before.outstanding()[0]]
                        + after.outstanding());
                }
            },
        }
        assert(after.received + after.outstanding() =~= after.sent);
    } else {
        assert(conversation(uses).received + conversation(uses).outstanding()
            =~= conversation(uses).sent);
    }
}

/// A look shows the first of the messages which were not received yet, if
/// there are any, and takes none of them away; another look shows the same
/// message, and it is the next one received.
pub proof fn law_peek_shows_the_first_message<T>(c: Conversation<T>)
    ensures
        c.shown() == if c.outstanding().len() > 0 {
            Some(c.outstanding()[0])
        } else {
            None
        },
        c.after(ChannelUse::Peek).peeked == c.shown(),
        c.after(ChannelUse::Peek).outstanding() == c.outstanding(),
        c.after(ChannelUse::Peek).shown() == c.shown(),
        c.after(ChannelUse::Peek).next() == Ok::<Option<T>, ChannelClosed>(c.shown()),
{
    assert(c.after(ChannelUse::Peek).outstanding() =~= c.outstanding());
}

/// The first of the messages which were not received yet is received and
/// taken away; nothing is received exactly when all messages were.
pub proof fn law_recv_takes_the_first_message<T>(c: Conversation<T>)
    ensures
        c.next() == Ok::<Option<T>, ChannelClosed>(
            if c.outstanding().len() > 0 {
                Some(c.outstanding()[0])
            } else {
                None
            },
        ),
        c.after(ChannelUse::Recv).outstanding() == if c.outstanding().len() > 0 {
            c.outstanding().drop_first()
        } else {
            c.outstanding()
        },
{
    if c.outstanding().len() > 0 {
        assert(c.after(ChannelUse::Recv).outstanding() =~= c.outstanding().drop_first());
    }
}

/// A message that is held back is received next, and seen by further looks,
/// whatever the channel delivers by then, even that it is closed.
pub proof fn law_peeked_message_is_received_next<T>(message: T, polled: Result<T, TryRecvError>)
    ensures
        handed_out(Some(message), polled) == Ok::<Option<T>, ChannelClosed>(Some(message)),
        held_back(Some(message), polled) == Some(message),
{
}

/// Receiving reports a closed channel exactly if the channel is closed and no
/// message is held back, and receives nothing exactly if the channel is empty
/// and no message is held back.
pub proof fn law_closed_channel_is_reported<T>(peeked: Option<T>, polled: Result<T, TryRecvError>)
    ensures
        handed_out(peeked, polled) is Err <==> peeked is None && polled == Err::<T, TryRecvError>(
            TryRecvError::Disconnected,
        ),
        handed_out(peeked, polled) == Ok::<Option<T>, ChannelClosed>(None) <==> peeked is None
            && polled == Err::<T, TryRecvError>(TryRecvError::Empty),
        held_back(peeked, polled) is None <==> peeked is None && polled is Err,
{
}

} // verus!
