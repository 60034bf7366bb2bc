use std::borrow::Cow;
use std::cell::Cell;
use std::io;
use std::sync::mpsc::{self, TryRecvError};

use terminal_loop::event::WindowSize;
use terminal_loop::event_loop::receiver::{hand_out, hold_back, ChannelClosed};
use terminal_loop::event_loop::sender::conclude_send;
use terminal_loop::event_loop::{
    EventLoopSendError, EventLoopSender, Msg, Notifier, PeekableReceiver,
};

const SIZE: WindowSize =
    WindowSize { num_lines: 24, num_cols: 80, cell_width: 8, cell_height: 16 };

#[test]
fn peeked_message_is_received_next() {
    let (tx, rx) = mpsc::channel();
    let mut receiver = PeekableReceiver::new(rx);
    assert_eq!(receiver.peek(), None);
    tx.send(1).unwrap();
    tx.send(2).unwrap();
    assert_eq!(receiver.peek(), Some(&1));
    assert_eq!(receiver.peek(), Some(&1));
    assert_eq!(receiver.recv(), Ok(Some(1)));
    assert_eq!(receiver.recv(), Ok(Some(2)));
    assert_eq!(receiver.recv(), Ok(None));
}

#[test]
fn closed_channel_is_reported_by_receiving_alone() {
    let (tx, rx) = mpsc::channel();
    let mut receiver = PeekableReceiver::new(rx);
    tx.send(7).unwrap();
    drop(tx);
    assert_eq!(receiver.peek(), Some(&7));
    assert_eq!(receiver.recv(), Ok(Some(7)));
    assert_eq!(receiver.peek(), None);
    assert_eq!(receiver.recv(), Err(ChannelClosed));
}

#[test]
fn looks_and_receives_in_any_order() {
    let (tx, rx) = mpsc::channel();
    let mut receiver = PeekableReceiver::new(rx);
    let mut received = Vec::new();
    for n in 0..20 {
        tx.send(n).unwrap();
        if n % 3 == 0 {
            assert_eq!(receiver.peek().copied(), Some(received.len()));
        }
        if n % 4 != 0 {
            received.extend(receiver.recv().unwrap());
        }
    }
    while let Ok(Some(message)) = receiver.recv() {
        received.push(message);
        receiver.peek();
    }
    assert_eq!(received, (0..20).collect::<Vec<usize>>());
}

#[test]
fn held_back_message_comes_first() {
    assert_eq!(hold_back(Some(1), Ok(2)), Some(1));
    assert_eq!(hold_back(None, Ok(2)), Some(2));
    assert_eq!(hold_back::<i32>(None, Err(TryRecvError::Empty)), None);
    assert_eq!(hold_back::<i32>(None, Err(TryRecvError::Disconnected)), None);
    assert_eq!(hand_out(Some(1), Err(TryRecvError::Disconnected)), Ok(Some(1)));
    assert_eq!(hand_out(None, Ok(2)), Ok(Some(2)));
    assert_eq!(hand_out::<i32>(None, Err(TryRecvError::Empty)), Ok(None));
    assert_eq!(hand_out::<i32>(None, Err(TryRecvError::Disconnected)), Err(ChannelClosed));
}

#[test]
fn sent_message_arrives_and_wakes_the_loop() {
    let (tx, rx) = mpsc::channel();
    let sender = EventLoopSender::new(tx).clone();
    let woken = Cell::new(0);
    let result = sender.send(Msg::Shutdown, || {
        woken.set(woken.get() + 1);
        Ok(())
    });
    assert!(result.is_ok());
    assert_eq!(woken.get(), 1);
    assert!(matches!(rx.try_recv(), Ok(Msg::Shutdown)));
}

#[test]
fn message_to_a_dead_loop_comes_back() {
    let (tx, rx) = mpsc::channel();
    drop(rx);
    let sender = EventLoopSender::new(tx);
    let woken = Cell::new(0);
    let result = sender.send(Msg::Resize(SIZE), || {
        woken.set(woken.get() + 1);
        Ok(())
    });
    assert_eq!(woken.get(), 0);
    match result {
        Err(EventLoopSendError::Send(error)) => {
            assert!(matches!(error.0, Msg::Resize(size) if size == SIZE));
            assert_eq!(
                EventLoopSendError::Send(error).fmt(),
                "sending on a closed channel"
            );
        },
        _ => panic!("the message was not given back"),
    }
}

#[test]
fn failed_wakeup_is_reported() {
    let (tx, rx) = mpsc::channel();
    let sender = EventLoopSender::new(tx);
    let result = sender.send(Msg::Shutdown, || Err(io::Error::new(io::ErrorKind::Other, "no poller")));
    match result {
        Err(error) => {
            assert!(matches!(error, EventLoopSendError::Io(_)));
            assert_eq!(error.fmt(), "no poller");
        },
        Ok(()) => panic!("the failure was dropped"),
    }
    assert!(matches!(rx.try_recv(), Ok(Msg::Shutdown)));
}

#[test]
fn poller_is_notified_only_of_sent_messages() {
    let woken = Cell::new(false);
    let refused = conclude_send(Err(mpsc::SendError(Msg::Shutdown)), || {
        woken.set(true);
        Ok(())
    });
    assert!(matches!(refused, Err(EventLoopSendError::Send(mpsc::SendError(Msg::Shutdown)))));
    assert!(!woken.get());
    let accepted = conclude_send(Ok(()), || {
        woken.set(true);
        Ok(())
    });
    assert!(accepted.is_ok());
    assert!(woken.get());
}

#[test]
fn empty_input_makes_no_message() {
    assert!(Msg::input(Cow::Borrowed(b"")).is_none());
    assert!(Msg::input(Cow::Owned(Vec::new())).is_none());
    match Msg::input(Cow::Borrowed(b"x")) {
        Some(Msg::Input(bytes)) => assert_eq!(&bytes[..], b"x"),
        _ => panic!("no message"),
    }
}

#[test]
fn notifier_sends_input_and_sizes() {
    let (tx, rx) = mpsc::channel();
    let mut notifier = Notifier(EventLoopSender::new(tx));
    assert!(notifier.notify(Cow::Borrowed(b""), || Ok(())).is_none());
    assert!(rx.try_recv().is_err());
    assert!(matches!(notifier.notify(Cow::Borrowed(b"ls\n"), || Ok(())), Some(Ok(()))));
    assert!(matches!(rx.try_recv(), Ok(Msg::Input(bytes)) if &bytes[..] == b"ls\n"));
    assert!(notifier.on_resize(SIZE, || Ok(())).is_ok());
    assert!(matches!(rx.try_recv(), Ok(Msg::Resize(size)) if size == SIZE));
}
