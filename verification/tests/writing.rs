use std::borrow::Cow;

use terminal_loop::event::{IoErrorKind, IoFailure};
use terminal_loop::event_loop::state::WriteStep;
use terminal_loop::event_loop::writing::{buffer_len, Writing};
use terminal_loop::event_loop::State;

fn failure(kind: IoErrorKind) -> IoFailure {
    IoFailure { kind, raw_os_error: None }
}

#[test]
fn writing_tracks_progress() {
    let mut writing = Writing::new(Cow::Borrowed(b"hello"));
    assert_eq!(writing.remaining_bytes(), b"hello");
    assert!(!writing.finished());
    writing.advance(2);
    assert_eq!(writing.remaining_bytes(), b"llo");
    assert!(writing.has_room_for(usize::MAX - 2));
    assert!(!writing.has_room_for(usize::MAX - 1));
    assert!(!writing.finished());
    writing.advance(3);
    assert_eq!(writing.remaining_bytes(), b"");
    assert!(writing.finished());
}

#[test]
fn writing_past_the_end_is_finished() {
    let mut writing = Writing::new(Cow::Owned(vec![1, 2]));
    writing.advance(9);
    assert!(writing.finished());
}

#[test]
fn empty_writing_is_finished() {
    assert!(Writing::new(Cow::Borrowed(b"")).finished());
}

#[test]
fn buffer_length_of_borrowed_and_owned() {
    assert_eq!(buffer_len(&Cow::Borrowed(b"abc")), 3);
    assert_eq!(buffer_len(&Cow::Owned(vec![0; 7])), 7);
}

#[test]
fn default_state_has_nothing_to_write() {
    let state = State::default();
    assert!(!state.needs_write());
    assert_eq!(state.outgoing(), b"");
    assert_eq!(state.sync_bytes_count(), 0);
}

#[test]
fn buffers_are_taken_in_order() {
    let mut state = State::default();
    state.push_input(Cow::Borrowed(b"one"));
    state.push_input(Cow::Borrowed(b"two"));
    assert!(state.needs_write());
    assert_eq!(state.outgoing(), b"");
    state.ensure_next();
    assert_eq!(state.outgoing(), b"one");
    state.ensure_next();
    assert_eq!(state.outgoing(), b"one");
    state.goto_next();
    assert_eq!(state.outgoing(), b"two");
    state.goto_next();
    assert_eq!(state.outgoing(), b"");
    assert!(!state.needs_write());
}

#[test]
fn current_buffer_can_be_taken_and_put_back() {
    let mut state = State::default();
    assert!(state.take_current().is_none());
    state.push_input(Cow::Borrowed(b"abc"));
    state.ensure_next();
    let mut current = state.take_current().unwrap();
    assert!(!state.needs_write());
    current.advance(1);
    state.set_current(Some(current));
    assert!(state.needs_write());
    assert_eq!(state.outgoing(), b"bc");
    state.set_current(None);
    assert!(!state.needs_write());
}

#[test]
fn partial_write_keeps_the_rest() {
    let mut state = State::default();
    state.push_input(Cow::Borrowed(b"abcdef"));
    state.ensure_next();
    assert_eq!(state.pty_write(Ok(4)), WriteStep::Again);
    assert_eq!(state.outgoing(), b"ef");
    assert_eq!(state.pty_write(Ok(2)), WriteStep::Done);
    assert!(!state.needs_write());
}

#[test]
fn finished_buffer_makes_room_for_the_next() {
    let mut state = State::default();
    state.push_input(Cow::Borrowed(b"ab"));
    state.push_input(Cow::Borrowed(b"cd"));
    state.ensure_next();
    assert_eq!(state.pty_write(Ok(2)), WriteStep::Again);
    assert_eq!(state.outgoing(), b"cd");
}

#[test]
fn refused_and_failed_writes_lose_nothing() {
    let mut state = State::default();
    state.push_input(Cow::Borrowed(b"ab"));
    state.ensure_next();
    assert_eq!(state.pty_write(Ok(0)), WriteStep::Done);
    assert_eq!(state.outgoing(), b"ab");
    assert_eq!(state.pty_write(Err(failure(IoErrorKind::Interrupted))), WriteStep::Done);
    assert_eq!(state.outgoing(), b"ab");
    assert_eq!(state.pty_write(Err(failure(IoErrorKind::WouldBlock))), WriteStep::Done);
    assert_eq!(state.outgoing(), b"ab");
    assert_eq!(state.pty_write(Err(failure(IoErrorKind::Other))), WriteStep::Failed);
    assert_eq!(state.outgoing(), b"ab");
    assert!(state.needs_write());
}

#[test]
fn room_for_written_bytes_ends_at_the_largest_number() {
    let mut state = State::default();
    state.push_input(Cow::Borrowed(b"abc"));
    state.ensure_next();
    assert!(state.has_room_for(usize::MAX));
    state.pty_write(Ok(1));
    assert!(!state.has_room_for(usize::MAX));
    assert!(state.has_room_for(usize::MAX - 1));
}
