# terminal_loop

The decisions of a terminal emulator's PTY event loop, verified with Verus.

The library performs no I/O. `event_loop::EventLoop` says what has to be done
next (poll, read, parse, write, announce an event, ...), is told how that went,
and says what comes after. Everything it decides is stated in contracts over
plain models and proved.

- `src/event_loop/machine.rs`: the event loop; `laws.rs` beside it states what
  holds of every run of it.
- `src/event_loop/pty_read.rs`: one round of reading from the PTY.
- `src/event_loop/state.rs`, `writing.rs`: what waits to be written.
- `src/event_loop/tail.rs`: draining the last output of a child by the clock.
- `src/event_loop/receiver.rs`, `sender.rs`, `msg.rs`: the message channel.
- `src/term/`: a terminal's lines, and their correction after a resize under
  conpty (`windows.rs`), with its laws in `laws.rs`.
- `app/`: runs the loop on a real poller, PTY and parser, and logs what happens.
- `tests/`: the library on concrete values.
