//! Draining the output which a child process left behind.
//!
//! Where the end of the output cannot be told from a pause, the child's last
//! output is taken to have arrived once the PTY stayed silent for a while.
//! The output of a dead child is bounded, so it does end.

use vstd::prelude::*;

use crate::event::IoFailure;
use crate::event_loop::clock::{elapsed, time_elapsed};

verus! {

/// A pause of this many nanoseconds is read as the end of the output.
pub const QUIET_WINDOW: u128 = 50_000_000;

/// The draining is given up after this many nanoseconds.
pub const HARD_CAP: u128 = 60_000_000_000;

/// Nanoseconds to sleep before looking for output again.
pub const POLL_PAUSE: u128 = 2_000_000;

/// What to do after one round of reading the last output.
#[derive(Clone, Copy, Debug, PartialEq, Eq, Structural)]
pub enum TailStep {
    /// Read again.
    Read,
    /// Sleep for [`POLL_PAUSE`] and read again.
    Pause,
    /// The output has ended.
    Drained,
}

/// When the draining began and when output was last seen.
#[derive(Clone, Copy, Debug, PartialEq, Eq, Structural)]
pub struct TailDrain {
    pub started: u128,
    pub last_data: u128,
}

impl TailDrain {
    /// Begin to drain.
    pub fn new(started: u128) -> (tail: TailDrain)
        ensures
            tail == (TailDrain { started, last_data: started }),
    {
        TailDrain { started, last_data: started }
    }

    /// Whether the draining has taken too long.
    pub open spec fn overdue(self, now: u128) -> bool {
        elapsed(self.started, now) >= HARD_CAP
    }

    /// Whether the draining has taken too long.
    pub fn is_overdue(&self, now: u128) -> (overdue: bool)
        ensures
            overdue == self.overdue(now),
    {
        time_elapsed(self.started, now) >= HARD_CAP
    }

    /// What to do after a round of reading, which began at `now`.
    pub open spec fn step(self, now: u128, outcome: Result<usize, IoFailure>) -> TailStep {
        match outcome {
            Ok(0) => if elapsed(self.last_data, now) >= QUIET_WINDOW {
                TailStep::Drained
            } else {
                TailStep::Pause
            },
            Ok(_) => TailStep::Read,
            Err(_) => TailStep::Drained,
        }
    }

    /// The draining after a round of reading, which began at `now`.
    pub open spec fn after(self, now: u128, outcome: Result<usize, IoFailure>) -> TailDrain {
        if outcome matches Ok(count) && count > 0 {
            TailDrain { started: self.started, last_data: now }
        } else {
            self
        }
    }

    /// Account for a round of reading, which began at `now`, and say how to go
    /// on.
    pub fn resume(&mut self, now: u128, outcome: Result<usize, IoFailure>) -> (step: TailStep)
        ensures
            *final(self) == old(self).after(now, outcome),
            step == old(self).step(now, outcome),
    {
        match outcome {
            Ok(0) => if time_elapsed(self.last_data, now) >= QUIET_WINDOW {
                TailStep::Drained
            } else {
                TailStep::Pause
            },
            Ok(_) => {
                self.last_data = now;
                TailStep::Read
            },
            Err(_) => TailStep::Drained,
        }
    }
}

/// One round of reading the last output: when it began and what it returned.
pub struct TailRound {
    pub now: u128,
    pub outcome: Result<usize, IoFailure>,
}

/// Whether a round delivered output.
pub open spec fn delivered(round: TailRound) -> bool {
    round.outcome matches Ok(count) && count > 0
}

/// The draining after the rounds in `trace`.
pub open spec fn drained(started: u128, trace: Seq<TailRound>) -> TailDrain
    decreases trace.len(),
{
    if trace.len() == 0 {
        TailDrain { started, last_data: started }
    } else {
        drained(started, trace.drop_last()).after(trace.last().now, trace.last().outcome)
    }
}

/// Silence ends the draining only after a whole quiet window: it neither began
/// nor delivered output in a round that began less than [`QUIET_WINDOW`] ago.
pub proof fn law_silence_lasts_a_quiet_window(started: u128, trace: Seq<TailRound>, now: u128)
    requires
        drained(started, trace).step(now, Ok(0)) is Drained,
        forall|j: int, k: int| 0 <= j <= k < trace.len() ==> trace[j].now <= trace[k].now,
        forall|j: int| 0 <= j < trace.len() ==> started <= #[trigger] trace[j].now,
    ensures
        started + QUIET_WINDOW <= now,
        forall|i: int|
            0 <= i < trace.len() && delivered(#[trigger] trace[i]) ==> trace[i].now + QUIET_WINDOW
                <= now,
{
    lemma_last_data(started, trace);
}

/// A round without output ends the draining if there was none for a whole
/// quiet window.
pub proof fn law_quiet_window_ends_the_draining(started: u128, trace: Seq<TailRound>, now: u128)
    requires
        started + QUIET_WINDOW <= now,
        forall|i: int|
            0 <= i < trace.len() && delivered(#[trigger] trace[i]) ==> trace[i].now + QUIET_WINDOW
                <= now,
    ensures
        drained(started, trace).step(now, Ok(0)) is Drained,
    decreases trace.len(),
{
    if trace.len() > 0 {
        let before = trace.drop_last();
        assert forall|i: int| 0 <= i < before.len() && delivered(#[trigger] before[i]) implies before[i].now
            + QUIET_WINDOW <= now by {
            assert(before[i] == trace[i]);
        }
        law_quiet_window_ends_the_draining(started, before, now);
        assert(trace.last() == trace[trace.len() - 1]);
    }
}

/// No round with output began after the recorded one.
proof fn lemma_last_data(started: u128, trace: Seq<TailRound>)
    requires
        forall|j: int, k: int| 0 <= j <= k < trace.len() ==> trace[j].now <= trace[k].now,
        forall|j: int| 0 <= j < trace.len() ==> started <= #[trigger] trace[j].now,
    ensures
        started <= drained(started, trace).last_data,
        forall|i: int|
            0 <= i < trace.len() && delivered(#[trigger] trace[i]) ==> trace[i].now <= drained(
                started,
                trace,
            ).last_data,
        trace.len() > 0 ==> drained(started, trace).last_data <= trace.last().now,
    decreases trace.len(),
{
    if trace.len() > 0 {
        let before = trace.drop_last();
        assert forall|j: int| 0 <= j < before.len() implies started <= #[trigger] before[j].now by {
            assert(before[j] == trace[j]);
        }
        lemma_last_data(started, before);
        assert(trace.last() == trace[trace.len() - 1]);
        assert forall|i: int| 0 <= i < trace.len() && delivered(#[trigger] trace[i]) implies trace[i].now
            <= drained(started, trace).last_data by {
            if i < before.len() {
                assert(before[i] == trace[i]);
            }
        }
    }
}

/// The output is looked for many times in each quiet window, and a quiet
/// window is a small part of the time after which the draining is given up: 2,
/// 50 and 60000 ms.
pub proof fn law_times_of_the_draining()
    ensures
        POLL_PAUSE == 2_000_000,
        QUIET_WINDOW == 25 * POLL_PAUSE,
        HARD_CAP == 1_200 * QUIET_WINDOW,
{
}

} // verus!
