//! Times on a monotonic clock, in nanoseconds.

use vstd::prelude::*;

verus! {

/// Time between two readings of a monotonic clock, in nanoseconds.
pub open spec fn elapsed(since: u128, now: u128) -> int {
    if now >= since {
        now - since
    } else {
        0
    }
}

/// Time between two readings of a monotonic clock, in nanoseconds.
pub fn time_elapsed(since: u128, now: u128) -> (duration: u128)
    ensures
        duration == elapsed(since, now),
{
    if now >= since {
        now - since
    } else {
        0
    }
}

/// How long to wait for events, given the time at which a synchronized update
/// is to end: not at all once that time has come, and without limit while
/// there is no such update.
pub fn poll_timeout(sync_deadline: Option<u128>, now: u128) -> (timeout: Option<u128>)
    ensures
        match sync_deadline {
            Some(deadline) => timeout matches Some(duration) && duration == if deadline > now {
                deadline - now
            } else {
                0
            },
            None => timeout is None,
        },
{
    match sync_deadline {
        Some(deadline) => Some(time_elapsed(now, deadline)),
        None => None,
    }
}

} // verus!
