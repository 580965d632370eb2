//! When to reconnect to a feed, and how long to wait before.

use vstd::prelude::*;

verus! {

/// The first wait, in seconds.
pub const INITIAL_BACKOFF_S: u64 = 1;

/// The longest wait, in seconds.
pub const MAX_BACKOFF_S: u64 = 30;

/// A connection that stays silent this many seconds is given up.
pub const RECV_TIMEOUT_S: u64 = 30;

/// What became of a feed.
#[derive(Debug, Clone, Copy, PartialEq, Eq, Structural)]
pub enum SessionEvent {
    /// The feed was told to stop.
    Stopped,
    /// The connection ended in good order.
    Ended,
    /// The connection failed.
    Failed,
}

/// What to do next.
#[derive(Debug, Clone, Copy, PartialEq, Eq, Structural)]
pub enum SessionAction {
    /// Leave.
    Exit,
    /// Connect at once.
    Reconnect,
    /// Wait so many seconds, then connect.
    WaitThenReconnect(u64),
}

/// A wait is within its bounds.
pub open spec fn backoff_in_bounds(backoff_s: u64) -> bool {
    INITIAL_BACKOFF_S <= backoff_s <= MAX_BACKOFF_S
}

/// The wait after the next failure.
pub open spec fn backoff_after(event: SessionEvent, backoff_s: u64) -> u64 {
    match event {
        SessionEvent::Stopped => backoff_s,
        SessionEvent::Ended => INITIAL_BACKOFF_S,
        SessionEvent::Failed => if 2 * backoff_s <= MAX_BACKOFF_S {
            (2 * backoff_s) as u64
        } else {
            MAX_BACKOFF_S
        },
    }
}

/// What to do next, and the wait after the next failure: a failure waits, twice
/// as long each time up to a limit, and a connection that ended in good order
/// starts over.
pub fn next_session(event: SessionEvent, backoff_s: u64) -> (r: (SessionAction, u64))
    requires
        backoff_in_bounds(backoff_s),
    ensures
        r.0 == (match event {
            SessionEvent::Stopped => SessionAction::Exit,
            SessionEvent::Ended => SessionAction::Reconnect,
            SessionEvent::Failed => SessionAction::WaitThenReconnect(backoff_s),
        }),
        r.1 == backoff_after(event, backoff_s),
        backoff_in_bounds(r.1),
{
    match event {
        SessionEvent::Stopped => (SessionAction::Exit, backoff_s),
        SessionEvent::Ended => (SessionAction::Reconnect, INITIAL_BACKOFF_S),
        SessionEvent::Failed => {
            let doubled: u64 = backoff_s * 2;
            let next: u64 = if doubled <= MAX_BACKOFF_S {
                doubled
            } else {
                MAX_BACKOFF_S
            };
            (SessionAction::WaitThenReconnect(backoff_s), next)
        },
    }
}

/// The wait after `n` failures in a row.
pub open spec fn backoff_after_failures(n: nat) -> u64
    decreases n,
{
    if n == 0 {
        INITIAL_BACKOFF_S
    } else {
        backoff_after(SessionEvent::Failed, backoff_after_failures((n - 1) as nat))
    }
}

/// Law: from the fifth failure in a row on, every wait is the longest one.
pub proof fn backoff_settles(n: nat)
    requires
        n >= 5,
    ensures
        backoff_after_failures(n) == MAX_BACKOFF_S,
    decreases n,
{
    if n == 5 {
        reveal_with_fuel(backoff_after_failures, 6);
    } else {
        backoff_settles((n - 1) as nat);
    }
}

/// Law: the waits between failures in a row are one second, then twice the one before, but
/// never more than thirty; a connection that ended in good order starts over at one
/// second, and a feed that was told to stop changes nothing.
pub proof fn waits_double_up_to_half_a_minute(backoff_s: u64)
    requires
        1 <= backoff_s <= 30,
    ensures
        backoff_after_failures(0) == 1,
        backoff_s <= 15 ==> backoff_after(SessionEvent::Failed, backoff_s) == 2 * backoff_s,
        backoff_s > 15 ==> backoff_after(SessionEvent::Failed, backoff_s) == 30,
        backoff_after(SessionEvent::Ended, backoff_s) == 1,
        backoff_after(SessionEvent::Stopped, backoff_s) == backoff_s,
        backoff_in_bounds(backoff_s),
{
}

} // verus!
