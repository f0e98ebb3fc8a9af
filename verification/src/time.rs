//! Time as plain numbers.

use vstd::prelude::*;

verus! {

/// A span of time, or an instant on a monotonic clock, in nanoseconds. The
/// clock's origin does not matter: only differences of instants are used.
pub type Nanos = u128;

/// One second.
pub const SECOND: Nanos = 1_000_000_000;

/// How much time has passed from `since` to `now`; zero when `now` is earlier.
pub open spec fn elapsed_at(since: Nanos, now: Nanos) -> Nanos {
    if now >= since {
        (now - since) as Nanos
    } else {
        0
    }
}

/// How much time has passed from `since` to `now`; zero when `now` is earlier.
pub fn elapsed(since: Nanos, now: Nanos) -> (r: Nanos)
    ensures
        r == elapsed_at(since, now),
{
    if now >= since {
        now - since
    } else {
        0
    }
}

/// Time never runs backwards: what has passed is the difference of the instants,
/// and nothing when the clock went back.
pub proof fn law_elapsed(since: Nanos, now: Nanos)
    ensures
        now >= since ==> since + elapsed_at(since, now) == now,
        now <= since ==> elapsed_at(since, now) == 0,
{
}

} // verus!
