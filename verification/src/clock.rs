//! Time, in nanoseconds.

use std::time::Instant;
use vstd::prelude::*;

verus! {

/// One millisecond.
pub const MILLISECOND: u64 = 1_000_000;

/// One second.
pub const SECOND: u64 = 1_000_000_000;

/// `std::time::Instant`, a reading of the monotonic clock.
#[verifier::external_type_specification]
#[verifier::external_body]
pub struct ExInstant(std::time::Instant);

/// `Instant::now`. Nothing is promised of the reading.
#[verifier::external_body]
fn instant_now() -> Instant {
    Instant::now()
}

/// `Instant::elapsed`, in nanoseconds. Nothing is promised of the reading.
#[verifier::external_body]
fn elapsed_nanos(since: &Instant) -> u64 {
    since.elapsed().as_nanos() as u64
}

/// A clock that counts nanoseconds from its start.
pub struct Clock {
    start: Instant,
}

impl Clock {
    /// Starts a clock.
    pub(crate) fn start() -> Clock {
        Clock { start: instant_now() }
    }

    /// Nanoseconds since the start. Two readings may be the same, and nothing
    /// is promised of their order.
    pub(crate) fn now(&self) -> u64 {
        elapsed_nanos(&self.start)
    }
}

/// Nanoseconds from `since` to `now`; zero if the clock seems to have gone back.
pub open spec fn elapsed(since: u64, now: u64) -> u64 {
    if now >= since {
        (now - since) as u64
    } else {
        0
    }
}

/// What has elapsed is what is to be added to the start; nothing has if the
/// clock seems to have gone back.
pub proof fn law_elapsed(since: u64, now: u64)
    ensures
        since <= now ==> since + elapsed(since, now) == now,
        now <= since ==> elapsed(since, now) == 0,
{
}

} // verus!
