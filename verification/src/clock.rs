//! The server's clock.
use std::time::Instant;
use vstd::prelude::*;

verus! {

#[verifier::external_type_specification]
#[verifier::external_body]
pub struct ExInstant(std::time::Instant);

/// The nanoseconds of a second.
pub const SECOND: u64 = 1_000_000_000;

/// The reading of a clock that has just been started: a day, so that a time
/// shortly before can be written down too.
pub const CLOCK_START: u64 = 86_400_000_000_000;

/// `Instant::now`: the present moment.
pub assume_specification[ std::time::Instant::now ]() -> Instant
;

/// `Instant::elapsed`: the nanoseconds that have passed since `origin`.
/// What it returns is up to the time of the call.
#[verifier::external_body]
fn nanos_since(origin: &Instant) -> u128 {
    origin.elapsed().as_nanos()
}

/// Whether `Instant::elapsed` has given this number of nanoseconds since `origin`.
pub closed spec fn has_passed(origin: Instant, passed: u128) -> bool {
    call_ensures(nanos_since, (&origin,), passed)
}

/// What a clock reads when this many nanoseconds have passed since it was
/// started. It stops at the largest reading, after some centuries.
pub open spec fn reading_of(passed: u128) -> u64 {
    if CLOCK_START + passed <= u64::MAX {
        (CLOCK_START + passed) as u64
    } else {
        u64::MAX
    }
}

/// Computes what a clock reads when this many nanoseconds have passed since it
/// was started.
pub fn reading(passed: u128) -> (t: u64)
    ensures
        t == reading_of(passed),
{
    if passed > (u64::MAX - CLOCK_START) as u128 {
        u64::MAX
    } else {
        CLOCK_START + passed as u64
    }
}

/// Whether this is a reading that a clock has given.
pub open spec fn is_reading(clock: Clock, now: u64) -> bool {
    call_ensures(Clock::now, (&clock,), now)
}

/// A clock that counts nanoseconds from the moment at which it is started.
pub struct Clock {
    origin: Instant,
}

impl Clock {
    /// The moment at which the clock was started.
    pub closed spec fn origin(self) -> Instant {
        self.origin
    }

    /// Starts a clock at the moment that `Instant::now` gives.
    pub fn start() -> (c: Clock)
        ensures
            call_ensures(Instant::now, (), c.origin()),
    {
        Clock { origin: Instant::now() }
    }

    /// Reads the clock.
    pub fn now(&self) -> (t: u64)
        ensures
            t >= CLOCK_START,
            exists|passed: u128| #[trigger]
                has_passed(self.origin(), passed) && t == reading_of(passed),
    {
        let passed = nanos_since(&self.origin);
        assert(has_passed(self.origin(), passed));
        reading(passed)
    }
}

} // verus!
