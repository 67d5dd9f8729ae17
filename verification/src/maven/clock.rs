//! The time, as the resolver counts it: milliseconds since a clock was
//! started.

use std::time::Duration;
use std::time::Instant;
use vstd::prelude::*;

verus! {

/// `std::time::Instant`, a reading of a clock that does not go back.
#[verifier::external_type_specification]
#[verifier::external_body]
pub struct ExInstant(std::time::Instant);

/// `Instant::now`: the reading of this moment.
#[verifier::external_body]
fn instant_now() -> (reading: Instant) {
    Instant::now()
}

/// `Instant::elapsed`: the time that has passed since the reading.
#[verifier::external_body]
fn instant_elapsed(reading: &Instant) -> (passed: Duration) {
    reading.elapsed()
}

/// `Duration::as_millis`: the whole milliseconds of a length of time.
#[verifier::external_body]
fn duration_millis(passed: Duration) -> (millis: u128) {
    passed.as_millis()
}

/// A count of milliseconds as the resolver keeps it: the count itself where
/// it fits, `u64::MAX` where it does not.
pub open spec fn clamped(millis: u128) -> u64 {
    if millis > u64::MAX {
        u64::MAX
    } else {
        millis as u64
    }
}

/// A count of milliseconds as the resolver keeps it.
pub fn clamp_millis(millis: u128) -> (time: u64)
    ensures
        time == clamped(millis),
{
    if millis > 0xffff_ffff_ffff_ffff {
        u64::MAX
    } else {
        millis as u64
    }
}

/// A clock that counts the milliseconds since it was started.
pub struct Clock {
    started: Instant,
}

impl Clock {
    /// A clock started now.
    pub fn start() -> Clock {
        Clock { started: instant_now() }
    }

    /// The milliseconds since the clock was started, whatever they are, as
    /// `clamp_millis` keeps them. Nothing holds of every reading of a clock.
    pub fn now(&self) -> u64 {
        clamp_millis(duration_millis(instant_elapsed(&self.started)))
    }
}

} // verus!
