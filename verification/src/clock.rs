//! The monotonic clock of a test run.
//!
//! Time is read as the nanoseconds that have passed since the clock was
//! started. Nothing is promised of a reading: what is done with one is
//! verified for every value it may have.

use vstd::prelude::*;

verus! {

/// Declares tokio's `Instant`, a moment on the monotonic clock, so that a
/// [`Clock`] can hold one. Nothing is said of what it holds.
#[verifier::external_type_specification]
#[verifier::external_body]
pub struct ExInstant(tokio::time::Instant);

/// A monotonic clock that counts from the moment it was started.
pub struct Clock {
    origin: tokio::time::Instant,
}

/// Calls `Instant::now`: the present moment.
#[verifier::external_body]
fn instant_now() -> tokio::time::Instant {
    tokio::time::Instant::now()
}

/// Calls `Instant::elapsed` on `origin` and `Duration::as_nanos` on the
/// result: the nanoseconds since `origin`.
#[verifier::external_body]
fn nanos_since(origin: &tokio::time::Instant) -> u128 {
    origin.elapsed().as_nanos()
}

impl Clock {
    /// Starts a clock now.
    pub fn start() -> Clock {
        Clock { origin: instant_now() }
    }

    /// Nanoseconds since the clock was started.
    pub fn now(&self) -> u128 {
        nanos_since(&self.origin)
    }
}

} // verus!
