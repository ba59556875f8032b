//! The monotonic clock by which heartbeats are measured.

use std::time::{Duration, Instant};
use vstd::prelude::*;

verus! {

/// A reading of the system's monotonic clock (`std::time::Instant`), of
/// which nothing is known but that it can be carried around.
#[verifier::external_type_specification]
#[verifier::external_body]
pub struct ExInstant(Instant);

/// Calls `std::time::Instant::now`. The reading depends on when it is taken,
/// so nothing is claimed of it.
#[verifier::external_body]
fn read_clock() -> (reading: Instant) {
    Instant::now()
}

/// Calls `std::time::Instant::saturating_duration_since`: the time from an
/// earlier reading to a later one, or no time at all if the readings are the
/// other way round. Nothing is claimed of the span.
#[verifier::external_body]
fn span_between(later: &Instant, earlier: &Instant) -> (span: Duration) {
    later.saturating_duration_since(*earlier)
}

/// Calls `std::time::Duration::as_millis`: the whole milliseconds of a span
/// of time. Nothing is claimed of the number.
#[verifier::external_body]
fn whole_millis(span: &Duration) -> (millis: u128) {
    span.as_millis()
}

/// A monotonic clock that counts milliseconds from the moment it was
/// started. It does not follow the time of day, which may jump, and it never
/// gives a reading below one that it has given before.
pub struct Stopwatch {
    origin: Instant,
    latest: u128,
}

impl Stopwatch {
    /// Starts a clock at zero: it has given no reading yet.
    pub fn start() -> (clock: Stopwatch)
        ensures
            clock@ == 0,
    {
        Stopwatch { origin: read_clock(), latest: 0 }
    }

    /// The milliseconds since the clock was started, and at least the reading
    /// that the clock gave last. The clock keeps the reading as its latest.
    pub fn millis(&mut self) -> (millis: u128)
        ensures
            old(self)@ <= millis,
            final(self)@ == millis,
    {
        let now = read_clock();
        let span = span_between(&now, &self.origin);
        let reading = whole_millis(&span);
        if reading > self.latest {
            self.latest = reading;
        }
        self.latest
    }
}

/// What is known of a clock: the latest reading that it gave, zero before
/// the first.
impl View for Stopwatch {
    type V = nat;

    closed spec fn view(&self) -> nat {
        self.latest as nat
    }
}

} // verus!
