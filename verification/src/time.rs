//! Frame timing for the engine loop.
//!
//! What the clock returns is outside the library's control, so the
//! contracts promise only the bookkeeping: the startup instant never
//! changes, and the recorded frame delta is what the getter reports.
//! Durations are carried as whole nanoseconds; the caller converts to
//! fractional seconds at its own boundary.

use vstd::prelude::*;

verus! {

/// An opaque reading of the monotonic clock.
#[verifier::external_type_specification]
#[verifier::external_body]
pub struct ExInstant(std::time::Instant);

/// Relies on std::time::Instant::now: samples the monotonic clock. When
/// it is sampled is outside the program, so nothing is promised.
#[verifier::external_body]
fn instant_now() -> (r: std::time::Instant) {
    std::time::Instant::now()
}

/// Relies on Instant::saturating_duration_since and Duration::as_nanos:
/// the nanoseconds from `earlier` to `later`, zero when `later` is the
/// older reading, saturated into a u64. The value depends on the opaque
/// readings, so nothing is promised of it.
#[verifier::external_body]
fn nanos_between(later: &std::time::Instant, earlier: &std::time::Instant) -> (r: u64) {
    let d = later.saturating_duration_since(*earlier).as_nanos();
    u64::try_from(d).unwrap_or(u64::MAX)
}

/// Wall-clock bookkeeping for the simulation loop.
pub struct Time {
    startup: std::time::Instant,
    last_update: std::time::Instant,
    delta_nanos: u64,
}

impl Time {
    /// When the app started.
    pub closed spec fn spec_startup(&self) -> std::time::Instant {
        self.startup
    }

    /// Nanoseconds between the two most recent updates.
    pub closed spec fn spec_delta_nanos(&self) -> u64 {
        self.delta_nanos
    }

    /// Called by the engine loop once per frame: samples the clock and
    /// records the delta since the previous update. The clock's readings
    /// are not the library's to promise; the startup instant is.
    pub fn update(&mut self)
        ensures
            final(self).spec_startup() == old(self).spec_startup(),
    {
        let now = instant_now();
        self.delta_nanos = nanos_between(&now, &self.last_update);
        self.last_update = now;
    }

    /// Nanoseconds between the two most recent updates (for example,
    /// around 16_666_666 at sixty frames per second).
    pub fn delta_nanos(&self) -> (d: u64)
        ensures
            d == self.spec_delta_nanos(),
    {
        self.delta_nanos
    }

    /// Nanoseconds since the app started; a fresh clock sample, so no
    /// value is promised.
    pub fn elapsed_nanos(&self) -> u64 {
        let now = instant_now();
        nanos_between(&now, &self.startup)
    }
}

impl Default for Time {
    /// Starts the clock now, with no frame recorded yet.
    fn default() -> (t: Time)
        ensures
            t.spec_delta_nanos() == 0,
    {
        let now = instant_now();
        Time { startup: now, last_update: now, delta_nanos: 0 }
    }
}

} // verus!
