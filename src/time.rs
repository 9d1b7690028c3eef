//! Frame timing: the time between frames, the time since start-up and the
//! number of frames. The clock is read through two small wrappers; every
//! decision about what to record is made on the instant handed in.

use vstd::prelude::*;

use crate::duration::Duration;

verus! {

/// `std::time::Instant`, a clock reading that is only stored, compared for
/// equality and handed back to the clock wrappers.
#[verifier::external_type_specification]
#[verifier::external_body]
pub struct ExInstant(std::time::Instant);

/// Relies on `std::time::Instant::now`: the current reading of the monotonic
/// clock. Nothing is stated of it.
#[verifier::external_body]
fn clock_now() -> (r: std::time::Instant) {
    std::time::Instant::now()
}

/// Relies on `std::time::Instant::saturating_duration_since`: the time from
/// `earlier` to `later` in nanoseconds, zero where `later` is not after
/// `earlier`. The readings come from the clock, so no value is stated.
#[verifier::external_body]
fn nanos_between(earlier: &std::time::Instant, later: &std::time::Instant) -> (r: u128) {
    later.saturating_duration_since(*earlier).as_nanos()
}

/// Frame timing state, updated once per frame.
#[derive(Debug, Clone, Copy)]
pub struct Time {
    startup_time: std::time::Instant,
    last_update: std::time::Instant,
    current_time: std::time::Instant,
    delta_time: Duration,
    elapsed_time: Duration,
    frame_count: u64,
    first_update: bool,
}

impl Time {
    pub closed spec fn spec_startup(&self) -> std::time::Instant {
        self.startup_time
    }

    pub closed spec fn spec_last_update(&self) -> std::time::Instant {
        self.last_update
    }

    pub closed spec fn spec_current(&self) -> std::time::Instant {
        self.current_time
    }

    pub closed spec fn spec_delta(&self) -> nat {
        self.delta_time@
    }

    pub closed spec fn spec_elapsed(&self) -> nat {
        self.elapsed_time@
    }

    pub closed spec fn spec_frame_count(&self) -> u64 {
        self.frame_count
    }

    pub closed spec fn spec_first_update(&self) -> bool {
        self.first_update
    }

    /// The state at start-up, `now`: no frame yet, nothing elapsed.
    pub open spec fn is_fresh_at(&self, now: std::time::Instant) -> bool {
        &&& self.spec_startup() == now
        &&& self.spec_last_update() == now
        &&& self.spec_current() == now
        &&& self.spec_delta() == 0
        &&& self.spec_elapsed() == 0
        &&& self.spec_frame_count() == 0
        &&& self.spec_first_update()
    }

    /// Timing state that starts at `now`.
    pub fn starting_at(now: std::time::Instant) -> (r: Time)
        ensures
            r.is_fresh_at(now),
    {
        Time {
            startup_time: now,
            last_update: now,
            current_time: now,
            delta_time: Duration::zero(),
            elapsed_time: Duration::zero(),
            frame_count: 0,
            first_update: true,
        }
    }

    /// Timing state that starts now.
    pub fn new() -> (r: Time)
        ensures
            r.is_fresh_at(r.spec_startup()),
    {
        Time::starting_at(clock_now())
    }

    /// Records a frame at `now`. The first frame has a zero delta; later ones
    /// measure from the previous frame. The frame count saturates.
    pub fn update_at(&mut self, now: std::time::Instant)
        ensures
            final(self).spec_startup() == old(self).spec_startup(),
            final(self).spec_last_update() == old(self).spec_current(),
            final(self).spec_current() == now,
            !final(self).spec_first_update(),
            old(self).spec_first_update() ==> final(self).spec_delta() == 0,
            final(self).spec_frame_count() == if old(self).spec_frame_count() < u64::MAX {
                (old(self).spec_frame_count() + 1) as u64
            } else {
                u64::MAX
            },
    {
        if self.first_update {
            self.first_update = false;
            self.delta_time = Duration::zero();
        } else {
            self.delta_time = Duration::from_nanos(nanos_between(&self.current_time, &now));
        }
        self.last_update = self.current_time;
        self.current_time = now;
        self.elapsed_time = Duration::from_nanos(nanos_between(&self.startup_time, &now));
        self.frame_count = self.frame_count.saturating_add(1);
    }

    /// Records a frame now.
    pub fn update(&mut self)
        ensures
            final(self).spec_startup() == old(self).spec_startup(),
            final(self).spec_last_update() == old(self).spec_current(),
            !final(self).spec_first_update(),
            old(self).spec_first_update() ==> final(self).spec_delta() == 0,
            final(self).spec_frame_count() == if old(self).spec_frame_count() < u64::MAX {
                (old(self).spec_frame_count() + 1) as u64
            } else {
                u64::MAX
            },
    {
        let now = clock_now();
        self.update_at(now);
    }

    /// Time between the two latest frames.
    pub fn delta(&self) -> (r: Duration)
        ensures
            r@ == self.spec_delta(),
    {
        self.delta_time
    }

    /// Whole milliseconds between the two latest frames.
    pub fn delta_millis(&self) -> (r: u128)
        ensures
            r == self.spec_delta() / crate::duration::NANOS_PER_MILLI as nat,
    {
        self.delta_time.as_millis()
    }

    /// Time from start-up to the latest frame.
    pub fn elapsed(&self) -> (r: Duration)
        ensures
            r@ == self.spec_elapsed(),
    {
        self.elapsed_time
    }

    pub fn frame_count(&self) -> (r: u64)
        ensures
            r == self.spec_frame_count(),
    {
        self.frame_count
    }

    pub fn startup_time(&self) -> (r: std::time::Instant)
        ensures
            r == self.spec_startup(),
    {
        self.startup_time
    }

    /// The instant of the latest frame.
    pub fn current_time(&self) -> (r: std::time::Instant)
        ensures
            r == self.spec_current(),
    {
        self.current_time
    }

    pub fn is_first_frame(&self) -> (r: bool)
        ensures
            r == (self.spec_frame_count() == 0),
    {
        self.frame_count == 0
    }

    /// Starts over from `now`, as if the application had just started.
    pub fn reset_at(&mut self, now: std::time::Instant)
        ensures
            final(self).is_fresh_at(now),
    {
        *self = Time::starting_at(now);
    }

    /// Starts over from now.
    pub fn reset(&mut self)
        ensures
            final(self).is_fresh_at(final(self).spec_startup()),
    {
        let now = clock_now();
        self.reset_at(now);
    }
}

} // verus!
