//! Countdown timers, one-shot or repeating, that advance by the frame time
//! they are given and can be paused.

use vstd::prelude::*;

use crate::duration::Duration;

verus! {

/// What a timer is doing.
#[derive(Debug, Clone, Copy, PartialEq, Eq, Structural)]
pub enum TimerState {
    Running,
    Paused,
    Finished,
}

/// A timer: how long it runs, how much of that has passed, whether it starts
/// over when it completes, and whether it completed on the latest tick.
#[derive(Debug, Clone, Copy)]
pub struct Timer {
    duration: Duration,
    elapsed: Duration,
    repeating: bool,
    state: TimerState,
    just_finished: bool,
}

/// `a + b`, capped at the largest span a `Duration` holds.
pub open spec fn capped_sum(a: nat, b: nat) -> nat {
    if a + b <= u128::MAX {
        a + b
    } else {
        u128::MAX as nat
    }
}

impl Timer {
    pub closed spec fn spec_duration(&self) -> nat {
        self.duration@
    }

    pub closed spec fn spec_elapsed(&self) -> nat {
        self.elapsed@
    }

    pub closed spec fn spec_repeating(&self) -> bool {
        self.repeating
    }

    pub closed spec fn spec_state(&self) -> TimerState {
        self.state
    }

    pub closed spec fn spec_just_finished(&self) -> bool {
        self.just_finished
    }

    /// The time passed never exceeds the timer's duration.
    pub closed spec fn wf(&self) -> bool {
        self.elapsed@ <= self.duration@
    }

    /// Whether the timer counts as finished: a one-shot timer once it has
    /// completed, a repeating one on the tick where it completed.
    pub open spec fn spec_finished(&self) -> bool {
        self.spec_state() == TimerState::Finished || (self.spec_repeating()
            && self.spec_just_finished())
    }

    /// A one-shot timer of the given duration, running from zero.
    pub fn new(duration: Duration) -> (r: Timer)
        ensures
            r.wf(),
            r.spec_duration() == duration@,
            r.spec_elapsed() == 0,
            !r.spec_repeating(),
            r.spec_state() == TimerState::Running,
            !r.spec_just_finished(),
    {
        Timer {
            duration,
            elapsed: Duration::zero(),
            repeating: false,
            state: TimerState::Running,
            just_finished: false,
        }
    }

    /// A repeating timer of the given duration, running from zero.
    pub fn repeating(duration: Duration) -> (r: Timer)
        ensures
            r.wf(),
            r.spec_duration() == duration@,
            r.spec_elapsed() == 0,
            r.spec_repeating(),
            r.spec_state() == TimerState::Running,
            !r.spec_just_finished(),
    {
        Timer {
            duration,
            elapsed: Duration::zero(),
            repeating: true,
            state: TimerState::Running,
            just_finished: false,
        }
    }

    pub fn from_millis(millis: u64) -> (r: Timer)
        ensures
            r.wf(),
            r.spec_duration() == millis * crate::duration::NANOS_PER_MILLI,
            r.spec_elapsed() == 0,
            !r.spec_repeating(),
            r.spec_state() == TimerState::Running,
            !r.spec_just_finished(),
    {
        Timer::new(Duration::from_millis(millis))
    }

    pub fn repeating_from_millis(millis: u64) -> (r: Timer)
        ensures
            r.wf(),
            r.spec_duration() == millis * crate::duration::NANOS_PER_MILLI,
            r.spec_elapsed() == 0,
            r.spec_repeating(),
            r.spec_state() == TimerState::Running,
            !r.spec_just_finished(),
    {
        Timer::repeating(Duration::from_millis(millis))
    }

    /// Advances a running timer by `delta`. On reaching its duration a one-shot
    /// timer stops at the duration and finishes; a repeating one starts over,
    /// keeping what went past the duration (modulo the duration). A timer that
    /// is not running does not move. `just_finished` tells whether this tick
    /// completed the timer.
    pub fn tick(&mut self, delta: Duration)
        requires
            old(self).wf(),
        ensures
            final(self).wf(),
            final(self).spec_duration() == old(self).spec_duration(),
            final(self).spec_repeating() == old(self).spec_repeating(),
            ({
                let t0 = *old(self);
                let t1 = *final(self);
                let e = capped_sum(t0.spec_elapsed(), delta@);
                let d = t0.spec_duration();
                if t0.spec_state() != TimerState::Running {
                    &&& t1.spec_elapsed() == t0.spec_elapsed()
                    &&& t1.spec_state() == t0.spec_state()
                    &&& !t1.spec_just_finished()
                } else if e < d {
                    &&& t1.spec_elapsed() == e
                    &&& t1.spec_state() == TimerState::Running
                    &&& !t1.spec_just_finished()
                } else if t0.spec_repeating() {
                    &&& t1.spec_elapsed() == (if d == 0 {
                        0
                    } else {
                        e % d
                    })
                    &&& t1.spec_state() == TimerState::Running
                    &&& t1.spec_just_finished()
                } else {
                    &&& t1.spec_elapsed() == d
                    &&& t1.spec_state() == TimerState::Finished
                    &&& t1.spec_just_finished()
                }
            }),
    {
        self.just_finished = false;
        if self.state != TimerState::Running {
            return;
        }
        self.elapsed = self.elapsed.saturating_add(delta);
        if !self.elapsed.less_than(&self.duration) {
            self.just_finished = true;
            if self.repeating {
                self.elapsed = self.elapsed.wrap_into(self.duration);
                proof {
                    if self.duration@ > 0 {
                        let a = old(self).elapsed@;
                        vstd::arithmetic::div_mod::lemma_mod_bound(
                            capped_sum(a, delta@) as int,
                            self.duration@ as int,
                        );
                    }
                }
            } else {
                self.elapsed = self.duration;
                self.state = TimerState::Finished;
            }
        }
    }

    pub fn finished(&self) -> (r: bool)
        ensures
            r == self.spec_finished(),
    {
        match self.state {
            TimerState::Finished => true,
            _ => self.repeating && self.just_finished,
        }
    }

    pub fn just_finished(&self) -> (r: bool)
        ensures
            r == self.spec_just_finished(),
    {
        self.just_finished
    }

    pub fn elapsed(&self) -> (r: Duration)
        ensures
            r@ == self.spec_elapsed(),
    {
        self.elapsed
    }

    pub fn duration(&self) -> (r: Duration)
        ensures
            r@ == self.spec_duration(),
    {
        self.duration
    }

    /// Time left before the timer completes.
    pub fn remaining(&self) -> (r: Duration)
        requires
            self.wf(),
        ensures
            r@ == self.spec_duration() - self.spec_elapsed(),
    {
        self.duration.saturating_sub(self.elapsed)
    }

    /// Back to zero and running.
    pub fn reset(&mut self)
        ensures
            final(self).wf(),
            final(self).spec_duration() == old(self).spec_duration(),
            final(self).spec_repeating() == old(self).spec_repeating(),
            final(self).spec_elapsed() == 0,
            final(self).spec_state() == TimerState::Running,
            !final(self).spec_just_finished(),
    {
        self.elapsed = Duration::zero();
        self.state = TimerState::Running;
        self.just_finished = false;
    }

    /// Pauses a running timer; any other timer is left as it is.
    pub fn pause(&mut self)
        ensures
            final(self).spec_duration() == old(self).spec_duration(),
            final(self).spec_elapsed() == old(self).spec_elapsed(),
            final(self).spec_repeating() == old(self).spec_repeating(),
            final(self).spec_just_finished() == old(self).spec_just_finished(),
            final(self).spec_state() == if old(self).spec_state() == TimerState::Running {
                TimerState::Paused
            } else {
                old(self).spec_state()
            },
            old(self).wf() ==> final(self).wf(),
    {
        if self.state == TimerState::Running {
            self.state = TimerState::Paused;
        }
    }

    /// Resumes a paused timer; any other timer is left as it is.
    pub fn resume(&mut self)
        ensures
            final(self).spec_duration() == old(self).spec_duration(),
            final(self).spec_elapsed() == old(self).spec_elapsed(),
            final(self).spec_repeating() == old(self).spec_repeating(),
            final(self).spec_just_finished() == old(self).spec_just_finished(),
            final(self).spec_state() == if old(self).spec_state() == TimerState::Paused {
                TimerState::Running
            } else {
                old(self).spec_state()
            },
            old(self).wf() ==> final(self).wf(),
    {
        if self.state == TimerState::Paused {
            self.state = TimerState::Running;
        }
    }

    /// Changes the duration. Where the time passed already reaches the new
    /// duration the timer completes at once: a repeating one starts over from
    /// zero, a one-shot one stops at the new duration and finishes.
    pub fn set_duration(&mut self, duration: Duration)
        ensures
            final(self).wf(),
            final(self).spec_duration() == duration@,
            final(self).spec_repeating() == old(self).spec_repeating(),
            old(self).spec_elapsed() < duration@ ==> {
                &&& final(self).spec_elapsed() == old(self).spec_elapsed()
                &&& final(self).spec_state() == old(self).spec_state()
                &&& final(self).spec_just_finished() == old(self).spec_just_finished()
            },
            old(self).spec_elapsed() >= duration@ ==> {
                &&& final(self).spec_just_finished()
                &&& old(self).spec_repeating() ==> final(self).spec_elapsed() == 0
                    && final(self).spec_state() == old(self).spec_state()
                &&& !old(self).spec_repeating() ==> final(self).spec_elapsed() == duration@
                    && final(self).spec_state() == TimerState::Finished
            },
    {
        self.duration = duration;
        if !self.elapsed.less_than(&self.duration) {
            if self.repeating {
                self.elapsed = Duration::zero();
                self.just_finished = true;
            } else {
                self.elapsed = self.duration;
                self.state = TimerState::Finished;
                self.just_finished = true;
            }
        }
    }

    /// Makes the timer repeating or one-shot. A finished timer made repeating
    /// starts over from zero; a timer made one-shot whose time passed reaches
    /// its duration finishes.
    pub fn set_repeating(&mut self, repeating: bool)
        requires
            old(self).wf(),
        ensures
            final(self).wf(),
            final(self).spec_repeating() == repeating,
            final(self).spec_duration() == old(self).spec_duration(),
            final(self).spec_just_finished() == old(self).spec_just_finished(),
            repeating && old(self).spec_state() == TimerState::Finished ==> final(self).spec_elapsed() == 0 && final(self).spec_state() == TimerState::Running,
            repeating && old(self).spec_state() != TimerState::Finished ==> final(self).spec_elapsed() == old(self).spec_elapsed() && final(self).spec_state() == old(self).spec_state(),
            !repeating ==> final(self).spec_elapsed() == old(self).spec_elapsed(),
            !repeating && old(self).spec_elapsed() >= old(self).spec_duration() ==> final(self).spec_state() == TimerState::Finished,
            !repeating && old(self).spec_elapsed() < old(self).spec_duration() ==> final(self).spec_state() == old(self).spec_state(),
    {
        self.repeating = repeating;
        if repeating {
            if self.state == TimerState::Finished {
                self.elapsed = Duration::zero();
                self.state = TimerState::Running;
            }
        } else {
            if !self.elapsed.less_than(&self.duration) {
                self.state = TimerState::Finished;
            }
        }
    }

    pub fn is_repeating(&self) -> (r: bool)
        ensures
            r == self.spec_repeating(),
    {
        self.repeating
    }

    pub fn is_running(&self) -> (r: bool)
        ensures
            r == (self.spec_state() == TimerState::Running),
    {
        self.state == TimerState::Running
    }

    pub fn is_paused(&self) -> (r: bool)
        ensures
            r == (self.spec_state() == TimerState::Paused),
    {
        self.state == TimerState::Paused
    }

    pub fn state(&self) -> (r: TimerState)
        ensures
            r == self.spec_state(),
    {
        self.state
    }

    /// Completes the timer at once: the time passed becomes the duration, and
    /// a one-shot timer finishes.
    pub fn finish(&mut self)
        ensures
            final(self).wf(),
            final(self).spec_duration() == old(self).spec_duration(),
            final(self).spec_elapsed() == old(self).spec_duration(),
            final(self).spec_repeating() == old(self).spec_repeating(),
            final(self).spec_just_finished(),
            old(self).spec_repeating() ==> final(self).spec_state() == old(self).spec_state(),
            !old(self).spec_repeating() ==> final(self).spec_state() == TimerState::Finished,
    {
        self.elapsed = self.duration;
        self.just_finished = true;
        if !self.repeating {
            self.state = TimerState::Finished;
        }
    }
}

} // verus!
