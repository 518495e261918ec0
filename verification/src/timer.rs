//! Countdown / repeating duration primitive.
//!
//! Durations and elapsed time are in milliseconds. A timer in `Once` mode
//! saturates at its duration; a timer in `Repeating` mode wraps around and
//! reports `just_finished` only for the tick in which it crossed, so a
//! caller that checks `just_finished` fires once per completed interval.

use vstd::prelude::*;

verus! {

#[derive(Clone, Copy, PartialEq, Eq, Structural, Debug)]
pub enum TimerMode {
    Once,
    Repeating,
}

/// An unpaused repeating timer after one `tick` of `dt` milliseconds:
/// the elapsed time wraps within the interval and `just_finished` marks a
/// crossing.
pub open spec fn spec_repeating_after_tick(t: Timer, dt: u64) -> Timer
    recommends
        t.mode == TimerMode::Repeating,
        !t.paused,
        t.duration_ms > 0,
{
    Timer {
        elapsed_ms: ((t.elapsed_ms + dt) % (t.duration_ms as int)) as u64,
        just_finished: t.elapsed_ms + dt >= t.duration_ms,
        ..t
    }
}

#[derive(Clone, Copy, PartialEq, Eq, Structural, Debug)]
pub struct Timer {
    /// Time accumulated since the last completion, in milliseconds.
    pub elapsed_ms: u64,
    /// Length of one interval, in milliseconds.
    pub duration_ms: u64,
    pub mode: TimerMode,
    /// A paused timer ignores `tick`.
    pub paused: bool,
    /// True exactly when the most recent `tick` completed an interval.
    pub just_finished: bool,
}

impl Timer {
    /// A timer is kept with its elapsed time inside one interval, and no
    /// interval in this game is longer than about eleven days.
    pub open spec fn wf(self) -> bool {
        self.elapsed_ms <= self.duration_ms && self.duration_ms <= 1_000_000_000
    }

    /// An interval has been completed and, in `Once` mode, the timer stays so.
    pub open spec fn spec_finished(self) -> bool {
        self.elapsed_ms >= self.duration_ms
    }

    pub fn new(duration_ms: u64, mode: TimerMode) -> (t: Timer)
        requires
            duration_ms <= 1_000_000_000,
        ensures
            t.wf(),
            t.elapsed_ms == 0,
            t.duration_ms == duration_ms,
            t.mode == mode,
            !t.paused,
            !t.just_finished,
    {
        Timer { elapsed_ms: 0, duration_ms, mode, paused: false, just_finished: false }
    }

    pub fn finished(&self) -> (r: bool)
        ensures
            r == self.spec_finished(),
    {
        self.elapsed_ms >= self.duration_ms
    }

    /// Advances the timer by `dt_ms`. A paused timer is left unchanged. A
    /// `Once` timer saturates at its duration; a `Repeating` timer keeps the
    /// overshoot and wraps it into the next interval. `just_finished` holds
    /// exactly when this call completed an interval.
    pub fn tick(&mut self, dt_ms: u64)
        requires
            old(self).wf(),
            dt_ms <= 1_000_000,
        ensures
            final(self).wf(),
            final(self).duration_ms == old(self).duration_ms,
            final(self).mode == old(self).mode,
            final(self).paused == old(self).paused,
            old(self).paused ==> *final(self) == *old(self),
            !old(self).paused ==> final(self).just_finished == (
                old(self).elapsed_ms + dt_ms >= old(self).duration_ms
                && (old(self).mode == TimerMode::Repeating || !old(self).spec_finished())
            ),
            (!old(self).paused && old(self).mode == TimerMode::Once) ==> final(self).elapsed_ms == (
                if old(self).elapsed_ms + dt_ms >= old(self).duration_ms
                    { old(self).duration_ms }
                else
                    { (old(self).elapsed_ms + dt_ms) as u64 }
            ),
            (!old(self).paused && old(self).mode == TimerMode::Repeating
                && old(self).duration_ms > 0) ==>
                final(self).elapsed_ms == (old(self).elapsed_ms + dt_ms) % (
                old(self).duration_ms as int),
            (!old(self).paused && old(self).mode == TimerMode::Repeating
                && old(self).duration_ms == 0) ==> final(self).elapsed_ms == 0,
    {
        if self.paused {
            return;
        }
        let total: u64 = self.elapsed_ms + dt_ms;
        if total >= self.duration_ms {
            self.just_finished = match self.mode {
                TimerMode::Once => !(self.elapsed_ms >= self.duration_ms),
                TimerMode::Repeating => true,
            };
            self.elapsed_ms = match self.mode {
                TimerMode::Once => self.duration_ms,
                TimerMode::Repeating => {
                    if self.duration_ms == 0 {
                        0
                    } else {
                        total % self.duration_ms
                    }
                },
            };
        } else {
            self.just_finished = false;
            self.elapsed_ms = total;
            proof {
                if self.duration_ms > 0 {
                    vstd::arithmetic::div_mod::lemma_small_mod(
                        total as nat,
                        self.duration_ms as nat,
                    );
                }
            }
        }
    }

    /// Zeroes the elapsed time without changing the configured duration.
    pub fn reset(&mut self)
        requires
            old(self).wf(),
        ensures
            final(self).wf(),
            final(self).elapsed_ms == 0,
            !final(self).just_finished,
            final(self).duration_ms == old(self).duration_ms,
            final(self).mode == old(self).mode,
            final(self).paused == old(self).paused,
    {
        self.elapsed_ms = 0;
        self.just_finished = false;
    }

    /// Changes the interval of future completions without touching the
    /// progress already accumulated (clamped into the new interval).
    pub fn set_duration(&mut self, duration_ms: u64)
        requires
            old(self).wf(),
            duration_ms <= 1_000_000_000,
        ensures
            final(self).wf(),
            final(self).duration_ms == duration_ms,
            final(self).elapsed_ms == (
                if old(self).elapsed_ms <= duration_ms
                    { old(self).elapsed_ms }
                else
                    { duration_ms }
            ),
            final(self).mode == old(self).mode,
            final(self).paused == old(self).paused,
            final(self).just_finished == old(self).just_finished,
    {
        self.duration_ms = duration_ms;
        if self.elapsed_ms > duration_ms {
            self.elapsed_ms = duration_ms;
        }
    }

    pub fn pause(&mut self)
        ensures
            *final(self) == (Timer { paused: true, ..*old(self) }),
    {
        self.paused = true;
    }

    pub fn unpause(&mut self)
        ensures
            *final(self) == (Timer { paused: false, ..*old(self) }),
    {
        self.paused = false;
    }

    /// Time left before the current interval completes.
    pub fn remaining_ms(&self) -> (r: u64)
        requires
            self.wf(),
        ensures
            r == self.duration_ms - self.elapsed_ms,
    {
        self.duration_ms - self.elapsed_ms
    }
}

} // verus!
