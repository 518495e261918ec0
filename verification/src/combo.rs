//! Streak-based score multiplier with a rolling decay window.
//!
//! Every kill re-arms the decay timer and raises the streak; the multiplier
//! is `1 + (streak - 1) * 0.5`, kept in thousandths. If the window runs out
//! with no further kill, the combo falls back to idle: streak zero,
//! multiplier one, timer paused until the next kill re-arms it.

use vstd::prelude::*;

use crate::timer::{Timer, TimerMode};

verus! {

/// Points a kill is worth before the combo multiplier.
pub const BASE_SCORE: u32 = 10;

/// How long a streak survives without a further kill, in milliseconds.
pub const COMBO_WINDOW_MS: u64 = 1000;

/// Per-streak-step increase of the multiplier, in thousandths.
pub const COMBO_MULTIPLIER_STEP_MILLI: u64 = 500;

/// The multiplier a streak earns, in thousandths: x1.0 while idle, one step
/// more for every kill beyond the first.
pub open spec fn spec_multiplier_milli(streak: u32) -> int {
    if streak == 0 {
        1000
    } else {
        1000 + COMBO_MULTIPLIER_STEP_MILLI * (streak - 1)
    }
}

/// The score one kill awards at a given streak: the base score times the
/// multiplier, rounded half-up.
pub open spec fn spec_award(streak: u32) -> int {
    (BASE_SCORE * spec_multiplier_milli(streak) + 500) / 1000
}

/// The combo state one kill leaves behind: streak one higher (saturating)
/// and the decay window re-armed from zero.
pub open spec fn spec_combo_after_kill(c: Combo) -> Combo {
    Combo {
        streak: if c.streak < u32::MAX {
            (c.streak + 1) as u32
        } else {
            u32::MAX
        },
        timer: Timer {
            elapsed_ms: 0,
            duration_ms: COMBO_WINDOW_MS,
            mode: TimerMode::Once,
            paused: false,
            just_finished: false,
        },
    }
}

/// The idle combo: no streak, decay window parked and cleared.
pub open spec fn spec_combo_idle(c: Combo) -> Combo {
    Combo {
        streak: 0,
        timer: Timer {
            elapsed_ms: 0,
            duration_ms: COMBO_WINDOW_MS,
            mode: TimerMode::Once,
            paused: true,
            just_finished: false,
        },
    }
}

/// The combo after its decay window advances by `dt` milliseconds: an
/// idle combo is untouched; an armed window that runs out drops the combo
/// back to idle; otherwise only the elapsed time grows.
pub open spec fn spec_combo_after_tick(c: Combo, dt: u64) -> Combo {
    if c.timer.paused {
        c
    } else if c.timer.elapsed_ms + dt >= COMBO_WINDOW_MS {
        spec_combo_idle(c)
    } else {
        Combo {
            streak: c.streak,
            timer: Timer {
                elapsed_ms: (c.timer.elapsed_ms + dt) as u64,
                just_finished: false,
                ..c.timer
            },
        }
    }
}

#[derive(Clone, Copy, PartialEq, Eq, Structural, Debug)]
pub struct Combo {
    /// Kills scored without the decay window running out.
    pub streak: u32,
    /// Decay window; paused exactly while the combo is idle.
    pub timer: Timer,
}

impl Combo {
    pub open spec fn wf(self) -> bool {
        &&& self.timer.wf()
        &&& self.timer.duration_ms == COMBO_WINDOW_MS
        &&& self.timer.mode == TimerMode::Once
        &&& (self.streak == 0 <==> self.timer.paused)
    }

    /// No streak, multiplier one, decay timer parked.
    pub open spec fn is_idle(self) -> bool {
        self.streak == 0
    }

    pub fn new() -> (r: Combo)
        ensures
            r.wf(),
            r.is_idle(),
            r.timer.elapsed_ms == 0,
    {
        let mut timer = Timer::new(COMBO_WINDOW_MS, TimerMode::Once);
        timer.pause();
        Combo { streak: 0, timer }
    }

    pub fn multiplier_milli(&self) -> (r: u64)
        requires
            self.wf(),
        ensures
            r == spec_multiplier_milli(self.streak),
    {
        if self.streak == 0 {
            1000
        } else {
            1000 + COMBO_MULTIPLIER_STEP_MILLI * ((self.streak - 1) as u64)
        }
    }

    /// Registers one kill: re-arms and resets the decay timer, raises the
    /// streak (saturating at the machine-word cap), and returns the score
    /// this kill awards under the raised streak's multiplier.
    pub fn register_kill(&mut self) -> (award: u64)
        requires
            old(self).wf(),
        ensures
            final(self).wf(),
            *final(self) == spec_combo_after_kill(*old(self)),
            final(self).streak == (
                if old(self).streak < u32::MAX
                    { (old(self).streak + 1) as u32 }
                else
                    { u32::MAX }
            ),
            final(self).timer.elapsed_ms == 0,
            !final(self).timer.paused,
            award == spec_award(final(self).streak),
    {
        self.timer.unpause();
        self.timer.reset();
        if self.streak < u32::MAX {
            self.streak = self.streak + 1;
        }
        let mult = self.multiplier_milli();
        proof {
            assert(mult <= 1000 + 500 * (u32::MAX as int));
            assert((BASE_SCORE as u64) * mult == 10 * mult);
        }
        ((BASE_SCORE as u64) * mult + 500) / 1000
    }

    /// Falls back to idle: streak zero, decay timer parked and cleared.
    pub fn reset(&mut self)
        requires
            old(self).wf(),
        ensures
            final(self).wf(),
            final(self).is_idle(),
            final(self).timer.elapsed_ms == 0,
            *final(self) == spec_combo_idle(*old(self)),
    {
        self.streak = 0;
        self.timer.reset();
        self.timer.pause();
    }

    /// Advances the decay window. While idle nothing moves; an armed window
    /// that runs out resets the combo to idle, and otherwise only the
    /// elapsed time grows.
    pub fn tick(&mut self, dt_ms: u64)
        requires
            old(self).wf(),
            dt_ms <= 1_000_000,
        ensures
            final(self).wf(),
            *final(self) == spec_combo_after_tick(*old(self), dt_ms),
            old(self).is_idle() ==> *final(self) == *old(self),
            !old(self).is_idle() && old(self).timer.elapsed_ms + dt_ms
                >= COMBO_WINDOW_MS ==> final(self).is_idle(),
            !old(self).is_idle() && old(self).timer.elapsed_ms + dt_ms
                < COMBO_WINDOW_MS ==> {
                &&& final(self).streak == old(self).streak
                &&& final(self).timer.elapsed_ms == old(self).timer.elapsed_ms + dt_ms
            },
    {
        if self.timer.paused {
            return;
        }
        self.timer.tick(dt_ms);
        if self.timer.finished() {
            self.reset();
        }
    }
}

} // verus!
