//! Time-driven creation of hostiles.
//!
//! The spawn interval starts at a configured value and shrinks by a fixed
//! acceleration factor after every spawn, floored at a minimum, so the
//! spawn rate ramps up geometrically. Spawn-time hostile speed and health
//! grow linearly with the current score, so later spawns are strictly
//! harder; hostile health is kept in milli-hit-points so fractional damage
//! and growth are exact.

use vstd::prelude::*;

use crate::timer::{Timer, TimerMode};

verus! {

/// First interval between hostile spawns, in milliseconds.
pub const SPAWN_INTERVAL_START_MS: u64 = 2000;

/// Interval factor applied after every spawn, in thousandths.
pub const SPAWN_ACCELERATION_MILLI: u64 = 920;

/// Intervals never shrink below this floor, in milliseconds.
pub const SPAWN_INTERVAL_MIN_MS: u64 = 600;

/// Speed of a hostile spawned at score zero, in milli-units per second.
pub const ENEMY_BASE_SPEED: u64 = 180_000;

/// Hostile speed never scales beyond this, in milli-units per second.
pub const ENEMY_SPEED_CAP: u64 = 2_000_000;

/// Health of a hostile spawned at score zero, in milli-hit-points.
pub const ENEMY_BASE_HEALTH_MILLI: u64 = 3000;

/// How far from the anchor hostiles appear, in milli-units.
pub const ENEMY_SPAWN_DISTANCE: u64 = 600_000;

/// The spawn interval after `n` spawns: the starting interval shrunk by the
/// acceleration factor once per spawn, floored at the minimum interval.
pub open spec fn spec_interval_after(n: nat) -> int
    decreases n,
{
    if n == 0 {
        SPAWN_INTERVAL_START_MS as int
    } else {
        let prev = spec_interval_after((n - 1) as nat);
        let shrunk = prev * SPAWN_ACCELERATION_MILLI / 1000;
        if shrunk >= SPAWN_INTERVAL_MIN_MS {
            shrunk
        } else {
            SPAWN_INTERVAL_MIN_MS as int
        }
    }
}

/// The interval ramp stays between its floor and its starting value.
pub proof fn lemma_interval_in_range(n: nat)
    ensures
        SPAWN_INTERVAL_MIN_MS <= spec_interval_after(n) <= SPAWN_INTERVAL_START_MS,
    decreases n,
{
    if n > 0 {
        lemma_interval_in_range((n - 1) as nat);
        let prev = spec_interval_after((n - 1) as nat);
        assert(prev * SPAWN_ACCELERATION_MILLI / 1000 <= prev) by (nonlinear_arith)
            requires
                0 <= prev,
        ;
    }
}

/// The spawn interval never grows from one spawn to the next, and shrinks
/// strictly until it reaches the floor.
pub proof fn lemma_interval_decreasing(n: nat)
    ensures
        spec_interval_after(n + 1) <= spec_interval_after(n),
        spec_interval_after(n) > SPAWN_INTERVAL_MIN_MS ==> spec_interval_after(n + 1)
            < spec_interval_after(n),
{
    lemma_interval_in_range(n);
    let prev = spec_interval_after(n);
    assert(prev * SPAWN_ACCELERATION_MILLI / 1000 <= prev * 920 / 1000);
    assert(prev * 920 / 1000 < prev) by (nonlinear_arith)
        requires
            prev >= 1,
    ;
}

/// Hostile speed at spawn time: base plus a linear score bonus, capped so
/// the value stays a machine word. In milli-units per second.
pub open spec fn spec_enemy_speed(score: u32) -> int {
    let raw = ENEMY_BASE_SPEED + 40 * score;
    if raw <= ENEMY_SPEED_CAP {
        raw
    } else {
        ENEMY_SPEED_CAP as int
    }
}

/// Hostile health at spawn time, in milli-hit-points: base scaled up by one
/// whole base every 500 score.
pub open spec fn spec_enemy_health_milli(score: u32) -> int {
    ENEMY_BASE_HEALTH_MILLI + 6 * score
}

pub fn enemy_speed(score: u32) -> (r: u64)
    ensures
        r == spec_enemy_speed(score),
        r <= ENEMY_SPEED_CAP,
{
    let raw: u64 = ENEMY_BASE_SPEED + 40u64 * (score as u64);
    if raw <= ENEMY_SPEED_CAP {
        raw
    } else {
        ENEMY_SPEED_CAP
    }
}

pub fn enemy_health_milli(score: u32) -> (r: u64)
    ensures
        r == spec_enemy_health_milli(score),
{
    ENEMY_BASE_HEALTH_MILLI + 6u64 * (score as u64)
}

/// The spawn clock after one advance of `dt` milliseconds: the elapsed
/// time wraps within the interval and `just_finished` marks a crossing.
pub open spec fn spec_clock_after_tick(t: EnemySpawnTimer, dt: u64) -> EnemySpawnTimer {
    EnemySpawnTimer {
        timer: Timer {
            elapsed_ms: ((t.timer.elapsed_ms + dt) % (t.timer.duration_ms as int)) as u64,
            just_finished: t.timer.elapsed_ms + dt >= t.timer.duration_ms,
            ..t.timer
        },
        ..t
    }
}

/// The spawn clock after recording one spawn: the interval shrinks on the
/// ramp, the elapsed time is clamped into the new interval, and the
/// spawn count rises by one.
pub open spec fn spec_clock_after_spawn(t: EnemySpawnTimer) -> EnemySpawnTimer {
    let shrunk = t.timer.duration_ms * SPAWN_ACCELERATION_MILLI / 1000;
    let next = if shrunk >= SPAWN_INTERVAL_MIN_MS {
        shrunk
    } else {
        SPAWN_INTERVAL_MIN_MS as int
    };
    EnemySpawnTimer {
        timer: Timer {
            duration_ms: next as u64,
            elapsed_ms: if t.timer.elapsed_ms <= next {
                t.timer.elapsed_ms
            } else {
                next as u64
            },
            ..t.timer
        },
        spawn_count: (t.spawn_count + 1) as u32,
    }
}

/// The hostile spawn clock together with its geometric interval ramp.
#[derive(Clone, Copy, PartialEq, Eq, Structural, Debug)]
pub struct EnemySpawnTimer {
    pub timer: Timer,
    /// Hostiles spawned since the ramp was last reset.
    pub spawn_count: u32,
}

impl EnemySpawnTimer {
    /// The clock's interval is exactly where the ramp puts it after
    /// `spawn_count` spawns.
    pub open spec fn wf(self) -> bool {
        &&& self.timer.wf()
        &&& self.timer.mode == TimerMode::Repeating
        &&& !self.timer.paused
        &&& self.timer.duration_ms == spec_interval_after(self.spawn_count as nat)
    }

    pub fn new(interval_ms: u64) -> (r: EnemySpawnTimer)
        requires
            interval_ms == SPAWN_INTERVAL_START_MS,
        ensures
            r.wf(),
            r.spawn_count == 0,
            r.timer.elapsed_ms == 0,
    {
        EnemySpawnTimer { timer: Timer::new(interval_ms, TimerMode::Repeating), spawn_count: 0 }
    }

    /// Advances the clock; the result says whether a hostile is due this
    /// tick.
    pub fn tick(&mut self, dt_ms: u64) -> (due: bool)
        requires
            old(self).wf(),
            dt_ms <= 1_000_000,
        ensures
            final(self).wf(),
            final(self).spawn_count == old(self).spawn_count,
            due == (old(self).timer.elapsed_ms + dt_ms >= old(self).timer.duration_ms),
            *final(self) == spec_clock_after_tick(*old(self), dt_ms),
    {
        proof {
            lemma_interval_in_range(self.spawn_count as nat);
        }
        self.timer.tick(dt_ms);
        self.timer.just_finished
    }

    /// Records one spawn: shrinks the interval by the acceleration factor,
    /// floored at the minimum.
    pub fn after_spawn(&mut self)
        requires
            old(self).wf(),
            old(self).spawn_count < u32::MAX,
        ensures
            final(self).wf(),
            final(self).spawn_count == old(self).spawn_count + 1,
            final(self).timer.duration_ms == spec_interval_after(
                final(self).spawn_count as nat,
            ),
            final(self).timer.duration_ms <= old(self).timer.duration_ms,
            *final(self) == spec_clock_after_spawn(*old(self)),
    {
        proof {
            lemma_interval_in_range(self.spawn_count as nat);
            lemma_interval_decreasing(self.spawn_count as nat);
        }
        let shrunk: u64 = self.timer.duration_ms * SPAWN_ACCELERATION_MILLI / 1000;
        let next: u64 = if shrunk >= SPAWN_INTERVAL_MIN_MS {
            shrunk
        } else {
            SPAWN_INTERVAL_MIN_MS
        };
        self.timer.set_duration(next);
        self.spawn_count = self.spawn_count + 1;
    }

    /// Puts the ramp back to its starting interval with no spawns recorded.
    pub fn reset_ramp(&mut self)
        ensures
            final(self).wf(),
            final(self).spawn_count == 0,
            final(self).timer.elapsed_ms == 0,
            final(self).timer.duration_ms == SPAWN_INTERVAL_START_MS,
    {
        self.timer = Timer::new(SPAWN_INTERVAL_START_MS, TimerMode::Repeating);
        self.spawn_count = 0;
    }
}

} // verus!
