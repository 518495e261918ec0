//! Run-wide resources: run activity, player health, score, shield and
//! secondary-weapon buffs, and the small feedback state machines.

use vstd::prelude::*;

verus! {

/// Default shield duration granted by a shield pickup, in milliseconds,
/// before upgrade bonus seconds.
pub const SHIELD_DURATION_MS: u64 = 4000;

/// How long the wave-blast buff keeps the secondary weapon active, in
/// milliseconds.
pub const WAVE_BLAST_DURATION_MS: u64 = 10_000;

/// Base damage of a trail segment, in milli-hit-points.
pub const TRAIL_BASE_DAMAGE_MILLI: u64 = 3000;

/// Extra damage per accuracy stack, in thousandths.
pub const ACCURACY_STEP_MILLI: u64 = 250;

/// Accuracy stacks beyond this grant no further bonus.
pub const ACCURACY_STACK_CAP: u32 = 40;

/// Extra movement speed per accuracy stack, in thousandths.
pub const ACCURACY_MOVE_STEP_MILLI: u32 = 120;

/// The accuracy movement bonus never exceeds this many thousandths.
pub const ACCURACY_MOVE_CAP_MILLI: u32 = 400;

/// Whether a run is going on, and whether it is paused. A run must be
/// active before it can be paused, and an ended run stays ended until an
/// explicit restart.
#[derive(Clone, Copy, PartialEq, Eq, Structural, Debug)]
pub struct RunState {
    pub active: bool,
    pub paused: bool,
}

impl RunState {
    /// Paused implies active.
    pub open spec fn wf(self) -> bool {
        self.paused ==> self.active
    }

    pub open spec fn spec_is_running(self) -> bool {
        self.active && !self.paused
    }

    pub fn new() -> (r: RunState)
        ensures
            r.wf(),
            r.active,
            !r.paused,
    {
        RunState { active: true, paused: false }
    }

    pub fn is_running(&self) -> (r: bool)
        ensures
            r == self.spec_is_running(),
    {
        self.active && !self.paused
    }

    pub fn is_active(&self) -> (r: bool)
        ensures
            r == self.active,
    {
        self.active
    }

    pub fn pause(&mut self)
        requires
            old(self).wf(),
        ensures
            final(self).wf(),
            final(self).active == old(self).active,
            final(self).paused == old(self).active,
    {
        if self.active {
            self.paused = true;
        }
    }

    pub fn resume(&mut self)
        requires
            old(self).wf(),
        ensures
            final(self).wf(),
            final(self).active == old(self).active,
            !final(self).paused,
    {
        self.paused = false;
    }

    /// Starts (or restarts) a run: active and unpaused.
    pub fn reset(&mut self)
        ensures
            final(self).wf(),
            final(self).active,
            !final(self).paused,
    {
        self.active = true;
        self.paused = false;
    }

    /// Ends the run; it stays ended until `reset`.
    pub fn end(&mut self)
        ensures
            final(self).wf(),
            !final(self).active,
            !final(self).paused,
    {
        self.active = false;
        self.paused = false;
    }

    pub fn toggle_pause(&mut self)
        requires
            old(self).wf(),
        ensures
            final(self).wf(),
            final(self).active == old(self).active,
            old(self).active ==> final(self).paused == !old(self).paused,
            !old(self).active ==> final(self).paused == old(self).paused,
    {
        if self.active {
            self.paused = !self.paused;
        }
    }
}

/// Player hit points. Healing is capped at the maximum and damage
/// saturates at zero, so `current <= max` holds after every operation.
#[derive(Clone, Copy, PartialEq, Eq, Structural, Debug)]
pub struct PlayerHealth {
    pub current: u32,
    pub max: u32,
}

impl PlayerHealth {
    pub open spec fn wf(self) -> bool {
        self.current <= self.max
    }

    pub fn with_max(max: u32) -> (r: PlayerHealth)
        ensures
            r.wf(),
            r.current == max,
            r.max == max,
    {
        PlayerHealth { current: max, max }
    }

    /// Heals by `amount`, capped at the maximum.
    pub fn heal(&mut self, amount: u32)
        requires
            old(self).wf(),
        ensures
            final(self).wf(),
            final(self).max == old(self).max,
            final(self).current == (
                if old(self).current + amount <= old(self).max
                    { (old(self).current + amount) as u32 }
                else
                    { old(self).max }
            ),
    {
        self.current = if amount <= self.max - self.current {
            self.current + amount
        } else {
            self.max
        };
    }

    /// Applies `amount` damage, saturating at zero.
    pub fn damage(&mut self, amount: u32)
        requires
            old(self).wf(),
        ensures
            final(self).wf(),
            final(self).max == old(self).max,
            final(self).current == (
                if amount <= old(self).current
                    { (old(self).current - amount) as u32 }
                else
                    { 0u32 }
            ),
    {
        self.current = if amount <= self.current {
            self.current - amount
        } else {
            0
        };
    }

    /// Back to full health.
    pub fn reset(&mut self)
        requires
            old(self).wf(),
        ensures
            final(self).wf(),
            final(self).max == old(self).max,
            final(self).current == old(self).max,
    {
        self.current = self.max;
    }

    /// Raises the maximum by one and fills up, as a max-health purchase does.
    pub fn raise_max(&mut self)
        requires
            old(self).wf(),
            old(self).max < u32::MAX,
        ensures
            final(self).wf(),
            final(self).max == old(self).max + 1,
            final(self).current == final(self).max,
    {
        self.max = self.max + 1;
        self.current = self.max;
    }

    pub fn is_dead(&self) -> (r: bool)
        ensures
            r == (self.current == 0),
    {
        self.current == 0
    }
}

/// Score of the current run and the best score seen so far.
#[derive(Clone, Copy, PartialEq, Eq, Structural, Debug)]
pub struct Score {
    pub current: u32,
    pub best: u32,
}

impl Score {
    pub open spec fn wf(self) -> bool {
        self.current <= self.best
    }

    pub fn new() -> (r: Score)
        ensures
            r.wf(),
            r.current == 0,
            r.best == 0,
    {
        Score { current: 0, best: 0 }
    }

    /// Awards points, saturating, and keeps the best score in step.
    pub fn add(&mut self, amount: u64)
        requires
            old(self).wf(),
        ensures
            final(self).wf(),
            final(self).current == (
                if old(self).current + amount <= u32::MAX
                    { (old(self).current + amount) as u32 }
                else
                    { u32::MAX }
            ),
            final(self).best == (
                if final(self).current >= old(self).best
                    { final(self).current }
                else
                    { old(self).best }
            ),
    {
        if amount >= u32::MAX as u64 {
            self.current = u32::MAX;
        } else {
            let small: u32 = amount as u32;
            self.current = if small <= u32::MAX - self.current {
                self.current + small
            } else {
                u32::MAX
            };
        }
        if self.current > self.best {
            self.best = self.current;
        }
    }

    /// Deducts a penalty from the run score, saturating at zero; the best
    /// score is untouched.
    pub fn penalize(&mut self, amount: u32)
        requires
            old(self).wf(),
        ensures
            final(self).wf(),
            final(self).best == old(self).best,
            final(self).current == (
                if amount <= old(self).current
                    { (old(self).current - amount) as u32 }
                else
                    { 0u32 }
            ),
    {
        self.current = if amount <= self.current {
            self.current - amount
        } else {
            0
        };
    }

    /// Zeroes the run score; the best survives.
    pub fn reset_run(&mut self)
        requires
            old(self).wf(),
        ensures
            final(self).wf(),
            final(self).current == 0,
            final(self).best == old(self).best,
    {
        self.current = 0;
    }
}

/// The shield buff: a countdown in milliseconds. The shield is active
/// exactly while time remains.
#[derive(Clone, Copy, PartialEq, Eq, Structural, Debug)]
pub struct ShieldState {
    pub remaining_ms: u64,
    /// The full duration the shield was last armed with.
    pub duration_ms: u64,
}

impl ShieldState {
    pub fn new() -> (r: ShieldState)
        ensures
            r.remaining_ms == 0,
            r.duration_ms == SHIELD_DURATION_MS,
    {
        ShieldState { remaining_ms: 0, duration_ms: SHIELD_DURATION_MS }
    }

    pub fn is_active(&self) -> (r: bool)
        ensures
            r == (self.remaining_ms > 0),
    {
        self.remaining_ms > 0
    }

    /// (Re)arms the shield for `duration_ms`.
    pub fn activate(&mut self, duration_ms: u64)
        ensures
            final(self).remaining_ms == duration_ms,
            final(self).duration_ms == duration_ms,
    {
        self.remaining_ms = duration_ms;
        self.duration_ms = duration_ms;
    }

    /// Drops the shield immediately.
    pub fn clear(&mut self)
        ensures
            final(self).remaining_ms == 0,
            final(self).duration_ms == old(self).duration_ms,
    {
        self.remaining_ms = 0;
    }

    /// Counts the shield down, saturating at zero.
    pub fn tick(&mut self, dt_ms: u64)
        ensures
            final(self).duration_ms == old(self).duration_ms,
            final(self).remaining_ms == (
                if dt_ms <= old(self).remaining_ms
                    { (old(self).remaining_ms - dt_ms) as u64 }
                else
                    { 0u64 }
            ),
    {
        self.remaining_ms = if dt_ms <= self.remaining_ms {
            self.remaining_ms - dt_ms
        } else {
            0
        };
    }
}

/// Per-run combat stats: base trail damage, collected accuracy stacks and
/// the wave-blast buff countdown.
#[derive(Clone, Copy, PartialEq, Eq, Structural, Debug)]
pub struct CombatStats {
    /// Base damage of one trail segment, in milli-hit-points.
    pub base_trail_damage_milli: u64,
    /// Accuracy pickups collected this run, capped.
    pub accuracy_stacks: u32,
    /// Remaining wave-blast time in milliseconds; zero means no buff.
    pub wave_blast_remaining_ms: u64,
}

/// Movement-speed factor the accuracy stacks grant, in thousandths:
/// +12% per stack, capped at +40%.
pub open spec fn spec_accuracy_move_mult(stacks: u32) -> int {
    if ACCURACY_MOVE_STEP_MILLI * stacks <= ACCURACY_MOVE_CAP_MILLI {
        1000 + ACCURACY_MOVE_STEP_MILLI * stacks
    } else {
        1000 + ACCURACY_MOVE_CAP_MILLI
    }
}

/// Trail damage after buffs, in milli-hit-points: the base scaled by the
/// accuracy multiplier and then by the upgrade multiplier, each a
/// thousandths factor, truncating.
pub open spec fn spec_trail_damage_milli(
    base_milli: u64,
    accuracy_stacks: u32,
    upgrade_mult_milli: u32,
) -> int {
    let acc = base_milli * (1000 + ACCURACY_STEP_MILLI * accuracy_stacks) / 1000;
    acc * upgrade_mult_milli / 1000
}

impl CombatStats {
    pub open spec fn wf(self) -> bool {
        &&& self.base_trail_damage_milli <= 1_000_000
        &&& self.accuracy_stacks <= ACCURACY_STACK_CAP
        &&& self.wave_blast_remaining_ms <= WAVE_BLAST_DURATION_MS
    }

    pub fn new() -> (r: CombatStats)
        ensures
            r.wf(),
            r.base_trail_damage_milli == TRAIL_BASE_DAMAGE_MILLI,
            r.accuracy_stacks == 0,
            r.wave_blast_remaining_ms == 0,
    {
        CombatStats {
            base_trail_damage_milli: TRAIL_BASE_DAMAGE_MILLI,
            accuracy_stacks: 0,
            wave_blast_remaining_ms: 0,
        }
    }

    /// The damage one trail segment captures at spawn time, given the
    /// upgrade multiplier in thousandths.
    pub fn trail_damage_milli(&self, upgrade_mult_milli: u32) -> (r: u64)
        requires
            self.wf(),
            upgrade_mult_milli <= 10_000,
        ensures
            r == spec_trail_damage_milli(
                self.base_trail_damage_milli,
                self.accuracy_stacks,
                upgrade_mult_milli,
            ),
            r <= 200_000_000,
    {
        let acc_mult: u64 = 1000 + ACCURACY_STEP_MILLI * (self.accuracy_stacks as u64);
        proof {
            assert(self.base_trail_damage_milli * acc_mult <= 1_000_000 * 11_000)
                by (nonlinear_arith)
                requires
                    0 <= self.base_trail_damage_milli <= 1_000_000,
                    0 <= acc_mult <= 11_000,
            ;
            vstd::arithmetic::div_mod::lemma_div_is_ordered(
                self.base_trail_damage_milli * acc_mult,
                1_000_000int * 11_000int,
                1000,
            );
            vstd::arithmetic::div_mod::lemma_div_is_ordered(
                0,
                self.base_trail_damage_milli * acc_mult,
                1000,
            );
        }
        let with_acc: u64 = self.base_trail_damage_milli * acc_mult / 1000;
        proof {
            assert(with_acc * upgrade_mult_milli <= 11_000_000 * 10_000)
                by (nonlinear_arith)
                requires
                    0 <= with_acc <= 11_000_000,
                    0 <= upgrade_mult_milli <= 10_000,
            ;
            vstd::arithmetic::div_mod::lemma_div_is_ordered(
                with_acc * upgrade_mult_milli,
                11_000_000int * 10_000int,
                1000,
            );
            vstd::arithmetic::div_mod::lemma_div_is_ordered(
                0,
                with_acc * upgrade_mult_milli,
                1000,
            );
        }
        with_acc * (upgrade_mult_milli as u64) / 1000
    }

    /// The movement-speed factor the collected accuracy stacks grant, in
    /// thousandths.
    pub fn movement_accuracy_multiplier(&self) -> (r: u32)
        requires
            self.wf(),
        ensures
            r == spec_accuracy_move_mult(self.accuracy_stacks),
            1000 <= r <= 1400,
    {
        let raw: u32 = ACCURACY_MOVE_STEP_MILLI * self.accuracy_stacks;
        if raw <= ACCURACY_MOVE_CAP_MILLI {
            1000 + raw
        } else {
            1000 + ACCURACY_MOVE_CAP_MILLI
        }
    }

    /// One accuracy pickup: adds a stack up to the cap.
    pub fn add_accuracy_stack(&mut self)
        requires
            old(self).wf(),
        ensures
            final(self).wf(),
            final(self).accuracy_stacks == (
                if old(self).accuracy_stacks < ACCURACY_STACK_CAP
                    { (old(self).accuracy_stacks + 1) as u32 }
                else
                    { old(self).accuracy_stacks }
            ),
            final(self).base_trail_damage_milli == old(self).base_trail_damage_milli,
            final(self).wave_blast_remaining_ms == old(self).wave_blast_remaining_ms,
    {
        if self.accuracy_stacks < ACCURACY_STACK_CAP {
            self.accuracy_stacks = self.accuracy_stacks + 1;
        }
    }

    /// Arms the wave-blast buff for its full duration.
    pub fn activate_wave_blast(&mut self)
        requires
            old(self).wf(),
        ensures
            final(self).wf(),
            final(self).wave_blast_remaining_ms == WAVE_BLAST_DURATION_MS,
            final(self).accuracy_stacks == old(self).accuracy_stacks,
            final(self).base_trail_damage_milli == old(self).base_trail_damage_milli,
    {
        self.wave_blast_remaining_ms = WAVE_BLAST_DURATION_MS;
    }

    pub fn has_wave_blast(&self) -> (r: bool)
        ensures
            r == (self.wave_blast_remaining_ms > 0),
    {
        self.wave_blast_remaining_ms > 0
    }

    /// Counts the wave-blast buff down, saturating at zero.
    pub fn tick_wave_blast(&mut self, dt_ms: u64)
        requires
            old(self).wf(),
        ensures
            final(self).wf(),
            final(self).accuracy_stacks == old(self).accuracy_stacks,
            final(self).base_trail_damage_milli == old(self).base_trail_damage_milli,
            final(self).wave_blast_remaining_ms == (
                if dt_ms <= old(self).wave_blast_remaining_ms
                    { (old(self).wave_blast_remaining_ms - dt_ms) as u64 }
                else
                    { 0u64 }
            ),
    {
        self.wave_blast_remaining_ms = if dt_ms <= self.wave_blast_remaining_ms {
            self.wave_blast_remaining_ms - dt_ms
        } else {
            0
        };
    }

    /// Clears the per-run buffs, keeping the base damage.
    pub fn reset(&mut self)
        requires
            old(self).wf(),
        ensures
            final(self).wf(),
            final(self).accuracy_stacks == 0,
            final(self).wave_blast_remaining_ms == 0,
            final(self).base_trail_damage_milli == old(self).base_trail_damage_milli,
    {
        self.accuracy_stacks = 0;
        self.wave_blast_remaining_ms = 0;
    }
}

/// Whether the shop overlay is open, and which entry is selected.
#[derive(Clone, Copy, PartialEq, Eq, Structural, Debug)]
pub struct ShopState {
    pub is_open: bool,
    pub selected_index: usize,
}

impl ShopState {
    pub fn new() -> (r: ShopState)
        ensures
            !r.is_open,
            r.selected_index == 0,
    {
        ShopState { is_open: false, selected_index: 0 }
    }

    pub fn toggle(&mut self)
        ensures
            final(self).is_open == !old(self).is_open,
            final(self).selected_index == old(self).selected_index,
    {
        self.is_open = !self.is_open;
    }
}

/// Brief pause on impact for hit feel: a countdown in milliseconds.
#[derive(Clone, Copy, PartialEq, Eq, Structural, Debug)]
pub struct HitFreeze {
    pub remaining_ms: u64,
}

/// Length of one hit-freeze, in milliseconds.
pub const HIT_FREEZE_DURATION_MS: u64 = 40;

impl HitFreeze {
    pub fn new() -> (r: HitFreeze)
        ensures
            r.remaining_ms == 0,
    {
        HitFreeze { remaining_ms: 0 }
    }

    pub fn trigger(&mut self)
        ensures
            final(self).remaining_ms == HIT_FREEZE_DURATION_MS,
    {
        self.remaining_ms = HIT_FREEZE_DURATION_MS;
    }

    pub fn is_active(&self) -> (r: bool)
        ensures
            r == (self.remaining_ms > 0),
    {
        self.remaining_ms > 0
    }

    pub fn update(&mut self, dt_ms: u64)
        ensures
            final(self).remaining_ms == (
                if dt_ms <= old(self).remaining_ms
                    { (old(self).remaining_ms - dt_ms) as u64 }
                else
                    { 0u64 }
            ),
    {
        self.remaining_ms = if dt_ms <= self.remaining_ms {
            self.remaining_ms - dt_ms
        } else {
            0
        };
    }
}

/// Screen-shake trauma in thousandths, capped at one; it decays over time
/// and each impact adds to it. The random camera offset drawn from it is a
/// presentation concern and stays outside.
#[derive(Clone, Copy, PartialEq, Eq, Structural, Debug)]
pub struct ScreenShake {
    pub trauma_milli: u32,
}

/// Trauma lost per second, in thousandths.
pub const SCREEN_SHAKE_DECAY_MILLI_PER_S: u64 = 3000;

impl ScreenShake {
    pub open spec fn wf(self) -> bool {
        self.trauma_milli <= 1000
    }

    pub fn new() -> (r: ScreenShake)
        ensures
            r.wf(),
            r.trauma_milli == 0,
    {
        ScreenShake { trauma_milli: 0 }
    }

    /// Adds trauma, capped at full.
    pub fn add_trauma(&mut self, amount_milli: u32)
        requires
            old(self).wf(),
        ensures
            final(self).wf(),
            final(self).trauma_milli == (
                if old(self).trauma_milli + amount_milli <= 1000
                    { (old(self).trauma_milli + amount_milli) as u32 }
                else
                    { 1000u32 }
            ),
    {
        self.trauma_milli = if amount_milli <= 1000 - self.trauma_milli {
            self.trauma_milli + amount_milli
        } else {
            1000
        };
    }

    /// Decays trauma by the fixed rate over `dt_ms`, saturating at zero.
    pub fn update(&mut self, dt_ms: u64)
        requires
            old(self).wf(),
            dt_ms <= 1_000_000,
        ensures
            final(self).wf(),
            final(self).trauma_milli == (
                if SCREEN_SHAKE_DECAY_MILLI_PER_S * dt_ms / 1000 <= old(self).trauma_milli
                    { (old(self).trauma_milli - SCREEN_SHAKE_DECAY_MILLI_PER_S * dt_ms
                        / 1000) as u32 }
                else
                    { 0u32 }
            ),
    {
        let decay: u64 = SCREEN_SHAKE_DECAY_MILLI_PER_S * dt_ms / 1000;
        proof {
            vstd::arithmetic::div_mod::lemma_div_is_ordered(0, 3000 * dt_ms, 1000);
        }
        self.trauma_milli = if decay <= self.trauma_milli as u64 {
            (self.trauma_milli as u64 - decay) as u32
        } else {
            0
        };
    }
}

} // verus!
