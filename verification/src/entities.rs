//! Entity records and their per-tick motion.
//!
//! Each entity kind is a plain record: position, optional steering
//! velocity, and an independently decaying knockback impulse. Positions are
//! clamped to the playable region (plus an off-screen margin for entities
//! that spawn outside it), so every coordinate stays a comfortable machine
//! word.

use vstd::prelude::*;

use crate::geom::{
    spec_add_vec, spec_clamp_length, spec_clamp_vec, spec_lerp_vec, spec_normalize_to,
    spec_scale_vec, spec_sub_vec, lerp_vec, Vec2,
};

verus! {

/// Half-width of the playable region, in milli-units.
pub const ARENA_HALF: i64 = 2_500_000;

/// Entities that spawn off-screen may sit this far outside the playable
/// region before being clamped, in milli-units.
pub const ENTITY_BOUND: i64 = 3_500_000;

/// No steering velocity in the game exceeds this, in milli-units per second.
pub const VELOCITY_BOUND: i64 = 2_000_000;

/// No knockback impulse exceeds this, in milli-units per second.
pub const KNOCKBACK_BOUND: i64 = 2_000_000;

/// Player collision radius, in milli-units.
pub const PLAYER_RADIUS: i64 = 14_000;

/// Trail segment hit radius, in milli-units.
pub const TRAIL_HIT_RADIUS: i64 = 16_000;

/// Lifetime of one trail segment, in milliseconds.
pub const TRAIL_LIFETIME_MS: u64 = 2600;

/// Interval between trail segment spawns, in milliseconds.
pub const TRAIL_SPAWN_INTERVAL_MS: u64 = 28;

/// How long an unpicked power-up survives, in milliseconds.
pub const POWER_UP_LIFETIME_MS: u64 = 12_000;

/// Knockback speed a trail hit hands a hostile, before upgrade scaling, in
/// milli-units per second.
pub const ENEMY_KNOCKBACK: i64 = 250_000;

/// Knockback speed the player receives when hit, in milli-units per second.
pub const PLAYER_KNOCKBACK_STRENGTH: i64 = 200_000;

/// Per-tick damping factor of the player's knockback impulse, in
/// thousandths.
pub const KNOCKBACK_DAMPING_MILLI: i64 = 900;

/// Per-tick damping factor of a hostile's knockback impulse, in
/// thousandths.
pub const ENEMY_KNOCKBACK_DAMPING_MILLI: i64 = 920;

/// Steering blend factor of hostile pursuit, in thousandths per tick.
pub const ENEMY_TURN_MILLI: i64 = 180;

/// Player steering blend factor while accelerating, in thousandths per tick.
pub const PLAYER_ACCEL_MILLI: i64 = 180;

/// Player steering blend factor while stopping, in thousandths per tick.
pub const PLAYER_DECEL_MILLI: i64 = 320;

/// Base player speed, in milli-units per second.
pub const PLAYER_SPEED: i64 = 950_000;

/// Pointer deadzone: inside this distance the player brakes, in milli-units.
pub const PLAYER_DEADZONE: i64 = 4_000;

/// The weapon mode is derived from the wave-blast buff, never chosen.
#[derive(Clone, Copy, PartialEq, Eq, Structural, Debug)]
pub enum WeaponType {
    Trail,
    Wave,
}

/// What a power-up grants when picked up.
#[derive(Clone, Copy, PartialEq, Eq, Structural, Debug)]
pub enum PowerUpKind {
    Currency,
    Health,
    Shield,
    Accuracy,
    WaveBlast,
}

/// The controllable unit.
#[derive(Clone, Copy, PartialEq, Eq, Structural, Debug)]
pub struct PlayerBody {
    pub pos: Vec2,
    pub vel: Vec2,
    pub knockback: Vec2,
    pub weapon: WeaponType,
}

impl PlayerBody {
    pub open spec fn wf(self) -> bool {
        &&& self.pos.bounded(ARENA_HALF as int)
        &&& self.vel.bounded(VELOCITY_BOUND as int)
        &&& self.knockback.bounded(KNOCKBACK_BOUND as int)
    }

    pub fn new() -> (r: PlayerBody)
        ensures
            r.wf(),
            r.pos.is_zero(),
            r.vel.is_zero(),
            r.knockback.is_zero(),
            r.weapon == WeaponType::Trail,
    {
        PlayerBody {
            pos: Vec2::zero(),
            vel: Vec2::zero(),
            knockback: Vec2::zero(),
            weapon: WeaponType::Trail,
        }
    }

    /// One steering step: outside the pointer deadzone the velocity blends
    /// toward full speed at the target; inside it, toward rest. Knockback
    /// is added for the integration only and then damped, and the new
    /// position is clamped to the arena.
    pub fn steer(&mut self, target: Vec2, speed: i64, dt_ms: u64)
        requires
            old(self).wf(),
            target.bounded(ARENA_HALF as int),
            0 <= speed <= VELOCITY_BOUND,
            dt_ms <= 1000,
        ensures
            final(self).wf(),
            final(self).weapon == old(self).weapon,
            final(self).vel == spec_steer_velocity(*old(self), target, speed),
            final(self).knockback == spec_scale_vec(
                old(self).knockback,
                KNOCKBACK_DAMPING_MILLI,
                1000,
            ),
            final(self).pos == spec_clamp_vec(
                spec_add_vec(
                    old(self).pos,
                    spec_scale_vec(
                        spec_add_vec(final(self).vel, old(self).knockback),
                        dt_ms as i64,
                        1000,
                    ),
                ),
                ARENA_HALF,
            ),
    {
        let delta = target.sub(self.pos);
        let dist_sq = delta.length_squared();
        if dist_sq > (PLAYER_DEADZONE * PLAYER_DEADZONE) as u64 {
            let desired = delta.normalize_to(speed);
            self.vel = lerp_vec(self.vel, desired, PLAYER_ACCEL_MILLI);
        } else {
            self.vel = lerp_vec(self.vel, Vec2::zero(), PLAYER_DECEL_MILLI);
        }
        let combined = self.vel.add(self.knockback);
        let step = combined.scale_div(dt_ms as i64, 1000);
        self.pos = self.pos.add(step).clamp_to_bounds(ARENA_HALF);
        self.knockback = self.knockback.scale_div(KNOCKBACK_DAMPING_MILLI, 1000);
    }
}

/// Where one steering step puts the player's velocity.
pub open spec fn spec_steer_velocity(p: PlayerBody, target: Vec2, speed: i64) -> Vec2 {
    let delta = Vec2 { x: (target.x - p.pos.x) as i64, y: (target.y - p.pos.y) as i64 };
    if delta.x * delta.x + delta.y * delta.y > PLAYER_DEADZONE * PLAYER_DEADZONE {
        spec_lerp_vec(p.vel, spec_normalize_to(delta, speed), PLAYER_ACCEL_MILLI)
    } else {
        spec_lerp_vec(p.vel, Vec2 { x: 0, y: 0 }, PLAYER_DECEL_MILLI)
    }
}

/// A pursuing hostile. Health is in milli-hit-points; zero means dead.
#[derive(Clone, Copy, PartialEq, Eq, Structural, Debug)]
pub struct Hostile {
    pub pos: Vec2,
    pub vel: Vec2,
    pub knockback: Vec2,
    /// Pursuit speed, in milli-units per second.
    pub speed: u64,
    /// Remaining health in milli-hit-points; zero marks a dead hostile.
    pub health_milli: u64,
}

impl Hostile {
    pub open spec fn wf(self) -> bool {
        &&& self.pos.bounded(ENTITY_BOUND as int)
        &&& self.vel.bounded(VELOCITY_BOUND as int)
        &&& self.knockback.bounded(KNOCKBACK_BOUND as int)
        &&& self.speed <= VELOCITY_BOUND
    }

    pub open spec fn is_dead(self) -> bool {
        self.health_milli == 0
    }

    /// One pursuit step: pure seek with a steering limit. The desired
    /// velocity is full speed at the player; the velocity is nudged
    /// toward it by a steering force capped at `speed` times the turn
    /// rate, then clamped to `speed` in magnitude. Knockback is added for
    /// the integration only and then damped, and the position is clamped
    /// to the entity region. A dead hostile does not move.
    pub fn steer(&mut self, player_pos: Vec2, dt_ms: u64)
        requires
            old(self).wf(),
            player_pos.bounded(ARENA_HALF as int),
            dt_ms <= 1000,
        ensures
            final(self).wf(),
            final(self).speed == old(self).speed,
            final(self).health_milli == old(self).health_milli,
            old(self).is_dead() ==> *final(self) == *old(self),
            !old(self).is_dead() ==> {
                &&& final(self).vel == spec_pursuit_velocity(*old(self), player_pos, dt_ms)
                &&& final(self).knockback == spec_scale_vec(
                    old(self).knockback,
                    ENEMY_KNOCKBACK_DAMPING_MILLI,
                    1000,
                )
                &&& final(self).pos == spec_clamp_vec(
                    spec_add_vec(
                        old(self).pos,
                        spec_scale_vec(
                            spec_add_vec(final(self).vel, old(self).knockback),
                            dt_ms as i64,
                            1000,
                        ),
                    ),
                    ENTITY_BOUND,
                )
            },
    {
        if self.health_milli == 0 {
            return;
        }
        let direction = player_pos.sub(self.pos);
        let desired = direction.normalize_to(self.speed as i64);
        let steering = desired.sub(self.vel);
        let cap: i64 = ((self.speed as u64) * (ENEMY_TURN_MILLI as u64) / 1000) as i64;
        proof {
            vstd::arithmetic::div_mod::lemma_div_is_ordered(
                0,
                self.speed * (ENEMY_TURN_MILLI as u64),
                1000,
            );
            vstd::arithmetic::div_mod::lemma_div_is_ordered(
                self.speed * (ENEMY_TURN_MILLI as u64),
                2_000_000int * 180,
                1000,
            );
        }
        let force = steering.clamp_length(cap);
        let scale: i64 = (dt_ms as i64) * 10;
        let dv = force.scale_div(scale, 1000);
        proof {
            crate::geom::lemma_scale_bound_general(
                force.x as int,
                scale as int,
                1000,
                cap as int,
            );
            crate::geom::lemma_scale_bound_general(
                force.y as int,
                scale as int,
                1000,
                cap as int,
            );
            assert(0 <= cap * scale <= 360_000int * 10_000) by (nonlinear_arith)
                requires
                    0 <= cap <= 360_000,
                    0 <= scale <= 10_000,
            ;
            vstd::arithmetic::div_mod::lemma_div_is_ordered(0, cap * scale, 1000);
            vstd::arithmetic::div_mod::lemma_div_is_ordered(
                cap * scale,
                360_000int * 10_000,
                1000,
            );
        }
        let nudged = self.vel.add(dv);
        self.vel = nudged.clamp_length(self.speed as i64);
        let combined = self.vel.add(self.knockback);
        let step = combined.scale_div(dt_ms as i64, 1000);
        self.pos = self.pos.add(step).clamp_to_bounds(ENTITY_BOUND);
        self.knockback = self.knockback.scale_div(ENEMY_KNOCKBACK_DAMPING_MILLI, 1000);
    }

    /// Applies `damage_milli` damage, saturating at zero.
    pub fn damage(&mut self, damage_milli: u64)
        ensures
            final(self).pos == old(self).pos,
            final(self).vel == old(self).vel,
            final(self).knockback == old(self).knockback,
            final(self).speed == old(self).speed,
            final(self).health_milli == (
                if damage_milli <= old(self).health_milli
                    { (old(self).health_milli - damage_milli) as u64 }
                else
                    { 0u64 }
            ),
    {
        self.health_milli = if damage_milli <= self.health_milli {
            self.health_milli - damage_milli
        } else {
            0
        };
    }
}

/// Where one pursuit step puts a hostile's velocity: the steering force
/// toward full speed at the player, capped at `speed` times the turn
/// rate, integrated over the tick, with the result clamped to `speed` in
/// magnitude.
pub open spec fn spec_pursuit_velocity(h: Hostile, player_pos: Vec2, dt_ms: u64) -> Vec2 {
    let direction = spec_sub_vec(player_pos, h.pos);
    let desired = spec_normalize_to(direction, h.speed as i64);
    let steering = spec_sub_vec(desired, h.vel);
    let cap = (h.speed * ENEMY_TURN_MILLI / 1000) as i64;
    let force = spec_clamp_length(steering, cap);
    let dv = spec_scale_vec(force, (dt_ms * 10) as i64, 1000);
    spec_clamp_length(spec_add_vec(h.vel, dv), h.speed as i64)
}

/// One damaging segment of the trail weapon. The damage is captured at
/// spawn time; upgrades bought later do not change it.
#[derive(Clone, Copy, PartialEq, Eq, Structural, Debug)]
pub struct TrailSegment {
    pub pos: Vec2,
    /// Remaining lifetime in milliseconds; the segment is removed the tick
    /// this reaches zero.
    pub remaining_ms: u64,
    /// Damage in milli-hit-points, fixed at spawn time.
    pub damage_milli: u64,
}

impl TrailSegment {
    pub open spec fn wf(self) -> bool {
        &&& self.pos.bounded(ARENA_HALF as int)
        &&& self.remaining_ms <= TRAIL_LIFETIME_MS
        &&& self.damage_milli <= 200_000_000
    }
}

/// A curving projectile of the wave weapon.
#[derive(Clone, Copy, PartialEq, Eq, Structural, Debug)]
pub struct WaveProjectile {
    pub pos: Vec2,
    pub vel: Vec2,
    pub age_ms: u64,
    pub lifetime_ms: u64,
    pub damage_milli: u64,
    /// Signed strength of the curving force, in milli-units per second per
    /// second; the sign picks the bending side.
    pub curve: i64,
}

/// Lifetime of one wave projectile, in milliseconds.
pub const WAVE_LIFETIME_MS: u64 = 2000;

/// Damage of one wave projectile, in milli-hit-points.
pub const WAVE_DAMAGE_MILLI: u64 = 2000;

/// Hit radius of the wave weapon, in milli-units.
pub const WAVE_HIT_RADIUS: i64 = 24_000;

/// Per-tick damping of a wave projectile's velocity, in thousandths.
pub const WAVE_DAMPING_MILLI: i64 = 992;

/// Squared player speed needed to cast waves, in squared milli-units per
/// second.
pub const WAVE_MIN_SPEED_SQ: u64 = 5_000_000_000;

/// Milliseconds between wave volleys.
pub const WAVE_CADENCE_MS: u64 = 80;

impl WaveProjectile {
    pub open spec fn wf(self) -> bool {
        &&& self.pos.bounded(ENTITY_BOUND as int)
        &&& self.vel.bounded(VELOCITY_BOUND as int)
        &&& self.age_ms <= self.lifetime_ms
        &&& self.lifetime_ms <= WAVE_LIFETIME_MS
        &&& -1_000_000 <= self.curve <= 1_000_000
    }
}

/// A time-limited pickup lying in the arena.
#[derive(Clone, Copy, PartialEq, Eq, Structural, Debug)]
pub struct PowerUpEntity {
    pub kind: PowerUpKind,
    pub pos: Vec2,
    /// Remaining time before it despawns unpicked, in milliseconds.
    pub remaining_ms: u64,
}

impl PowerUpEntity {
    pub open spec fn wf(self) -> bool {
        &&& self.pos.bounded(ENTITY_BOUND as int)
        &&& self.remaining_ms <= POWER_UP_LIFETIME_MS
    }
}

/// A cosmetic particle; it shares the lifetime pattern but affects nothing.
#[derive(Clone, Copy, PartialEq, Eq, Structural, Debug)]
pub struct Particle {
    pub pos: Vec2,
    pub vel: Vec2,
    pub age_ms: u64,
    pub lifetime_ms: u64,
}

impl Particle {
    pub open spec fn wf(self) -> bool {
        &&& self.pos.bounded(ENTITY_BOUND as int)
        &&& self.vel.bounded(VELOCITY_BOUND as int)
        &&& self.age_ms <= self.lifetime_ms
        &&& self.lifetime_ms <= 10_000
    }
}

} // verus!
