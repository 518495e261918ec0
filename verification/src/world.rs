//! The simulation context: every entity and resource of one game,
//! advanced by an explicit tick in a fixed deterministic order.

use vstd::prelude::*;

use crate::combat::{
    apply_powerup_pickups, resolve_hits, resolve_player_collisions, spec_contact_pass,
    spec_hit_pass, spec_pickup_pass, trail_sources, wave_sources, ContactPassState,
    HitPassState, PickupPassState,
};
use crate::combo::Combo;
use crate::economy::{Currency, Ledger, PurchaseOutcome, PurchasedUpgrades, UpgradeType};
use crate::entities::{
    Hostile, Particle, PlayerBody, PowerUpEntity, TrailSegment, WaveProjectile, WeaponType,
    ARENA_HALF, ENEMY_KNOCKBACK, ENTITY_BOUND, PLAYER_SPEED, TRAIL_HIT_RADIUS,
    TRAIL_LIFETIME_MS, TRAIL_SPAWN_INTERVAL_MS, VELOCITY_BOUND, WAVE_CADENCE_MS,
    WAVE_DAMAGE_MILLI, WAVE_HIT_RADIUS, WAVE_LIFETIME_MS, WAVE_MIN_SPEED_SQ,
};
use crate::geom::{
    spec_add_vec, spec_clamp_vec, spec_scale_vec, Vec2,
};
use crate::rng::rand_below;
use crate::spawner::{enemy_health_milli, enemy_speed, EnemySpawnTimer, ENEMY_SPAWN_DISTANCE,
    SPAWN_INTERVAL_START_MS};
use crate::state::{
    CombatStats, HitFreeze, PlayerHealth, RunState, ScreenShake, ShieldState, Score,
    SHIELD_DURATION_MS,
};
use crate::PLAYER_MAX_HEALTH;
use crate::timer::{Timer, TimerMode};

verus! {

/// The whole simulation state: resources and entity tables, owned by one
/// tick loop. The player is a field, so exactly one player exists by
/// construction.
pub struct Sim {
    pub run: RunState,
    pub score: Score,
    pub ledger: Ledger,
    pub health: PlayerHealth,
    pub shield: ShieldState,
    pub combat: CombatStats,
    pub combo: Combo,
    pub spawn_timer: EnemySpawnTimer,
    pub trail_timer: Timer,
    /// Accumulator toward the next wave volley, in milliseconds.
    pub wave_timer_ms: u64,
    pub player: PlayerBody,
    /// The fused pointer target the input collaborator supplies.
    pub pointer: Vec2,
    pub hostiles: Vec<Hostile>,
    pub trail: Vec<TrailSegment>,
    pub waves: Vec<WaveProjectile>,
    pub powerups: Vec<PowerUpEntity>,
    pub particles: Vec<Particle>,
    pub shake: ScreenShake,
    pub hit_freeze: HitFreeze,
    /// Set when the persistent economy changed and has not been saved yet.
    pub dirty: bool,
}

impl Sim {
    pub open spec fn wf(self) -> bool {
        &&& self.run.wf()
        &&& self.score.wf()
        &&& self.ledger.wf()
        &&& self.health.wf()
        &&& self.health.max == PLAYER_MAX_HEALTH + self.ledger.upgrades.max_health_level
        &&& self.shield.remaining_ms <= 100_000
        &&& self.shield.duration_ms == SHIELD_DURATION_MS + 750
            * self.ledger.upgrades.shield_level
        &&& self.combat.wf()
        &&& self.combo.wf()
        &&& self.spawn_timer.wf()
        &&& self.trail_timer.wf()
        &&& self.trail_timer.duration_ms == TRAIL_SPAWN_INTERVAL_MS
        &&& self.trail_timer.mode == TimerMode::Repeating
        &&& !self.trail_timer.paused
        &&& self.wave_timer_ms < WAVE_CADENCE_MS
        &&& self.player.wf()
        &&& self.pointer.bounded(ARENA_HALF as int)
        &&& (forall|i: int| 0 <= i < self.hostiles@.len() ==> (
        #[trigger] self.hostiles@[i]).wf())
        &&& (forall|i: int| 0 <= i < self.hostiles@.len() ==> (
        #[trigger] self.hostiles@[i]).health_milli > 0)
        &&& (forall|i: int| 0 <= i < self.trail@.len() ==> (
        #[trigger] self.trail@[i]).wf())
        &&& (forall|i: int| 0 <= i < self.waves@.len() ==> (
        #[trigger] self.waves@[i]).wf())
        &&& (forall|i: int| 0 <= i < self.powerups@.len() ==> (
        #[trigger] self.powerups@[i]).wf())
        &&& (forall|i: int| 0 <= i < self.particles@.len() ==> (
        #[trigger] self.particles@[i]).wf())
        &&& self.shake.wf()
    }

    /// A fresh simulation primed from the persisted economy: the maximum
    /// health carries the purchased bonus and the shield duration the
    /// purchased bonus seconds.
    pub fn new(currency: Currency, upgrades: PurchasedUpgrades) -> (r: Sim)
        requires
            upgrades.wf(),
        ensures
            r.wf(),
            r.ledger.currency == currency,
            r.ledger.upgrades == upgrades,
            r.health.max == PLAYER_MAX_HEALTH + upgrades.max_health_level,
            r.health.current == r.health.max,
            r.shield.remaining_ms == 0,
            r.shield.duration_ms == SHIELD_DURATION_MS + 750 * upgrades.shield_level,
            r.run.active,
            !r.run.paused,
            r.score.current == 0,
            r.combo.is_idle(),
            r.hostiles@.len() == 0,
            r.trail@.len() == 0,
            r.waves@.len() == 0,
            r.powerups@.len() == 0,
            r.particles@.len() == 0,
            !r.dirty,
    {
        let max_health = PLAYER_MAX_HEALTH + upgrades.max_health_bonus();
        let mut shield = ShieldState::new();
        shield.clear();
        let shield_duration = SHIELD_DURATION_MS + upgrades.shield_duration_bonus();
        shield.duration_ms = shield_duration;
        Sim {
            run: RunState::new(),
            score: Score::new(),
            ledger: Ledger::new(currency, upgrades),
            health: PlayerHealth::with_max(max_health),
            shield,
            combat: CombatStats::new(),
            combo: Combo::new(),
            spawn_timer: EnemySpawnTimer::new(SPAWN_INTERVAL_START_MS),
            trail_timer: Timer::new(TRAIL_SPAWN_INTERVAL_MS, TimerMode::Repeating),
            wave_timer_ms: 0,
            player: PlayerBody::new(),
            pointer: Vec2::zero(),
            hostiles: Vec::new(),
            trail: Vec::new(),
            waves: Vec::new(),
            powerups: Vec::new(),
            particles: Vec::new(),
            shake: ScreenShake::new(),
            hit_freeze: HitFreeze::new(),
            dirty: false,
        }
    }

    /// The shield time a shield pickup grants, with the upgrade bonus.
    pub fn shield_grant_ms(&self) -> (r: u64)
        requires
            self.wf(),
        ensures
            r == SHIELD_DURATION_MS + 750 * self.ledger.upgrades.shield_level,
            r <= 100_000,
    {
        SHIELD_DURATION_MS + self.ledger.upgrades.shield_duration_bonus()
    }

    /// Accepts the pointer target the input collaborator fused this tick;
    /// it is clamped to the arena.
    pub fn set_pointer_target(&mut self, target: Vec2)
        requires
            old(self).wf(),
        ensures
            final(self).wf(),
            final(self).pointer == spec_clamp_vec(target, ARENA_HALF),
            *final(self) == (Sim { pointer: final(self).pointer, ..*old(self) }),
    {
        self.pointer = target.clamp_to_bounds(ARENA_HALF);
    }

    /// Restarts after an ended run: score, health, combo, buffs, timers
    /// and all transient entities are reset in one step, while the
    /// persistent currency and upgrade levels survive unchanged.
    pub fn restart(&mut self)
        requires
            old(self).wf(),
        ensures
            final(self).wf(),
            final(self).ledger == old(self).ledger,
            final(self).run.active && !final(self).run.paused,
            final(self).score.current == 0,
            final(self).score.best == old(self).score.best,
            final(self).health.current == final(self).health.max,
            final(self).health.max == old(self).health.max,
            final(self).combo.is_idle(),
            final(self).shield.remaining_ms == 0,
            final(self).combat.accuracy_stacks == 0,
            final(self).combat.wave_blast_remaining_ms == 0,
            final(self).hostiles@.len() == 0,
            final(self).trail@.len() == 0,
            final(self).waves@.len() == 0,
            final(self).powerups@.len() == 0,
            final(self).particles@.len() == 0,
            final(self).player.pos.is_zero(),
            final(self).player.vel.is_zero(),
            final(self).player.knockback.is_zero(),
            final(self).pointer.is_zero(),
            final(self).spawn_timer.spawn_count == 0,
            final(self).spawn_timer.timer.duration_ms == SPAWN_INTERVAL_START_MS,
            final(self).dirty == old(self).dirty,
    {
        self.run.reset();
        self.score.reset_run();
        self.combo.reset();
        self.pointer = Vec2::zero();
        self.health.reset();
        self.shield.clear();
        self.combat.reset();
        self.spawn_timer.reset_ramp();
        self.trail_timer = Timer::new(TRAIL_SPAWN_INTERVAL_MS, TimerMode::Repeating);
        self.wave_timer_ms = 0;
        self.player = PlayerBody::new();
        self.hostiles = Vec::new();
        self.trail = Vec::new();
        self.waves = Vec::new();
        self.powerups = Vec::new();
        self.particles = Vec::new();
    }

    /// Attempts to buy the next level of `kind` and applies its effect to
    /// the running simulation: a bought maximum-health level raises the
    /// maximum by one and fills up, a bought shield level lengthens the
    /// shield and re-arms it; the other kinds feed in through the derived
    /// multipliers. A successful purchase marks the economy dirty.
    pub fn handle_purchase(&mut self, kind: UpgradeType) -> (r: PurchaseOutcome)
        requires
            old(self).wf(),
        ensures
            final(self).wf(),
            r == PurchaseOutcome::Purchased <==> (
                old(self).ledger.upgrades.spec_level_of(kind) < kind.spec_max_level()
                && old(self).ledger.currency.balance >= crate::economy::spec_cost_for_level(
                    kind,
                    old(self).ledger.upgrades.spec_level_of(kind),
                )
            ),
            r == PurchaseOutcome::Purchased ==> {
                &&& final(self).ledger.currency.balance == old(self).ledger.currency.balance
                    - crate::economy::spec_cost_for_level(
                    kind,
                    old(self).ledger.upgrades.spec_level_of(kind),
                )
                &&& final(self).ledger.upgrades == old(
                    self,
                ).ledger.upgrades.spec_with_level(
                    kind,
                    (old(self).ledger.upgrades.spec_level_of(kind) + 1) as u32,
                )
                &&& final(self).dirty
            },
            r != PurchaseOutcome::Purchased ==> *final(self) == *old(self),
            r == PurchaseOutcome::Purchased && kind == UpgradeType::MaxHealth ==> {
                &&& final(self).health.max == old(self).health.max + 1
                &&& final(self).health.current == final(self).health.max
            },
            r == PurchaseOutcome::Purchased && kind == UpgradeType::ShieldDuration ==> {
                &&& final(self).shield.duration_ms == old(self).shield.duration_ms + 750
                &&& final(self).shield.remaining_ms == final(self).shield.duration_ms
            },
            r == PurchaseOutcome::Purchased && kind != UpgradeType::MaxHealth
                ==> final(self).health == old(self).health,
    {
        let outcome = self.ledger.try_purchase(kind);
        if matches!(outcome, PurchaseOutcome::Purchased) {
            self.dirty = true;
            match kind {
                UpgradeType::MaxHealth => {
                    self.health.raise_max();
                },
                UpgradeType::ShieldDuration => {
                    self.shield.duration_ms = self.shield.duration_ms + 750;
                    self.shield.remaining_ms = self.shield.duration_ms;
                },
                _ => {},
            }
        }
        outcome
    }

    /// Reads and clears the persistence dirty flag; the storage
    /// collaborator saves exactly when this hands back true.
    pub fn take_dirty(&mut self) -> (r: bool)
        requires
            old(self).wf(),
        ensures
            final(self).wf(),
            r == old(self).dirty,
            !final(self).dirty,
            *final(self) == (Sim { dirty: false, ..*old(self) }),
    {
        let was = self.dirty;
        self.dirty = false;
        was
    }

    /// Derives the weapon mode: the wave weapon exactly while the
    /// wave-blast buff is running, the trail weapon otherwise.
    pub fn update_weapon_type(&mut self)
        requires
            old(self).wf(),
        ensures
            final(self).wf(),
            final(self).player.weapon == (
                if old(self).combat.wave_blast_remaining_ms > 0
                    { WeaponType::Wave }
                else
                    { WeaponType::Trail }
            ),
            *final(self) == (Sim {
                player: PlayerBody { weapon: final(self).player.weapon, ..old(self).player },
                ..*old(self)
            }),
    {
        self.player.weapon = if self.combat.has_wave_blast() {
            WeaponType::Wave
        } else {
            WeaponType::Trail
        };
    }

    /// Spawns one trail segment on the firing cadence while the run is
    /// going and the trail weapon is active. The segment captures the
    /// player's position and the damage derived from the current buffs
    /// and upgrades at this moment.
    pub fn spawn_trail_segments(&mut self, dt_ms: u64)
        requires
            old(self).wf(),
            dt_ms <= 1000,
        ensures
            final(self).wf(),
            !(old(self).run.spec_is_running() && old(self).player.weapon
                == WeaponType::Trail) ==> *final(self) == *old(self),
            (old(self).run.spec_is_running() && old(self).player.weapon
                == WeaponType::Trail) ==> {
                &&& final(self).trail@ == (
                    if old(self).trail_timer.elapsed_ms + dt_ms >= TRAIL_SPAWN_INTERVAL_MS {
                        old(self).trail@.push(
                            TrailSegment {
                                pos: old(self).player.pos,
                                remaining_ms: TRAIL_LIFETIME_MS,
                                damage_milli: crate::state::spec_trail_damage_milli(
                                    old(self).combat.base_trail_damage_milli,
                                    old(self).combat.accuracy_stacks,
                                    (1000 + 200 * old(
                                        self,
                                    ).ledger.upgrades.trail_damage_level) as u32,
                                ) as u64,
                            },
                        )
                    } else {
                        old(self).trail@
                    }
                )
                &&& final(self).trail_timer == crate::timer::spec_repeating_after_tick(
                    old(self).trail_timer,
                    dt_ms,
                )
                &&& *final(self) == (Sim {
                    trail: final(self).trail,
                    trail_timer: final(self).trail_timer,
                    ..*old(self)
                })
            },
    {
        if !(self.run.is_running() && matches!(self.player.weapon, WeaponType::Trail)) {
            return;
        }
        self.trail_timer.tick(dt_ms);
        if self.trail_timer.just_finished {
            let mult = self.ledger.upgrades.trail_damage_multiplier();
            let damage = self.combat.trail_damage_milli(mult);
            self.trail.push(
                TrailSegment {
                    pos: self.player.pos,
                    remaining_ms: TRAIL_LIFETIME_MS,
                    damage_milli: damage,
                },
            );
        }
    }
}

/// Trail segments after `dt` of aging: each loses the elapsed time, and a
/// segment whose remaining lifetime the tick exhausts is removed.
pub open spec fn spec_age_trail(s: Seq<TrailSegment>, dt: u64) -> Seq<TrailSegment>
    decreases s.len(),
{
    if s.len() == 0 {
        Seq::empty()
    } else {
        let rest = spec_age_trail(s.drop_last(), dt);
        let seg = s.last();
        if seg.remaining_ms > dt {
            rest.push(
                TrailSegment { remaining_ms: (seg.remaining_ms - dt) as u64, ..seg },
            )
        } else {
            rest
        }
    }
}

/// Power-ups after `dt` of aging: an unpicked power-up whose remaining
/// lifetime the tick exhausts despawns.
pub open spec fn spec_age_powerups(s: Seq<PowerUpEntity>, dt: u64) -> Seq<PowerUpEntity>
    decreases s.len(),
{
    if s.len() == 0 {
        Seq::empty()
    } else {
        let rest = spec_age_powerups(s.drop_last(), dt);
        let p = s.last();
        if p.remaining_ms > dt {
            rest.push(PowerUpEntity { remaining_ms: (p.remaining_ms - dt) as u64, ..p })
        } else {
            rest
        }
    }
}

impl Sim {
    /// Ages the trail: every segment loses `dt_ms` of lifetime and the
    /// exhausted ones are removed this tick, exactly once.
    pub fn update_trail_segments(&mut self, dt_ms: u64)
        requires
            old(self).wf(),
            dt_ms <= 1000,
        ensures
            final(self).wf(),
            final(self).trail@ == spec_age_trail(old(self).trail@, dt_ms),
            *final(self) == (Sim { trail: final(self).trail, ..*old(self) }),
    {
        let n = self.trail.len();
        let mut out: Vec<TrailSegment> = Vec::new();
        let mut i: usize = 0;
        while i < n
            invariant
                0 <= i <= n,
                n == self.trail@.len(),
                forall|t: int| 0 <= t < self.trail@.len() ==> (
                #[trigger] self.trail@[t]).wf(),
                out@ == spec_age_trail(self.trail@.take(i as int), dt_ms),
                forall|t: int| 0 <= t < out@.len() ==> (#[trigger] out@[t]).wf(),
                dt_ms <= 1000,
            decreases n - i,
        {
            let seg = self.trail[i];
            proof {
                assert(self.trail@.take(i + 1).drop_last() =~= self.trail@.take(i as int));
                assert(self.trail@.take(i + 1).last() == seg);
            }
            if seg.remaining_ms > dt_ms {
                out.push(
                    TrailSegment { remaining_ms: seg.remaining_ms - dt_ms, ..seg },
                );
            }
            i = i + 1;
        }
        proof {
            assert(self.trail@.take(n as int) =~= self.trail@);
        }
        self.trail = out;
    }

    /// Ages the power-ups: each loses `dt_ms` of lifetime and the ones
    /// that ran out despawn unpicked.
    pub fn tick_power_up_lifetimes(&mut self, dt_ms: u64)
        requires
            old(self).wf(),
            dt_ms <= 1000,
        ensures
            final(self).wf(),
            final(self).powerups@ == spec_age_powerups(old(self).powerups@, dt_ms),
            *final(self) == (Sim { powerups: final(self).powerups, ..*old(self) }),
    {
        let n = self.powerups.len();
        let mut out: Vec<PowerUpEntity> = Vec::new();
        let mut i: usize = 0;
        while i < n
            invariant
                0 <= i <= n,
                n == self.powerups@.len(),
                forall|t: int| 0 <= t < self.powerups@.len() ==> (
                #[trigger] self.powerups@[t]).wf(),
                out@ == spec_age_powerups(self.powerups@.take(i as int), dt_ms),
                forall|t: int| 0 <= t < out@.len() ==> (#[trigger] out@[t]).wf(),
                dt_ms <= 1000,
            decreases n - i,
        {
            let p = self.powerups[i];
            proof {
                assert(self.powerups@.take(i + 1).drop_last() =~= self.powerups@.take(
                    i as int,
                ));
                assert(self.powerups@.take(i + 1).last() == p);
            }
            if p.remaining_ms > dt_ms {
                out.push(PowerUpEntity { remaining_ms: p.remaining_ms - dt_ms, ..p });
            }
            i = i + 1;
        }
        proof {
            assert(self.powerups@.take(n as int) =~= self.powerups@);
        }
        self.powerups = out;
    }
}

/// The player's top speed under the movement upgrade and the accuracy
/// movement bonus, in milli-units per second.
pub open spec fn spec_player_speed(upgrades: PurchasedUpgrades, accuracy_stacks: u32) -> int {
    PLAYER_SPEED * (1000 + 100 * upgrades.movement_speed_level) / 1000
        * crate::state::spec_accuracy_move_mult(accuracy_stacks) / 1000
}

/// Where one pursuit step puts a whole hostile.
pub open spec fn spec_hostile_step(h: Hostile, ppos: Vec2, dt: u64) -> Hostile {
    let vel = crate::entities::spec_pursuit_velocity(h, ppos, dt);
    Hostile {
        vel,
        knockback: spec_scale_vec(
            h.knockback,
            crate::entities::ENEMY_KNOCKBACK_DAMPING_MILLI,
            1000,
        ),
        pos: spec_clamp_vec(
            spec_add_vec(h.pos, spec_scale_vec(spec_add_vec(vel, h.knockback), dt as i64, 1000)),
            ENTITY_BOUND,
        ),
        ..h
    }
}

/// Particles after `dt`: each moves by its velocity and ages; one whose
/// lifetime the tick exhausts is removed.
pub open spec fn spec_age_particles(s: Seq<Particle>, dt: u64) -> Seq<Particle>
    decreases s.len(),
{
    if s.len() == 0 {
        Seq::empty()
    } else {
        let rest = spec_age_particles(s.drop_last(), dt);
        let p = s.last();
        if p.age_ms + dt < p.lifetime_ms {
            rest.push(
                Particle {
                    pos: spec_clamp_vec(
                        spec_add_vec(p.pos, spec_scale_vec(p.vel, dt as i64, 1000)),
                        ENTITY_BOUND,
                    ),
                    age_ms: (p.age_ms + dt) as u64,
                    ..p
                },
            )
        } else {
            rest
        }
    }
}

/// One wave projectile after `dt`: it expires once its age reaches its
/// lifetime; otherwise the curving force bends its velocity sideways, the
/// velocity is damped and the projectile moves.
pub open spec fn spec_wave_step(w: WaveProjectile, dt: u64) -> Option<WaveProjectile> {
    if w.age_ms + dt >= w.lifetime_ms {
        None
    } else {
        let perp = Vec2 { x: (-w.vel.y) as i64, y: w.vel.x };
        let perp_unit = crate::geom::spec_normalize_to(perp, 1000);
        let mag = (if w.curve >= 0 { w.curve } else { (-w.curve) as i64 }) * dt / 1000;
        let dv0 = spec_scale_vec(perp_unit, mag as i64, 1000);
        let dv = if w.curve >= 0 {
            dv0
        } else {
            Vec2 { x: (-dv0.x) as i64, y: (-dv0.y) as i64 }
        };
        let v2 = spec_clamp_vec(
            spec_scale_vec(spec_add_vec(w.vel, dv), crate::entities::WAVE_DAMPING_MILLI, 1000),
            VELOCITY_BOUND,
        );
        Some(
            WaveProjectile {
                pos: spec_clamp_vec(
                    spec_add_vec(w.pos, spec_scale_vec(v2, dt as i64, 1000)),
                    ENTITY_BOUND,
                ),
                vel: v2,
                age_ms: (w.age_ms + dt) as u64,
                ..w
            },
        )
    }
}

/// Wave projectiles after `dt`, in order, expired ones removed.
pub open spec fn spec_age_waves(s: Seq<WaveProjectile>, dt: u64) -> Seq<WaveProjectile>
    decreases s.len(),
{
    if s.len() == 0 {
        Seq::empty()
    } else {
        let rest = spec_age_waves(s.drop_last(), dt);
        match spec_wave_step(s.last(), dt) {
            Some(w) => rest.push(w),
            None => rest,
        }
    }
}

impl Sim {
    /// Steers the player toward the pointer target for one tick, with the
    /// movement-speed upgrade applied; outside a running run nothing
    /// moves.
    pub fn move_player(&mut self, dt_ms: u64)
        requires
            old(self).wf(),
            dt_ms <= 1000,
        ensures
            final(self).wf(),
            !old(self).run.spec_is_running() ==> *final(self) == *old(self),
            old(self).run.spec_is_running() ==> {
                &&& final(self).player.vel == crate::entities::spec_steer_velocity(
                    old(self).player,
                    old(self).pointer,
                    spec_player_speed(
                        old(self).ledger.upgrades,
                        old(self).combat.accuracy_stacks,
                    ) as i64,
                )
                &&& final(self).player.knockback == spec_scale_vec(
                    old(self).player.knockback,
                    crate::entities::KNOCKBACK_DAMPING_MILLI,
                    1000,
                )
                &&& final(self).player.pos == spec_clamp_vec(
                    spec_add_vec(
                        old(self).player.pos,
                        spec_scale_vec(
                            spec_add_vec(final(self).player.vel, old(self).player.knockback),
                            dt_ms as i64,
                            1000,
                        ),
                    ),
                    ARENA_HALF,
                )
                &&& final(self).player.weapon == old(self).player.weapon
                &&& *final(self) == (Sim { player: final(self).player, ..*old(self) })
            },
    {
        if !self.run.is_running() {
            return;
        }
        let mult = self.ledger.upgrades.movement_speed_multiplier();
        let base_speed: u64 = (PLAYER_SPEED as u64) * (mult as u64) / 1000;
        proof {
            assert(950_000 * (1000 + 100 * self.ledger.upgrades.movement_speed_level)
                / 1000 <= 1_330_000);
        }
        let acc_mult = self.combat.movement_accuracy_multiplier();
        proof {
            assert(base_speed * acc_mult <= 1_330_000 * 1400) by (nonlinear_arith)
                requires
                    0 <= base_speed <= 1_330_000,
                    0 <= acc_mult <= 1400,
            ;
            vstd::arithmetic::div_mod::lemma_div_is_ordered(0, base_speed * acc_mult, 1000);
            vstd::arithmetic::div_mod::lemma_div_is_ordered(
                base_speed * acc_mult,
                1_330_000int * 1400,
                1000,
            );
        }
        let speed: u64 = base_speed * (acc_mult as u64) / 1000;
        let target = self.pointer;
        self.player.steer(target, speed as i64, dt_ms);
    }

    /// Steers every living hostile toward the player for one tick;
    /// outside a running run nothing moves.
    pub fn move_hostiles(&mut self, dt_ms: u64)
        requires
            old(self).wf(),
            dt_ms <= 1000,
        ensures
            final(self).wf(),
            !old(self).run.spec_is_running() ==> *final(self) == *old(self),
            old(self).run.spec_is_running() ==> {
                &&& final(self).hostiles@.len() == old(self).hostiles@.len()
                &&& (forall|i: int| 0 <= i < old(self).hostiles@.len()
                    ==> #[trigger] final(self).hostiles@[i] == spec_hostile_step(
                    old(self).hostiles@[i],
                    old(self).player.pos,
                    dt_ms,
                ))
                &&& *final(self) == (Sim { hostiles: final(self).hostiles, ..*old(self) })
            },
    {
        if !self.run.is_running() {
            return;
        }
        let ppos = self.player.pos;
        let n = self.hostiles.len();
        let mut out: Vec<Hostile> = Vec::new();
        let mut i: usize = 0;
        while i < n
            invariant
                0 <= i <= n,
                n == self.hostiles@.len(),
                forall|t: int| 0 <= t < self.hostiles@.len() ==> (
                #[trigger] self.hostiles@[t]).wf(),
                forall|t: int| 0 <= t < self.hostiles@.len() ==> (
                #[trigger] self.hostiles@[t]).health_milli > 0,
                ppos.bounded(ARENA_HALF as int),
                dt_ms <= 1000,
                out@.len() == i,
                forall|t: int| 0 <= t < i ==> #[trigger] out@[t] == spec_hostile_step(
                    self.hostiles@[t],
                    ppos,
                    dt_ms,
                ),
                forall|t: int| 0 <= t < i ==> (#[trigger] out@[t]).wf(),
                forall|t: int| 0 <= t < i ==> (#[trigger] out@[t]).health_milli > 0,
            decreases n - i,
        {
            let mut h = self.hostiles[i];
            h.steer(ppos, dt_ms);
            out.push(h);
            i = i + 1;
        }
        self.hostiles = out;
    }

    /// Advances the hostile spawn clock and, when an interval completes,
    /// creates one hostile at a random angle and jittered distance from
    /// the player, with speed and health scaled by the current score, and
    /// shrinks the next interval on the geometric ramp. Outside a running
    /// run nothing happens.
    pub fn spawn_hostiles(&mut self, dt_ms: u64)
        requires
            old(self).wf(),
            dt_ms <= 1000,
        ensures
            final(self).wf(),
            !old(self).run.spec_is_running() ==> *final(self) == *old(self),
            old(self).spawn_timer.spawn_count == u32::MAX ==> *final(self) == *old(self),
            old(self).run.spec_is_running() && old(self).spawn_timer.spawn_count
                < u32::MAX && old(self).spawn_timer.timer.elapsed_ms
                + dt_ms < old(self).spawn_timer.timer.duration_ms ==> {
                &&& final(self).hostiles@ == old(self).hostiles@
                &&& final(self).spawn_timer.spawn_count == old(self).spawn_timer.spawn_count
                &&& final(self).spawn_timer == crate::spawner::spec_clock_after_tick(
                    old(self).spawn_timer,
                    dt_ms,
                )
                &&& *final(self) == (Sim { spawn_timer: final(self).spawn_timer, ..*old(self) })
            },
            old(self).run.spec_is_running() && old(self).spawn_timer.spawn_count
                < u32::MAX && old(self).spawn_timer.timer.elapsed_ms
                + dt_ms >= old(self).spawn_timer.timer.duration_ms ==> {
                &&& final(self).hostiles@.len() == old(self).hostiles@.len() + 1
                &&& (forall|i: int| 0 <= i < old(self).hostiles@.len()
                    ==> #[trigger] final(self).hostiles@[i] == old(self).hostiles@[i])
                &&& ({
                    let h = final(self).hostiles@.last();
                    &&& h.speed == crate::spawner::spec_enemy_speed(old(self).score.current)
                    &&& h.health_milli == crate::spawner::spec_enemy_health_milli(
                        old(self).score.current,
                    )
                    &&& h.vel.is_zero()
                    &&& h.knockback.is_zero()
                    &&& h.wf()
                    &&& (exists|off: Vec2|
                        off.bounded(700_000) && (off.x >= 353_500 || off.x <= -353_500
                            || off.y >= 353_500 || off.y <= -353_500) && h.pos
                            == #[trigger] spec_clamp_vec(
                            spec_add_vec(old(self).player.pos, off),
                            ENTITY_BOUND,
                        ))
                })
                &&& final(self).spawn_timer.spawn_count == old(
                    self,
                ).spawn_timer.spawn_count + 1
                &&& final(self).spawn_timer.timer.duration_ms
                    == crate::spawner::spec_interval_after(
                    final(self).spawn_timer.spawn_count as nat,
                )
                &&& final(self).spawn_timer == crate::spawner::spec_clock_after_spawn(
                    crate::spawner::spec_clock_after_tick(old(self).spawn_timer, dt_ms),
                )
                &&& *final(self) == (Sim {
                    hostiles: final(self).hostiles,
                    spawn_timer: final(self).spawn_timer,
                    ..*old(self)
                })
            },
    {
        if !self.run.is_running() {
            return;
        }
        if self.spawn_timer.spawn_count == u32::MAX {
            return;
        }
        let due = self.spawn_timer.tick(dt_ms);
        if !due {
            return;
        }
        let dir = random_unit_milli();
        let jitter = rand_below(200_001);
        let dist: i64 = (ENEMY_SPAWN_DISTANCE as i64) - 100_000 + (jitter as i64);
        let offset = dir.scale_div(dist, 1000);
        proof {
            crate::geom::lemma_scaled_coordinate_bounded(dir.x as int, dist as int, 1000);
            crate::geom::lemma_scaled_coordinate_bounded(dir.y as int, dist as int, 1000);
            if dir.x >= 707 {
                lemma_ring_offset_coord(dir.x as int, dist as int);
            } else if dir.x <= -707 {
                lemma_ring_offset_coord(-dir.x as int, dist as int);
                assert((-dir.x as int) * dist == -(dir.x * dist)) by (nonlinear_arith);
            } else if dir.y >= 707 {
                lemma_ring_offset_coord(dir.y as int, dist as int);
            } else {
                lemma_ring_offset_coord(-dir.y as int, dist as int);
                assert((-dir.y as int) * dist == -(dir.y * dist)) by (nonlinear_arith);
            }
            assert(offset.x >= 353_500 || offset.x <= -353_500 || offset.y >= 353_500
                || offset.y <= -353_500);
        }
        let pos = self.player.pos.add(offset).clamp_to_bounds(ENTITY_BOUND);
        proof {
            assert(offset.bounded(700_000) && pos == spec_clamp_vec(
                spec_add_vec(self.player.pos, offset),
                ENTITY_BOUND,
            ));
        }
        let speed = enemy_speed(self.score.current);
        let health = enemy_health_milli(self.score.current);
        self.hostiles.push(
            Hostile {
                pos,
                vel: Vec2::zero(),
                knockback: Vec2::zero(),
                speed,
                health_milli: health,
            },
        );
        self.spawn_timer.after_spawn();
    }

    /// Ages the cosmetic particles: each moves by its velocity and the
    /// expired ones are removed. They affect nothing else.
    pub fn update_particles(&mut self, dt_ms: u64)
        requires
            old(self).wf(),
            dt_ms <= 1000,
        ensures
            final(self).wf(),
            final(self).particles@ == spec_age_particles(old(self).particles@, dt_ms),
            *final(self) == (Sim { particles: final(self).particles, ..*old(self) }),
    {
        let n = self.particles.len();
        let mut out: Vec<Particle> = Vec::new();
        let mut i: usize = 0;
        while i < n
            invariant
                0 <= i <= n,
                n == self.particles@.len(),
                forall|t: int| 0 <= t < self.particles@.len() ==> (
                #[trigger] self.particles@[t]).wf(),
                out@ == spec_age_particles(self.particles@.take(i as int), dt_ms),
                forall|t: int| 0 <= t < out@.len() ==> (#[trigger] out@[t]).wf(),
                dt_ms <= 1000,
            decreases n - i,
        {
            let p = self.particles[i];
            proof {
                assert(self.particles@.take(i + 1).drop_last() =~= self.particles@.take(
                    i as int,
                ));
                assert(self.particles@.take(i + 1).last() == p);
            }
            if p.age_ms + dt_ms < p.lifetime_ms {
                let step = p.vel.scale_div(dt_ms as i64, 1000);
                let pos = p.pos.add(step).clamp_to_bounds(ENTITY_BOUND);
                out.push(Particle { pos, age_ms: p.age_ms + dt_ms, ..p });
            }
            i = i + 1;
        }
        proof {
            assert(self.particles@.take(n as int) =~= self.particles@);
        }
        self.particles = out;
    }

    /// Ages the wave projectiles: the curving force bends each path, the
    /// velocity is damped, positions advance, and projectiles whose age
    /// reaches their lifetime are removed.
    pub fn update_wave_projectiles(&mut self, dt_ms: u64)
        requires
            old(self).wf(),
            dt_ms <= 1000,
        ensures
            final(self).wf(),
            final(self).waves@ == spec_age_waves(old(self).waves@, dt_ms),
            *final(self) == (Sim { waves: final(self).waves, ..*old(self) }),
    {
        let n = self.waves.len();
        let mut out: Vec<WaveProjectile> = Vec::new();
        let mut i: usize = 0;
        while i < n
            invariant
                0 <= i <= n,
                n == self.waves@.len(),
                forall|t: int| 0 <= t < self.waves@.len() ==> (
                #[trigger] self.waves@[t]).wf(),
                out@ == spec_age_waves(self.waves@.take(i as int), dt_ms),
                forall|t: int| 0 <= t < out@.len() ==> (#[trigger] out@[t]).wf(),
                dt_ms <= 1000,
            decreases n - i,
        {
            let w = self.waves[i];
            proof {
                assert(self.waves@.take(i + 1).drop_last() =~= self.waves@.take(i as int));
                assert(self.waves@.take(i + 1).last() == w);
            }
            if w.age_ms + dt_ms < w.lifetime_ms {
                let perp = Vec2::new(-w.vel.y, w.vel.x);
                let perp_unit = perp.normalize_to(1000);
                let cmag: i64 = if w.curve >= 0 { w.curve } else { -w.curve };
                let dti: i64 = dt_ms as i64;
                proof {
                    assert(0 <= cmag <= 1_000_000);
                    assert(0 <= dti <= 1000);
                    assert(0 <= cmag * dti <= 1_000_000int * 1000) by (nonlinear_arith)
                        requires
                            0 <= cmag <= 1_000_000,
                            0 <= dti <= 1000,
                    ;
                    vstd::arithmetic::div_mod::lemma_div_is_ordered(0, cmag * dti, 1000);
                    vstd::arithmetic::div_mod::lemma_div_is_ordered(
                        cmag * dti,
                        1_000_000int * 1000,
                        1000,
                    );
                }
                let mag: i64 = cmag * dti / 1000;
                proof {
                    crate::geom::lemma_scaled_coordinate_bounded(
                        perp_unit.x as int,
                        mag as int,
                        1000,
                    );
                    crate::geom::lemma_scaled_coordinate_bounded(
                        perp_unit.y as int,
                        mag as int,
                        1000,
                    );
                }
                let dv0 = perp_unit.scale_div(mag, 1000);
                let dv = if w.curve >= 0 {
                    dv0
                } else {
                    Vec2::new(-dv0.x, -dv0.y)
                };
                let v2 = w.vel.add(dv).scale_div(
                    crate::entities::WAVE_DAMPING_MILLI,
                    1000,
                ).clamp_to_bounds(VELOCITY_BOUND);
                let step = v2.scale_div(dt_ms as i64, 1000);
                let pos = w.pos.add(step).clamp_to_bounds(ENTITY_BOUND);
                out.push(WaveProjectile { pos, vel: v2, age_ms: w.age_ms + dt_ms, ..w });
            }
            i = i + 1;
        }
        proof {
            assert(self.waves@.take(n as int) =~= self.waves@);
        }
        self.waves = out;
    }
}

/// A direction of roughly unit length (one thousand milli-units), drawn
/// from a uniform point of the square and kept only when it falls in a
/// ring around the unit circle, so accepted directions have a uniformly
/// random angle; after too many rejections a fixed axis direction is
/// used. Every outcome is a genuine direction: one coordinate reaches at
/// least about seven tenths of a unit, so the vector is never close to
/// zero.
pub fn random_unit_milli() -> (r: Vec2)
    ensures
        r.bounded(1000),
        r.x >= 707 || r.x <= -707 || r.y >= 707 || r.y <= -707,
{
    let mut attempts: usize = 0;
    while attempts < 16
        invariant
            attempts <= 16,
        decreases 16 - attempts,
    {
        let dx: i64 = (rand_below(2001) as i64) - 1000;
        let dy: i64 = (rand_below(2001) as i64) - 1000;
        let v = Vec2::new(dx, dy);
        let sq = v.length_squared();
        if 250_000 <= sq && sq <= 1_000_000 {
            let r = v.normalize_to(1000);
            proof {
                lemma_ring_normalization_has_big_coord(v, r);
            }
            return r;
        }
        attempts = attempts + 1;
    }
    Vec2::new(1000, 0)
}

/// A direction coordinate of at least 707 thousandths, scaled by a spawn
/// distance of at least five hundred units, lands at least 353.5 units
/// out.
proof fn lemma_ring_offset_coord(c: int, dist: int)
    requires
        707 <= c <= 1000,
        500_000 <= dist <= 700_000,
    ensures
        crate::geom::spec_tdiv(c * dist, 1000) >= 353_500,
{
    assert(c * dist >= 353_500_000) by (nonlinear_arith)
        requires
            c >= 707,
            dist >= 500_000,
    ;
    vstd::arithmetic::div_mod::lemma_div_by_multiple(353_500, 1000);
    vstd::arithmetic::div_mod::lemma_div_is_ordered(353_500int * 1000, c * dist, 1000);
}

/// A vector from the ring around the unit circle keeps, after rescaling
/// to one thousand, at least one coordinate of magnitude at least 707:
/// the larger coordinate carries at least a square root of one half of
/// the length.
proof fn lemma_ring_normalization_has_big_coord(v: Vec2, r: Vec2)
    requires
        v.bounded(1000),
        250_000 <= v.x * v.x + v.y * v.y <= 1_000_000,
        r == crate::geom::spec_normalize_to(v, 1000),
    ensures
        r.x >= 707 || r.x <= -707 || r.y >= 707 || r.y <= -707,
{
    let sq = v.x * v.x + v.y * v.y;
    assert(!v.is_zero()) by {
        if v.is_zero() {
            assert(v.x * v.x + v.y * v.y == 0) by (nonlinear_arith)
                requires
                    v.x == 0,
                    v.y == 0,
            ;
        }
    }
    crate::geom::lemma_isqrt_exists(sq as nat);
    let len = crate::geom::spec_len(v);
    assert(len * len <= sq);
    assert(sq < (len + 1) * (len + 1));
    assert(len >= 500) by {
        if len <= 499 {
            assert((len + 1) * (len + 1) <= 250_000) by (nonlinear_arith)
                requires
                    0 <= len <= 499,
            ;
        }
    }
    assert(len <= 1000) by {
        if len >= 1001 {
            assert(len * len >= 1_002_001) by (nonlinear_arith)
                requires
                    len >= 1001,
            ;
        }
    }
    if v.x * v.x >= v.y * v.y {
        let mx = if v.x >= 0 { v.x as int } else { -v.x as int };
        assert(mx * mx == v.x * v.x) by (nonlinear_arith)
            requires
                mx == v.x || mx == -v.x,
        ;
        assert(2 * (mx * mx) >= len * len);
        lemma_half_square_coord(mx, len);
        if v.x >= 0 {
            lemma_big_coord_scaled(v.x as int, len);
            assert(r.x >= 707);
        } else {
            lemma_big_coord_scaled(mx, len);
            assert(mx * 1000 == -(v.x * 1000)) by (nonlinear_arith)
                requires
                    mx == -v.x,
            ;
            assert(r.x <= -707);
        }
    } else {
        let my = if v.y >= 0 { v.y as int } else { -v.y as int };
        assert(my * my == v.y * v.y) by (nonlinear_arith)
            requires
                my == v.y || my == -v.y,
        ;
        assert(2 * (my * my) >= len * len);
        lemma_half_square_coord(my, len);
        if v.y >= 0 {
            lemma_big_coord_scaled(v.y as int, len);
            assert(r.y >= 707);
        } else {
            lemma_big_coord_scaled(my, len);
            assert(my * 1000 == -(v.y * 1000)) by (nonlinear_arith)
                requires
                    my == -v.y,
            ;
            assert(r.y <= -707);
        }
    }
}

/// A nonnegative value whose square is at least half the square of `len`
/// reaches at least 707 thousandths of `len`.
proof fn lemma_half_square_coord(c: int, len: int)
    requires
        c >= 0,
        len >= 1,
        2 * (c * c) >= len * len,
    ensures
        1000 * c >= 707 * len,
{
    assert(1000 * c >= 707 * len) by (nonlinear_arith)
        requires
            c >= 0,
            len >= 1,
            2 * (c * c) >= len * len,
    ;
}

/// Scaling a coordinate of at least 707 thousandths of `len` by
/// `1000 / len` leaves at least 707.
proof fn lemma_big_coord_scaled(c: int, len: int)
    requires
        c >= 0,
        500 <= len <= 1000,
        1000 * c >= 707 * len,
    ensures
        crate::geom::spec_tdiv(c * 1000, len) >= 707,
{
    assert(c * 1000 == 1000 * c) by (nonlinear_arith);
    vstd::arithmetic::div_mod::lemma_div_by_multiple(707, len);
    assert(707 * len == len * 707) by (nonlinear_arith);
    vstd::arithmetic::div_mod::lemma_div_is_ordered(707 * len, c * 1000, len);
    assert(c * 1000 >= 0) by (nonlinear_arith)
        requires
            c >= 0,
    ;
}

/// One freshly cast wave projectile: side `side` (minus one or one), ring
/// index `i`, relative to the player's position and unit movement
/// direction.
pub open spec fn spec_wave_cast(ppos: Vec2, dir: Vec2, side: i64, i: u64) -> WaveProjectile {
    let perp0 = Vec2 { x: (-dir.y) as i64, y: dir.x };
    let perp = if side >= 0 {
        perp0
    } else {
        Vec2 { x: (-perp0.x) as i64, y: (-perp0.y) as i64 }
    };
    let out_dist = (35_000 + i * 18_000) as i64;
    let back_dist = (i * 8_000) as i64;
    let offset = Vec2 {
        x: (spec_scale_vec(perp, out_dist, 1000).x - spec_scale_vec(
            dir,
            back_dist,
            1000,
        ).x) as i64,
        y: (spec_scale_vec(perp, out_dist, 1000).y - spec_scale_vec(
            dir,
            back_dist,
            1000,
        ).y) as i64,
    };
    let strength = (1300 - 100 * i) as i64;
    let curve_dir = spec_add_vec(
        spec_scale_vec(perp, strength, 1000),
        spec_scale_vec(dir, 200, 1000),
    );
    WaveProjectile {
        pos: spec_clamp_vec(spec_add_vec(ppos, offset), ENTITY_BOUND),
        vel: spec_scale_vec(curve_dir, 500_000, 1000),
        age_ms: 0,
        lifetime_ms: WAVE_LIFETIME_MS,
        damage_milli: WAVE_DAMAGE_MILLI,
        curve: if side >= 0 {
            400_000
        } else {
            (-400_000) as i64
        },
    }
}

impl Sim {
    /// Casts one wave volley while the wave weapon is active, the player
    /// moves fast enough, and the cadence interval has accumulated: three
    /// projectiles to each side of the movement direction, arcing outward.
    pub fn spawn_wave_projectiles(&mut self, dt_ms: u64)
        requires
            old(self).wf(),
            dt_ms <= 1000,
        ensures
            final(self).wf(),
            !(old(self).run.spec_is_running() && old(self).player.weapon == WeaponType::Wave
                && old(self).player.vel.x * old(self).player.vel.x
                + old(self).player.vel.y * old(self).player.vel.y >= WAVE_MIN_SPEED_SQ) ==> *final(self)
                == *old(self),
            (old(self).run.spec_is_running() && old(self).player.weapon == WeaponType::Wave
                && old(self).player.vel.x * old(self).player.vel.x
                + old(self).player.vel.y * old(self).player.vel.y >= WAVE_MIN_SPEED_SQ) ==> {
                let fired = old(self).wave_timer_ms + dt_ms >= WAVE_CADENCE_MS;
                let dir = crate::geom::spec_normalize_to(old(self).player.vel, 1000);
                &&& !fired ==> {
                    &&& final(self).waves@ == old(self).waves@
                    &&& final(self).wave_timer_ms == old(self).wave_timer_ms + dt_ms
                }
                &&& fired ==> {
                    &&& final(self).wave_timer_ms == 0
                    &&& final(self).waves@ == old(self).waves@.push(
                        spec_wave_cast(old(self).player.pos, dir, (-1) as i64, 0),
                    ).push(spec_wave_cast(old(self).player.pos, dir, (-1) as i64, 1)).push(
                        spec_wave_cast(old(self).player.pos, dir, (-1) as i64, 2),
                    ).push(spec_wave_cast(old(self).player.pos, dir, 1 as i64, 0)).push(
                        spec_wave_cast(old(self).player.pos, dir, 1 as i64, 1),
                    ).push(spec_wave_cast(old(self).player.pos, dir, 1 as i64, 2))
                }
                &&& *final(self) == (Sim {
                    waves: final(self).waves,
                    wave_timer_ms: final(self).wave_timer_ms,
                    ..*old(self)
                })
            },
    {
        if !self.run.is_running() {
            return;
        }
        if !matches!(self.player.weapon, WeaponType::Wave) {
            return;
        }
        let speed_sq = self.player.vel.length_squared();
        if speed_sq < WAVE_MIN_SPEED_SQ {
            return;
        }
        if self.wave_timer_ms + dt_ms < WAVE_CADENCE_MS {
            self.wave_timer_ms = self.wave_timer_ms + dt_ms;
            return;
        }
        self.wave_timer_ms = 0;
        let dir = self.player.vel.normalize_to(1000);
        let ppos = self.player.pos;
        let w0 = cast_wave(ppos, dir, false, 0);
        let w1 = cast_wave(ppos, dir, false, 1);
        let w2 = cast_wave(ppos, dir, false, 2);
        let w3 = cast_wave(ppos, dir, true, 0);
        let w4 = cast_wave(ppos, dir, true, 1);
        let w5 = cast_wave(ppos, dir, true, 2);
        self.waves.push(w0);
        self.waves.push(w1);
        self.waves.push(w2);
        self.waves.push(w3);
        self.waves.push(w4);
        self.waves.push(w5);
    }
}

/// Builds one wave projectile of a volley; `positive_side` picks which
/// side of the movement direction it sweeps to.
fn cast_wave(ppos: Vec2, dir: Vec2, positive_side: bool, i: u64) -> (r: WaveProjectile)
    requires
        ppos.bounded(ARENA_HALF as int),
        dir.bounded(1000),
        i <= 2,
    ensures
        r == spec_wave_cast(ppos, dir, (if positive_side { 1int } else { -1int }) as i64, i),
        r.wf(),
{
    let perp0 = Vec2::new(-dir.y, dir.x);
    let perp = if positive_side {
        perp0
    } else {
        Vec2::new(-perp0.x, -perp0.y)
    };
    let out_dist: i64 = 35_000 + (i as i64) * 18_000;
    let back_dist: i64 = (i as i64) * 8_000;
    let out_vec = perp.scale_div(out_dist, 1000);
    let back_vec = dir.scale_div(back_dist, 1000);
    proof {
        crate::geom::lemma_scaled_coordinate_bounded(perp.x as int, out_dist as int, 1000);
        crate::geom::lemma_scaled_coordinate_bounded(perp.y as int, out_dist as int, 1000);
        crate::geom::lemma_scaled_coordinate_bounded(dir.x as int, back_dist as int, 1000);
        crate::geom::lemma_scaled_coordinate_bounded(dir.y as int, back_dist as int, 1000);
    }
    let offset = out_vec.sub(back_vec);
    let strength: i64 = 1300 - 100 * (i as i64);
    let a = perp.scale_div(strength, 1000);
    let b = dir.scale_div(200, 1000);
    proof {
        crate::geom::lemma_scaled_coordinate_bounded(perp.x as int, strength as int, 1000);
        crate::geom::lemma_scaled_coordinate_bounded(perp.y as int, strength as int, 1000);
    }
    let curve_dir = a.add(b);
    let vel = curve_dir.scale_div(500_000, 1000);
    proof {
        crate::geom::lemma_scale_bound_general(curve_dir.x as int, 500_000, 1000, 1600);
        crate::geom::lemma_scale_bound_general(curve_dir.y as int, 500_000, 1000, 1600);
    }
    let pos = ppos.add(offset).clamp_to_bounds(ENTITY_BOUND);
    WaveProjectile {
        pos,
        vel,
        age_ms: 0,
        lifetime_ms: WAVE_LIFETIME_MS,
        damage_milli: WAVE_DAMAGE_MILLI,
        curve: if positive_side {
            400_000
        } else {
            -400_000
        },
    }
}

impl Sim {
    /// Resolves trail damage against all hostiles: each hostile takes the
    /// captured damage of at most its first overlapping segment, kills
    /// are removed and scored through the combo, credited one currency
    /// point and may drop a power-up; a pass with kills freezes one hit.
    /// Outside a running run nothing happens.
    pub fn resolve_trail_hits(&mut self)
        requires
            old(self).wf(),
        ensures
            final(self).wf(),
            !old(self).run.spec_is_running() ==> *final(self) == *old(self),
            old(self).run.spec_is_running() ==> ({
                let sources = spec_trail_hit_sources(old(self).trail@);
                let end = spec_hit_pass(
                    old(self).hostiles@,
                    sources,
                    TRAIL_HIT_RADIUS,
                    spec_trail_knockback(old(self).ledger.upgrades),
                    HitPassState {
                        hostiles: Seq::empty(),
                        combo: old(self).combo,
                        score: old(self).score,
                        balance: old(self).ledger.currency.balance,
                        kill_positions: Seq::empty(),
                    },
                    old(self).hostiles@.len() as int,
                );
                &&& final(self).hostiles@ == end.hostiles
                &&& final(self).combo == end.combo
                &&& final(self).score == end.score
                &&& final(self).ledger.currency.balance == end.balance
                &&& final(self).ledger.upgrades == old(self).ledger.upgrades
                &&& final(self).ledger.colors == old(self).ledger.colors
                &&& old(self).powerups@.is_prefix_of(final(self).powerups@)
                &&& crate::combat::spec_drops_match(
                    final(self).powerups@.subrange(
                        old(self).powerups@.len() as int,
                        final(self).powerups@.len() as int,
                    ),
                    end.kill_positions,
                )
                &&& final(self).health == old(self).health
                &&& final(self).run == old(self).run
                &&& final(self).trail@ == old(self).trail@
                &&& final(self).waves@ == old(self).waves@
                &&& final(self).particles@ == old(self).particles@
                &&& final(self).player == old(self).player
                &&& final(self).shield == old(self).shield
                &&& final(self).combat == old(self).combat
                &&& final(self).spawn_timer == old(self).spawn_timer
                &&& final(self).trail_timer == old(self).trail_timer
                &&& final(self).wave_timer_ms == old(self).wave_timer_ms
                &&& final(self).pointer == old(self).pointer
                &&& final(self).dirty == old(self).dirty
            }),
    {
        if !self.run.is_running() {
            return;
        }
        let sources = trail_sources(&self.trail);
        let knock_mult = self.ledger.upgrades.enemy_knockback_multiplier();
        let kb: i64 = ((ENEMY_KNOCKBACK as u64) * (knock_mult as u64) / 1000) as i64;
        proof {
            assert(250_000 * (1000 + 500 * self.ledger.upgrades.enemy_knockback_level)
                / 1000 <= 625_000);
            assert(sources@ =~= spec_trail_hit_sources(self.trail@));
        }
        let kills = resolve_hits(
            &mut self.hostiles,
            &sources,
            TRAIL_HIT_RADIUS,
            kb,
            &mut self.combo,
            &mut self.score,
            &mut self.ledger.currency,
            &mut self.powerups,
            &mut self.shake,
        );
        proof {
            assert forall|i: int| 0 <= i < self.powerups@.len() implies (
            #[trigger] self.powerups@[i]).wf() by {
                if i < old(self).powerups@.len() {
                    assert(self.powerups@[i] == old(self).powerups@.subrange(
                        0,
                        old(self).powerups@.len() as int,
                    )[i]) by {
                        assert(old(self).powerups@ =~= self.powerups@.subrange(
                            0,
                            old(self).powerups@.len() as int,
                        ));
                    }
                }
            }
        }
        if kills > 0 {
            self.hit_freeze.trigger();
        }
    }

    /// Resolves wave damage against all hostiles, with the fixed wave
    /// damage and hit radius; the death pattern is the trail's. Outside a
    /// running run nothing happens.
    pub fn resolve_wave_hits(&mut self)
        requires
            old(self).wf(),
        ensures
            final(self).wf(),
            !old(self).run.spec_is_running() ==> *final(self) == *old(self),
            old(self).run.spec_is_running() ==> ({
                let sources = spec_wave_hit_sources(old(self).waves@);
                let end = spec_hit_pass(
                    old(self).hostiles@,
                    sources,
                    WAVE_HIT_RADIUS,
                    ENEMY_KNOCKBACK,
                    HitPassState {
                        hostiles: Seq::empty(),
                        combo: old(self).combo,
                        score: old(self).score,
                        balance: old(self).ledger.currency.balance,
                        kill_positions: Seq::empty(),
                    },
                    old(self).hostiles@.len() as int,
                );
                &&& final(self).hostiles@ == end.hostiles
                &&& final(self).combo == end.combo
                &&& final(self).score == end.score
                &&& final(self).ledger.currency.balance == end.balance
                &&& final(self).ledger.upgrades == old(self).ledger.upgrades
                &&& final(self).ledger.colors == old(self).ledger.colors
                &&& old(self).powerups@.is_prefix_of(final(self).powerups@)
                &&& crate::combat::spec_drops_match(
                    final(self).powerups@.subrange(
                        old(self).powerups@.len() as int,
                        final(self).powerups@.len() as int,
                    ),
                    end.kill_positions,
                )
                &&& final(self).health == old(self).health
                &&& final(self).run == old(self).run
                &&& final(self).waves@ == old(self).waves@
                &&& final(self).trail@ == old(self).trail@
                &&& final(self).particles@ == old(self).particles@
                &&& final(self).player == old(self).player
                &&& final(self).shield == old(self).shield
                &&& final(self).combat == old(self).combat
                &&& final(self).spawn_timer == old(self).spawn_timer
                &&& final(self).trail_timer == old(self).trail_timer
                &&& final(self).wave_timer_ms == old(self).wave_timer_ms
                &&& final(self).pointer == old(self).pointer
                &&& final(self).dirty == old(self).dirty
            }),
    {
        if !self.run.is_running() {
            return;
        }
        let sources = wave_sources(&self.waves);
        proof {
            assert(sources@ =~= spec_wave_hit_sources(self.waves@));
        }
        let kills = resolve_hits(
            &mut self.hostiles,
            &sources,
            WAVE_HIT_RADIUS,
            ENEMY_KNOCKBACK,
            &mut self.combo,
            &mut self.score,
            &mut self.ledger.currency,
            &mut self.powerups,
            &mut self.shake,
        );
        proof {
            assert forall|i: int| 0 <= i < self.powerups@.len() implies (
            #[trigger] self.powerups@[i]).wf() by {
                if i < old(self).powerups@.len() {
                    assert(self.powerups@[i] == old(self).powerups@.subrange(
                        0,
                        old(self).powerups@.len() as int,
                    )[i]) by {
                        assert(old(self).powerups@ =~= self.powerups@.subrange(
                            0,
                            old(self).powerups@.len() as int,
                        ));
                    }
                }
            }
        }
        if kills > 0 {
            self.hit_freeze.trigger();
        }
    }

    /// Resolves hostile contacts with the player, as the contact pass
    /// states: overlapping hostiles are destroyed, the shield blocks all
    /// damage, and a lethal contact ends the run. Outside a running run
    /// nothing happens.
    pub fn handle_player_collisions(&mut self)
        requires
            old(self).wf(),
        ensures
            final(self).wf(),
            !old(self).run.spec_is_running() ==> *final(self) == *old(self),
            old(self).run.spec_is_running() ==> ({
                let end = spec_contact_pass(
                    old(self).hostiles@,
                    old(self).player.pos,
                    old(self).shield.remaining_ms > 0,
                    ContactPassState {
                        hostiles: Seq::empty(),
                        health: old(self).health,
                        score: old(self).score,
                        knockback: old(self).player.knockback,
                        run: old(self).run,
                        combo: old(self).combo,
                    },
                    old(self).hostiles@.len() as int,
                );
                &&& final(self).hostiles@ == end.hostiles
                &&& final(self).health == end.health
                &&& final(self).score == end.score
                &&& final(self).player.knockback == end.knockback
                &&& final(self).run == end.run
                &&& final(self).combo == end.combo
                &&& final(self).ledger == old(self).ledger
                &&& final(self).player.pos == old(self).player.pos
                &&& final(self).player.vel == old(self).player.vel
                &&& final(self).player.weapon == old(self).player.weapon
                &&& final(self).trail@ == old(self).trail@
                &&& final(self).waves@ == old(self).waves@
                &&& final(self).powerups@ == old(self).powerups@
                &&& final(self).particles@ == old(self).particles@
                &&& final(self).shield == old(self).shield
                &&& final(self).combat == old(self).combat
                &&& final(self).spawn_timer == old(self).spawn_timer
                &&& final(self).trail_timer == old(self).trail_timer
                &&& final(self).wave_timer_ms == old(self).wave_timer_ms
                &&& final(self).pointer == old(self).pointer
                &&& final(self).dirty == old(self).dirty
                &&& (old(self).shield.remaining_ms > 0
                    ==> final(self).health == old(self).health)
            }),
    {
        if !self.run.is_running() {
            return;
        }
        let shield_active = self.shield.is_active();
        resolve_player_collisions(
            &mut self.hostiles,
            &mut self.player,
            shield_active,
            &mut self.health,
            &mut self.score,
            &mut self.run,
            &mut self.combo,
            &mut self.shake,
        );
    }

    /// Consumes every power-up within the pickup radius, as the pickup
    /// pass states. Outside a running run nothing happens.
    pub fn handle_power_up_pickups(&mut self)
        requires
            old(self).wf(),
        ensures
            final(self).wf(),
            !old(self).run.spec_is_running() ==> *final(self) == *old(self),
            old(self).run.spec_is_running() ==> ({
                let end = spec_pickup_pass(
                    old(self).powerups@,
                    old(self).player.pos,
                    (SHIELD_DURATION_MS
                        + 750 * old(self).ledger.upgrades.shield_level) as u64,
                    PickupPassState {
                        powerups: Seq::empty(),
                        balance: old(self).ledger.currency.balance,
                        health: old(self).health,
                        shield_remaining_ms: old(self).shield.remaining_ms,
                        shield_duration_ms: old(self).shield.duration_ms,
                        accuracy_stacks: old(self).combat.accuracy_stacks,
                        wave_blast_remaining_ms: old(self).combat.wave_blast_remaining_ms,
                    },
                    old(self).powerups@.len() as int,
                );
                &&& final(self).powerups@ == end.powerups
                &&& final(self).ledger.currency.balance == end.balance
                &&& final(self).health == end.health
                &&& final(self).shield.remaining_ms == end.shield_remaining_ms
                &&& final(self).shield.duration_ms == end.shield_duration_ms
                &&& final(self).combat.accuracy_stacks == end.accuracy_stacks
                &&& final(self).combat.wave_blast_remaining_ms
                    == end.wave_blast_remaining_ms
                &&& final(self).ledger.upgrades == old(self).ledger.upgrades
                &&& final(self).ledger.colors == old(self).ledger.colors
                &&& final(self).hostiles@ == old(self).hostiles@
                &&& final(self).score == old(self).score
                &&& final(self).run == old(self).run
                &&& final(self).combat.base_trail_damage_milli == old(
                    self,
                ).combat.base_trail_damage_milli
                &&& final(self).trail@ == old(self).trail@
                &&& final(self).waves@ == old(self).waves@
                &&& final(self).particles@ == old(self).particles@
                &&& final(self).player == old(self).player
                &&& final(self).combo == old(self).combo
                &&& final(self).spawn_timer == old(self).spawn_timer
                &&& final(self).trail_timer == old(self).trail_timer
                &&& final(self).wave_timer_ms == old(self).wave_timer_ms
                &&& final(self).pointer == old(self).pointer
                &&& final(self).dirty == old(self).dirty
            }),
    {
        if !self.run.is_running() {
            return;
        }
        let grant = self.shield_grant_ms();
        let ppos = self.player.pos;
        apply_powerup_pickups(
            &mut self.powerups,
            ppos,
            grant,
            &mut self.ledger.currency,
            &mut self.health,
            &mut self.shield,
            &mut self.combat,
        );
    }

    /// Advances the buff and feedback timers: shield, wave-blast, combo
    /// decay, hit-freeze and screen-shake trauma.
    pub fn tick_buffs(&mut self, dt_ms: u64)
        requires
            old(self).wf(),
            dt_ms <= 1000,
        ensures
            final(self).wf(),
            final(self).shield.remaining_ms == (
                if dt_ms <= old(self).shield.remaining_ms
                    { (old(self).shield.remaining_ms - dt_ms) as u64 }
                else
                    { 0u64 }
            ),
            final(self).combat.wave_blast_remaining_ms == (
                if dt_ms <= old(self).combat.wave_blast_remaining_ms
                    { (old(self).combat.wave_blast_remaining_ms - dt_ms) as u64 }
                else
                    { 0u64 }
            ),
            (old(self).run.spec_is_running() && !old(self).combo.is_idle()
                && old(self).combo.timer.elapsed_ms + dt_ms
                >= crate::combo::COMBO_WINDOW_MS) ==> final(self).combo.is_idle(),
            old(self).run.spec_is_running() ==> final(self).combo
                == crate::combo::spec_combo_after_tick(old(self).combo, dt_ms),
            !old(self).run.spec_is_running() ==> final(self).combo == old(self).combo,
            final(self).shield.duration_ms == old(self).shield.duration_ms,
            final(self).combat == (CombatStats {
                wave_blast_remaining_ms: final(self).combat.wave_blast_remaining_ms,
                ..old(self).combat
            }),
            final(self).score == old(self).score,
            final(self).health == old(self).health,
            final(self).ledger == old(self).ledger,
            final(self).hostiles@ == old(self).hostiles@,
            final(self).run == old(self).run,
            final(self).trail@ == old(self).trail@,
            final(self).waves@ == old(self).waves@,
            final(self).powerups@ == old(self).powerups@,
            final(self).particles@ == old(self).particles@,
            final(self).player == old(self).player,
            final(self).spawn_timer == old(self).spawn_timer,
            final(self).trail_timer == old(self).trail_timer,
            final(self).wave_timer_ms == old(self).wave_timer_ms,
            final(self).pointer == old(self).pointer,
            final(self).dirty == old(self).dirty,
    {
        self.shield.tick(dt_ms);
        self.combat.tick_wave_blast(dt_ms);
        if self.run.is_running() {
            self.combo.tick(dt_ms);
        }
        self.hit_freeze.update(dt_ms);
        self.shake.update(dt_ms);
    }

    /// The front half of a tick: weapon mode, the two spawners, entity
    /// aging and movement, through the wave projectiles' aging, composed
    /// exactly with the spawn draw quantified.
    #[verifier::rlimit(100)]
    fn run_pre_combat_systems(&mut self, dt_ms: u64)
        requires
            old(self).wf(),
            dt_ms <= 1000,
        ensures
            final(self).wf(),
            final(self).dirty == old(self).dirty,
            (exists|sp: Vec2|
                #![trigger spec_stage_spawn(spec_stage_weapon(old(self).model()), dt_ms, sp)]
                {
                    let s1 = spec_stage_weapon(old(self).model());
                    &&& spec_spawn_chance_ok(s1, dt_ms, sp)
                    &&& final(self).model() == spec_stage_wave_age(
                        spec_stage_wave_volley(
                            spec_stage_move_hostiles(
                                spec_stage_move_player(
                                    spec_stage_trail_age(
                                        spec_stage_trail_spawn(
                                            spec_stage_spawn(s1, dt_ms, sp),
                                            dt_ms,
                                        ),
                                        dt_ms,
                                    ),
                                    dt_ms,
                                ),
                                dt_ms,
                            ),
                            dt_ms,
                        ),
                        dt_ms,
                    )
                }),
    {
        let ghost m0 = self.model();
        self.update_weapon_type();
        let ghost m1 = self.model();
        proof {
            assert(m1 == spec_stage_weapon(m0));
        }
        self.spawn_hostiles(dt_ms);
        let ghost m2 = self.model();
        let ghost spawn_pos = if m2.hostiles.len() > m1.hostiles.len() {
            m2.hostiles.last().pos
        } else {
            Vec2 { x: 0, y: 0 }
        };
        proof {
            if m1.run.spec_is_running() && m1.spawn_timer.spawn_count < u32::MAX
                && spec_spawn_due(m1, dt_ms) {
                assert(m2.hostiles =~= m1.hostiles.push(
                    Hostile {
                        pos: spawn_pos,
                        vel: Vec2 { x: 0, y: 0 },
                        knockback: Vec2 { x: 0, y: 0 },
                        speed: crate::spawner::spec_enemy_speed(m1.score.current) as u64,
                        health_milli: crate::spawner::spec_enemy_health_milli(
                            m1.score.current,
                        ) as u64,
                    },
                ));
            }
            assert(m2 == spec_stage_spawn(m1, dt_ms, spawn_pos));
            assert(spec_spawn_chance_ok(m1, dt_ms, spawn_pos));
        }
        self.spawn_trail_segments(dt_ms);
        let ghost m3 = self.model();
        proof {
            assert(m3 == spec_stage_trail_spawn(m2, dt_ms));
        }
        self.update_trail_segments(dt_ms);
        let ghost m4 = self.model();
        proof {
            assert(m4 == spec_stage_trail_age(m3, dt_ms));
        }
        self.move_player(dt_ms);
        let ghost m5 = self.model();
        proof {
            assert(m5 == spec_stage_move_player(m4, dt_ms));
        }
        self.move_hostiles(dt_ms);
        let ghost m6 = self.model();
        proof {
            if m5.run.spec_is_running() {
                assert(m6.hostiles =~= m5.hostiles.map_values(
                    |h: Hostile| spec_hostile_step(h, m5.player.pos, dt_ms),
                ));
            }
            assert(m6 == spec_stage_move_hostiles(m5, dt_ms));
        }
        self.spawn_wave_projectiles(dt_ms);
        let ghost m7 = self.model();
        proof {
            assert(m7 == spec_stage_wave_volley(m6, dt_ms));
        }
        self.update_wave_projectiles(dt_ms);
        proof {
            assert(self.model() == spec_stage_wave_age(m7, dt_ms));
        }
    }

    /// The middle of a tick: the two damage passes, hostile contacts and
    /// pickups, composed exactly with the drop draws quantified.
    #[verifier::rlimit(100)]
    fn run_combat_systems(&mut self)
        requires
            old(self).wf(),
        ensures
            final(self).wf(),
            final(self).dirty == old(self).dirty,
            (exists|td: Seq<PowerUpEntity>, wd: Seq<PowerUpEntity>|
                #![trigger spec_stage_wave_hits(
                    spec_stage_trail_hits(old(self).model(), td),
                    wd,
                )]
                {
                    let s8 = old(self).model();
                    let s9 = spec_stage_trail_hits(s8, td);
                    &&& crate::combat::spec_drops_match(td, spec_trail_kills(s8))
                    &&& crate::combat::spec_drops_match(wd, spec_wave_kills(s9))
                    &&& final(self).model() == spec_stage_pickups(
                        spec_stage_contact(spec_stage_wave_hits(s9, wd)),
                    )
                }),
    {
        let ghost m8 = self.model();
        self.resolve_trail_hits();
        let ghost m9 = self.model();
        let ghost trail_drops = m9.powerups.subrange(
            m8.powerups.len() as int,
            m9.powerups.len() as int,
        );
        proof {
            assert(m9.powerups =~= m8.powerups + trail_drops);
            assert(m9 == spec_stage_trail_hits(m8, trail_drops));
            if !m8.run.spec_is_running() {
                assert(trail_drops =~= Seq::<PowerUpEntity>::empty());
            }
            assert(crate::combat::spec_drops_match(trail_drops, spec_trail_kills(m8)));
        }
        self.resolve_wave_hits();
        let ghost m10 = self.model();
        let ghost wave_drops = m10.powerups.subrange(
            m9.powerups.len() as int,
            m10.powerups.len() as int,
        );
        proof {
            assert(m10.powerups =~= m9.powerups + wave_drops);
            assert(m10 == spec_stage_wave_hits(m9, wave_drops));
            if !m9.run.spec_is_running() {
                assert(wave_drops =~= Seq::<PowerUpEntity>::empty());
            }
            assert(crate::combat::spec_drops_match(wave_drops, spec_wave_kills(m9)));
        }
        self.handle_player_collisions();
        let ghost m11 = self.model();
        proof {
            assert(m11 == spec_stage_contact(m10));
        }
        self.handle_power_up_pickups();
        proof {
            assert(self.model() == spec_stage_pickups(m11));
        }
    }

    /// One simulation tick in the fixed deterministic order: weapon mode,
    /// spawners, entity aging, movement, collision and damage resolution,
    /// pickups, then buff decay. A paused or ended run short-circuits
    /// spawning, movement, collisions and pickups, and the persistent
    /// economy cannot change during such a tick. A changed currency
    /// balance marks the economy dirty for the storage collaborator.
    ///
    /// The tick relation composes the exact contracts of every subsystem
    /// step, with the tick's random draws quantified: where the one due
    /// hostile spawned, and which kills dropped power-ups.
    #[verifier::rlimit(100)]
    pub fn tick(&mut self, dt_ms: u64)
        requires
            old(self).wf(),
            dt_ms <= 1000,
        ensures
            final(self).wf(),
            final(self).health.current <= final(self).health.max,
            final(self).ledger.upgrades == old(self).ledger.upgrades,
            !old(self).run.spec_is_running() ==> {
                &&& final(self).score == old(self).score
                &&& final(self).health == old(self).health
                &&& final(self).hostiles@ == old(self).hostiles@
                &&& final(self).ledger == old(self).ledger
                &&& final(self).run == old(self).run
            },
            final(self).ledger.currency.balance != old(self).ledger.currency.balance
                ==> final(self).dirty,
            (exists|ch: TickChance| #[trigger] spec_tick_rel(
                old(self).model(),
                final(self).model(),
                dt_ms,
                ch,
            )),
    {
        let ghost m0 = self.model();
        let balance_before = self.ledger.currency.balance;
        self.run_pre_combat_systems(dt_ms);
        let ghost m8 = self.model();
        let ghost spawn_pos = choose|sp: Vec2|
            #![trigger spec_stage_spawn(spec_stage_weapon(m0), dt_ms, sp)]
            {
                let s1 = spec_stage_weapon(m0);
                &&& spec_spawn_chance_ok(s1, dt_ms, sp)
                &&& m8 == spec_stage_wave_age(
                    spec_stage_wave_volley(
                        spec_stage_move_hostiles(
                            spec_stage_move_player(
                                spec_stage_trail_age(
                                    spec_stage_trail_spawn(
                                        spec_stage_spawn(s1, dt_ms, sp),
                                        dt_ms,
                                    ),
                                    dt_ms,
                                ),
                                dt_ms,
                            ),
                            dt_ms,
                        ),
                        dt_ms,
                    ),
                    dt_ms,
                )
            };
        self.run_combat_systems();
        let ghost m12 = self.model();
        let ghost drops = choose|td: Seq<PowerUpEntity>, wd: Seq<PowerUpEntity>|
            #![trigger spec_stage_wave_hits(spec_stage_trail_hits(m8, td), wd)]
            {
                let s9 = spec_stage_trail_hits(m8, td);
                &&& crate::combat::spec_drops_match(td, spec_trail_kills(m8))
                &&& crate::combat::spec_drops_match(wd, spec_wave_kills(s9))
                &&& m12 == spec_stage_pickups(
                    spec_stage_contact(spec_stage_wave_hits(s9, wd)),
                )
            };
        self.tick_power_up_lifetimes(dt_ms);
        let ghost m13 = self.model();
        proof {
            assert(m13 == spec_stage_powerup_age(m12, dt_ms));
        }
        self.update_particles(dt_ms);
        let ghost m14 = self.model();
        proof {
            assert(m14 == spec_stage_particle_age(m13, dt_ms));
        }
        self.tick_buffs(dt_ms);
        let ghost m15 = self.model();
        proof {
            assert(m15 == spec_stage_buffs(m14, dt_ms));
        }
        if self.ledger.currency.balance != balance_before {
            self.dirty = true;
        }
        proof {
            let ch = TickChance {
                spawn_pos,
                trail_drops: drops.0,
                wave_drops: drops.1,
            };
            assert(self.model() == m15);
            assert(spec_tick_rel(m0, self.model(), dt_ms, ch));
        }
    }
}


/// The ghost image of a simulation state: every gameplay-bearing field,
/// with the entity tables as sequences. The screen-shake and hit-freeze
/// feedback values and the persistence dirty flag are presentation and
/// bookkeeping concerns and stay outside the image.
pub struct SimModel {
    pub run: RunState,
    pub score: Score,
    pub ledger: Ledger,
    pub health: PlayerHealth,
    pub shield: ShieldState,
    pub combat: CombatStats,
    pub combo: Combo,
    pub spawn_timer: EnemySpawnTimer,
    pub trail_timer: Timer,
    pub wave_timer_ms: u64,
    pub player: PlayerBody,
    pub pointer: Vec2,
    pub hostiles: Seq<Hostile>,
    pub trail: Seq<TrailSegment>,
    pub waves: Seq<WaveProjectile>,
    pub powerups: Seq<PowerUpEntity>,
    pub particles: Seq<Particle>,
}

impl Sim {
    /// The ghost image of this state.
    pub open spec fn model(self) -> SimModel {
        SimModel {
            run: self.run,
            score: self.score,
            ledger: self.ledger,
            health: self.health,
            shield: self.shield,
            combat: self.combat,
            combo: self.combo,
            spawn_timer: self.spawn_timer,
            trail_timer: self.trail_timer,
            wave_timer_ms: self.wave_timer_ms,
            player: self.player,
            pointer: self.pointer,
            hostiles: self.hostiles@,
            trail: self.trail@,
            waves: self.waves@,
            powerups: self.powerups@,
            particles: self.particles@,
        }
    }
}

/// The random draws one tick makes: where a due hostile spawned, and
/// which power-ups the kills of the two damage passes dropped.
pub struct TickChance {
    pub spawn_pos: Vec2,
    pub trail_drops: Seq<PowerUpEntity>,
    pub wave_drops: Seq<PowerUpEntity>,
}

/// The derived weapon mode takes effect.
pub open spec fn spec_stage_weapon(s: SimModel) -> SimModel {
    SimModel {
        player: PlayerBody {
            weapon: if s.combat.wave_blast_remaining_ms > 0 {
                WeaponType::Wave
            } else {
                WeaponType::Trail
            },
            ..s.player
        },
        ..s
    }
}

/// Whether the spawn clock makes a hostile due this tick.
pub open spec fn spec_spawn_due(s: SimModel, dt: u64) -> bool {
    &&& s.run.spec_is_running()
    &&& s.spawn_timer.spawn_count < u32::MAX
    &&& s.spawn_timer.timer.elapsed_ms + dt >= s.spawn_timer.timer.duration_ms
}

/// The hostile spawner's step: when due, one hostile with score-scaled
/// stats appears at the drawn position and the clock ramps; otherwise
/// only the clock advances.
pub open spec fn spec_stage_spawn(s: SimModel, dt: u64, spawn_pos: Vec2) -> SimModel {
    if !s.run.spec_is_running() || s.spawn_timer.spawn_count == u32::MAX {
        s
    } else if spec_spawn_due(s, dt) {
        SimModel {
            hostiles: s.hostiles.push(
                Hostile {
                    pos: spawn_pos,
                    vel: Vec2 { x: 0, y: 0 },
                    knockback: Vec2 { x: 0, y: 0 },
                    speed: crate::spawner::spec_enemy_speed(s.score.current) as u64,
                    health_milli: crate::spawner::spec_enemy_health_milli(
                        s.score.current,
                    ) as u64,
                },
            ),
            spawn_timer: crate::spawner::spec_clock_after_spawn(
                crate::spawner::spec_clock_after_tick(s.spawn_timer, dt),
            ),
            ..s
        }
    } else {
        SimModel { spawn_timer: crate::spawner::spec_clock_after_tick(s.spawn_timer, dt), ..s }
    }
}

/// The drawn spawn position is a bounded offset from the player, at least
/// about three hundred and fifty units out in some direction.
pub open spec fn spec_spawn_chance_ok(s: SimModel, dt: u64, spawn_pos: Vec2) -> bool {
    (s.run.spec_is_running() && s.spawn_timer.spawn_count < u32::MAX && spec_spawn_due(
        s,
        dt,
    )) ==> (exists|off: Vec2|
        off.bounded(700_000) && (off.x >= 353_500 || off.x <= -353_500 || off.y >= 353_500
            || off.y <= -353_500) && spawn_pos == #[trigger] spec_clamp_vec(
            spec_add_vec(s.player.pos, off),
            ENTITY_BOUND,
        ))
}

/// The trail weapon's firing step.
pub open spec fn spec_stage_trail_spawn(s: SimModel, dt: u64) -> SimModel {
    if !(s.run.spec_is_running() && s.player.weapon == WeaponType::Trail) {
        s
    } else {
        SimModel {
            trail: if s.trail_timer.elapsed_ms + dt >= TRAIL_SPAWN_INTERVAL_MS {
                s.trail.push(
                    TrailSegment {
                        pos: s.player.pos,
                        remaining_ms: TRAIL_LIFETIME_MS,
                        damage_milli: crate::state::spec_trail_damage_milli(
                            s.combat.base_trail_damage_milli,
                            s.combat.accuracy_stacks,
                            (1000 + 200 * s.ledger.upgrades.trail_damage_level) as u32,
                        ) as u64,
                    },
                )
            } else {
                s.trail
            },
            trail_timer: crate::timer::spec_repeating_after_tick(s.trail_timer, dt),
            ..s
        }
    }
}

/// The trail's aging step.
pub open spec fn spec_stage_trail_age(s: SimModel, dt: u64) -> SimModel {
    SimModel { trail: spec_age_trail(s.trail, dt), ..s }
}

/// The player's steering step.
pub open spec fn spec_stage_move_player(s: SimModel, dt: u64) -> SimModel {
    if !s.run.spec_is_running() {
        s
    } else {
        let vel = crate::entities::spec_steer_velocity(
            s.player,
            s.pointer,
            spec_player_speed(s.ledger.upgrades, s.combat.accuracy_stacks) as i64,
        );
        SimModel {
            player: PlayerBody {
                vel,
                knockback: spec_scale_vec(
                    s.player.knockback,
                    crate::entities::KNOCKBACK_DAMPING_MILLI,
                    1000,
                ),
                pos: spec_clamp_vec(
                    spec_add_vec(
                        s.player.pos,
                        spec_scale_vec(
                            spec_add_vec(vel, s.player.knockback),
                            dt as i64,
                            1000,
                        ),
                    ),
                    ARENA_HALF,
                ),
                weapon: s.player.weapon,
            },
            ..s
        }
    }
}

/// The hostiles' pursuit step.
pub open spec fn spec_stage_move_hostiles(s: SimModel, dt: u64) -> SimModel {
    if !s.run.spec_is_running() {
        s
    } else {
        SimModel {
            hostiles: s.hostiles.map_values(
                |h: Hostile| spec_hostile_step(h, s.player.pos, dt),
            ),
            ..s
        }
    }
}

/// The wave weapon's volley step.
pub open spec fn spec_stage_wave_volley(s: SimModel, dt: u64) -> SimModel {
    if !(s.run.spec_is_running() && s.player.weapon == WeaponType::Wave && s.player.vel.x
        * s.player.vel.x + s.player.vel.y * s.player.vel.y >= WAVE_MIN_SPEED_SQ) {
        s
    } else if s.wave_timer_ms + dt >= WAVE_CADENCE_MS {
        let dir = crate::geom::spec_normalize_to(s.player.vel, 1000);
        SimModel {
            wave_timer_ms: 0,
            waves: s.waves.push(spec_wave_cast(s.player.pos, dir, (-1) as i64, 0)).push(
                spec_wave_cast(s.player.pos, dir, (-1) as i64, 1),
            ).push(spec_wave_cast(s.player.pos, dir, (-1) as i64, 2)).push(
                spec_wave_cast(s.player.pos, dir, 1 as i64, 0),
            ).push(spec_wave_cast(s.player.pos, dir, 1 as i64, 1)).push(
                spec_wave_cast(s.player.pos, dir, 1 as i64, 2),
            ),
            ..s
        }
    } else {
        SimModel { wave_timer_ms: (s.wave_timer_ms + dt) as u64, ..s }
    }
}

/// The wave projectiles' aging step.
pub open spec fn spec_stage_wave_age(s: SimModel, dt: u64) -> SimModel {
    SimModel { waves: spec_age_waves(s.waves, dt), ..s }
}

/// The trail segments of a state as hit sources.
pub open spec fn spec_trail_hit_sources(trail: Seq<TrailSegment>) -> Seq<
    crate::combat::HitSource,
> {
    trail.map_values(
        |seg: TrailSegment| crate::combat::HitSource {
            pos: seg.pos,
            damage_milli: seg.damage_milli,
        },
    )
}

/// The wave projectiles of a state as hit sources.
pub open spec fn spec_wave_hit_sources(waves: Seq<WaveProjectile>) -> Seq<
    crate::combat::HitSource,
> {
    waves.map_values(
        |w: WaveProjectile| crate::combat::HitSource {
            pos: w.pos,
            damage_milli: WAVE_DAMAGE_MILLI,
        },
    )
}

/// The knockback strength of a trail hit under the knockback upgrade.
pub open spec fn spec_trail_knockback(upgrades: PurchasedUpgrades) -> i64 {
    (ENEMY_KNOCKBACK * (1000 + 500 * upgrades.enemy_knockback_level) / 1000) as i64
}

/// The starting state of a damage pass over `s`.
pub open spec fn spec_hit_init(s: SimModel) -> HitPassState {
    HitPassState {
        hostiles: Seq::empty(),
        combo: s.combo,
        score: s.score,
        balance: s.ledger.currency.balance,
        kill_positions: Seq::empty(),
    }
}

/// The whole trail damage pass over `s`.
pub open spec fn spec_trail_pass(s: SimModel) -> HitPassState {
    spec_hit_pass(
        s.hostiles,
        spec_trail_hit_sources(s.trail),
        TRAIL_HIT_RADIUS,
        spec_trail_knockback(s.ledger.upgrades),
        spec_hit_init(s),
        s.hostiles.len() as int,
    )
}

/// The whole wave damage pass over `s`.
pub open spec fn spec_wave_pass(s: SimModel) -> HitPassState {
    spec_hit_pass(
        s.hostiles,
        spec_wave_hit_sources(s.waves),
        WAVE_HIT_RADIUS,
        ENEMY_KNOCKBACK,
        spec_hit_init(s),
        s.hostiles.len() as int,
    )
}

/// The positions of this tick's trail kills; none outside a running run.
pub open spec fn spec_trail_kills(s: SimModel) -> Seq<Vec2> {
    if s.run.spec_is_running() {
        spec_trail_pass(s).kill_positions
    } else {
        Seq::empty()
    }
}

/// The positions of this tick's wave kills; none outside a running run.
pub open spec fn spec_wave_kills(s: SimModel) -> Seq<Vec2> {
    if s.run.spec_is_running() {
        spec_wave_pass(s).kill_positions
    } else {
        Seq::empty()
    }
}

/// The trail damage resolution step, with its dropped power-ups given.
pub open spec fn spec_stage_trail_hits(s: SimModel, drops: Seq<PowerUpEntity>) -> SimModel {
    if !s.run.spec_is_running() {
        s
    } else {
        let end = spec_trail_pass(s);
        SimModel {
            hostiles: end.hostiles,
            combo: end.combo,
            score: end.score,
            ledger: Ledger { currency: Currency { balance: end.balance }, ..s.ledger },
            powerups: s.powerups + drops,
            ..s
        }
    }
}

/// The wave damage resolution step, with its dropped power-ups given.
pub open spec fn spec_stage_wave_hits(s: SimModel, drops: Seq<PowerUpEntity>) -> SimModel {
    if !s.run.spec_is_running() {
        s
    } else {
        let end = spec_wave_pass(s);
        SimModel {
            hostiles: end.hostiles,
            combo: end.combo,
            score: end.score,
            ledger: Ledger { currency: Currency { balance: end.balance }, ..s.ledger },
            powerups: s.powerups + drops,
            ..s
        }
    }
}

/// The hostile-contact resolution step.
pub open spec fn spec_stage_contact(s: SimModel) -> SimModel {
    if !s.run.spec_is_running() {
        s
    } else {
        let end = spec_contact_pass(
            s.hostiles,
            s.player.pos,
            s.shield.remaining_ms > 0,
            ContactPassState {
                hostiles: Seq::empty(),
                health: s.health,
                score: s.score,
                knockback: s.player.knockback,
                run: s.run,
                combo: s.combo,
            },
            s.hostiles.len() as int,
        );
        SimModel {
            hostiles: end.hostiles,
            health: end.health,
            score: end.score,
            player: PlayerBody { knockback: end.knockback, ..s.player },
            run: end.run,
            combo: end.combo,
            ..s
        }
    }
}

/// The pickup resolution step.
pub open spec fn spec_stage_pickups(s: SimModel) -> SimModel {
    if !s.run.spec_is_running() {
        s
    } else {
        let end = spec_pickup_pass(
            s.powerups,
            s.player.pos,
            (SHIELD_DURATION_MS + 750 * s.ledger.upgrades.shield_level) as u64,
            PickupPassState {
                powerups: Seq::empty(),
                balance: s.ledger.currency.balance,
                health: s.health,
                shield_remaining_ms: s.shield.remaining_ms,
                shield_duration_ms: s.shield.duration_ms,
                accuracy_stacks: s.combat.accuracy_stacks,
                wave_blast_remaining_ms: s.combat.wave_blast_remaining_ms,
            },
            s.powerups.len() as int,
        );
        SimModel {
            powerups: end.powerups,
            ledger: Ledger { currency: Currency { balance: end.balance }, ..s.ledger },
            health: end.health,
            shield: ShieldState {
                remaining_ms: end.shield_remaining_ms,
                duration_ms: end.shield_duration_ms,
            },
            combat: CombatStats {
                accuracy_stacks: end.accuracy_stacks,
                wave_blast_remaining_ms: end.wave_blast_remaining_ms,
                ..s.combat
            },
            ..s
        }
    }
}

/// The power-ups' aging step.
pub open spec fn spec_stage_powerup_age(s: SimModel, dt: u64) -> SimModel {
    SimModel { powerups: spec_age_powerups(s.powerups, dt), ..s }
}

/// The particles' aging step.
pub open spec fn spec_stage_particle_age(s: SimModel, dt: u64) -> SimModel {
    SimModel { particles: spec_age_particles(s.particles, dt), ..s }
}

/// The buff decay step: shield and wave-blast count down, and in a
/// running run the combo decay window advances.
pub open spec fn spec_stage_buffs(s: SimModel, dt: u64) -> SimModel {
    SimModel {
        shield: ShieldState {
            remaining_ms: if dt <= s.shield.remaining_ms {
                (s.shield.remaining_ms - dt) as u64
            } else {
                0u64
            },
            duration_ms: s.shield.duration_ms,
        },
        combat: CombatStats {
            wave_blast_remaining_ms: if dt <= s.combat.wave_blast_remaining_ms {
                (s.combat.wave_blast_remaining_ms - dt) as u64
            } else {
                0u64
            },
            ..s.combat
        },
        combo: if s.run.spec_is_running() {
            crate::combo::spec_combo_after_tick(s.combo, dt)
        } else {
            s.combo
        },
        ..s
    }
}

/// One whole tick relates its pre- and post-images through the fixed
/// chain of subsystem steps, given the tick's random draws: the spawned
/// position is a genuine offset from the player, and each damage pass
/// dropped at most one power-up per kill, each sitting at its own kill's
/// position with the full power-up lifetime.
pub open spec fn spec_tick_rel(pre: SimModel, post: SimModel, dt: u64, ch: TickChance) -> bool {
    let s1 = spec_stage_weapon(pre);
    let s2 = spec_stage_spawn(s1, dt, ch.spawn_pos);
    let s3 = spec_stage_trail_spawn(s2, dt);
    let s4 = spec_stage_trail_age(s3, dt);
    let s5 = spec_stage_move_player(s4, dt);
    let s6 = spec_stage_move_hostiles(s5, dt);
    let s7 = spec_stage_wave_volley(s6, dt);
    let s8 = spec_stage_wave_age(s7, dt);
    let s9 = spec_stage_trail_hits(s8, ch.trail_drops);
    let s10 = spec_stage_wave_hits(s9, ch.wave_drops);
    let s11 = spec_stage_contact(s10);
    let s12 = spec_stage_pickups(s11);
    let s13 = spec_stage_powerup_age(s12, dt);
    let s14 = spec_stage_particle_age(s13, dt);
    let s15 = spec_stage_buffs(s14, dt);
    &&& spec_spawn_chance_ok(s1, dt, ch.spawn_pos)
    &&& crate::combat::spec_drops_match(ch.trail_drops, spec_trail_kills(s8))
    &&& crate::combat::spec_drops_match(ch.wave_drops, spec_wave_kills(s9))
    &&& post == s15
}


} // verus!
