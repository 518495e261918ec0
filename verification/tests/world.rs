use threadweaver::combat::{drop_roll_hits, power_up_from_roll};
use threadweaver::economy::{Currency, PlayerColor, PurchaseOutcome, PurchasedUpgrades, UpgradeType};
use threadweaver::entities::{
    Hostile, PowerUpEntity, PowerUpKind, TrailSegment, WeaponType,
};
use threadweaver::geom::Vec2;
use threadweaver::world::Sim;

fn fresh_sim() -> Sim {
    Sim::new(Currency::new(0), PurchasedUpgrades::new_zero())
}

fn hostile_at(x: i64, y: i64, health_milli: u64) -> Hostile {
    Hostile {
        pos: Vec2::new(x, y),
        vel: Vec2::new(0, 0),
        knockback: Vec2::new(0, 0),
        speed: 180_000,
        health_milli,
    }
}

#[test]
fn new_sim_is_primed_from_upgrades() {
    let mut upgrades = PurchasedUpgrades::new_zero();
    upgrades.max_health_level = 2;
    upgrades.shield_level = 1;
    let sim = Sim::new(Currency::new(42), upgrades);
    assert_eq!(sim.health.max, 6);
    assert_eq!(sim.health.current, 6);
    assert_eq!(sim.shield.duration_ms, 4750);
    assert_eq!(sim.shield.remaining_ms, 0);
    assert_eq!(sim.ledger.currency.balance, 42);
}

#[test]
fn health_never_exceeds_max_and_balance_never_underflows() {
    let mut sim = fresh_sim();
    sim.health.heal(1000);
    assert!(sim.health.current <= sim.health.max);
    sim.health.damage(1000);
    assert_eq!(sim.health.current, 0);
    assert!(!sim.ledger.currency.debit(1));
    assert_eq!(sim.ledger.currency.balance, 0);
}

#[test]
fn shielded_contact_destroys_hostile_but_not_health() {
    let mut sim = fresh_sim();
    sim.shield.activate(4000);
    sim.hostiles.push(hostile_at(1000, 0, 3000));
    let health_before = sim.health.current;
    sim.handle_player_collisions();
    assert_eq!(sim.hostiles.len(), 0);
    assert_eq!(sim.health.current, health_before);
    assert!(sim.run.is_active());
}

#[test]
fn unshielded_contact_costs_one_hit_point_and_score() {
    let mut sim = fresh_sim();
    sim.score.add(100);
    sim.hostiles.push(hostile_at(1000, 0, 3000));
    sim.handle_player_collisions();
    assert_eq!(sim.hostiles.len(), 0);
    assert_eq!(sim.health.current, 3);
    assert_eq!(sim.score.current, 95);
    assert!(sim.run.is_active());
}

#[test]
fn lethal_contact_ends_the_run_and_keeps_best_score() {
    let mut sim = fresh_sim();
    sim.score.add(30);
    sim.health.damage(3);
    sim.hostiles.push(hostile_at(0, 0, 3000));
    sim.handle_player_collisions();
    assert!(!sim.run.is_active());
    assert_eq!(sim.health.current, 0);
    assert_eq!(sim.score.best, 30);
    assert_eq!(sim.combo.streak, 0);
}

#[test]
fn distant_hostile_survives_contact_pass() {
    let mut sim = fresh_sim();
    sim.hostiles.push(hostile_at(1_000_000, 0, 3000));
    sim.handle_player_collisions();
    assert_eq!(sim.hostiles.len(), 1);
    assert_eq!(sim.health.current, sim.health.max);
}

#[test]
fn trail_hit_kills_scores_and_credits() {
    let mut sim = fresh_sim();
    sim.hostiles.push(hostile_at(500_000, 0, 3000));
    sim.trail.push(TrailSegment {
        pos: Vec2::new(500_000, 1000),
        remaining_ms: 2000,
        damage_milli: 3000,
    });
    sim.resolve_trail_hits();
    assert_eq!(sim.hostiles.len(), 0);
    assert_eq!(sim.score.current, 10);
    assert_eq!(sim.ledger.currency.balance, 1);
    assert_eq!(sim.combo.streak, 1);
}

#[test]
fn trail_hit_wounds_without_killing() {
    let mut sim = fresh_sim();
    sim.hostiles.push(hostile_at(500_000, 0, 10_000));
    sim.trail.push(TrailSegment {
        pos: Vec2::new(500_000, 0),
        remaining_ms: 2000,
        damage_milli: 3000,
    });
    sim.resolve_trail_hits();
    assert_eq!(sim.hostiles.len(), 1);
    assert_eq!(sim.hostiles[0].health_milli, 7000);
    assert_eq!(sim.score.current, 0);
    assert_eq!(sim.ledger.currency.balance, 0);
}

#[test]
fn one_segment_damages_a_hostile_at_most_once_per_pass() {
    let mut sim = fresh_sim();
    sim.hostiles.push(hostile_at(500_000, 0, 10_000));
    for _ in 0..3 {
        sim.trail.push(TrailSegment {
            pos: Vec2::new(500_000, 0),
            remaining_ms: 2000,
            damage_milli: 3000,
        });
    }
    sim.resolve_trail_hits();
    assert_eq!(sim.hostiles[0].health_milli, 7000);
}

#[test]
fn pickups_grant_their_effects() {
    let mut sim = fresh_sim();
    sim.health.damage(2);
    for kind in [
        PowerUpKind::Currency,
        PowerUpKind::Health,
        PowerUpKind::Shield,
        PowerUpKind::Accuracy,
        PowerUpKind::WaveBlast,
    ] {
        sim.powerups.push(PowerUpEntity {
            kind,
            pos: Vec2::new(0, 0),
            remaining_ms: 12_000,
        });
    }
    sim.handle_power_up_pickups();
    assert_eq!(sim.powerups.len(), 0);
    assert_eq!(sim.ledger.currency.balance, 5);
    assert_eq!(sim.health.current, 3);
    assert_eq!(sim.shield.remaining_ms, 4000);
    assert_eq!(sim.combat.accuracy_stacks, 1);
    assert_eq!(sim.combat.wave_blast_remaining_ms, 10_000);
}

#[test]
fn far_powerup_is_not_picked_up() {
    let mut sim = fresh_sim();
    sim.powerups.push(PowerUpEntity {
        kind: PowerUpKind::Currency,
        pos: Vec2::new(100_000, 0),
        remaining_ms: 12_000,
    });
    sim.handle_power_up_pickups();
    assert_eq!(sim.powerups.len(), 1);
    assert_eq!(sim.ledger.currency.balance, 0);
}

#[test]
fn unpicked_powerup_despawns_when_its_lifetime_ends() {
    let mut sim = fresh_sim();
    sim.powerups.push(PowerUpEntity {
        kind: PowerUpKind::Health,
        pos: Vec2::new(100_000, 0),
        remaining_ms: 600,
    });
    sim.tick_power_up_lifetimes(599);
    assert_eq!(sim.powerups.len(), 1);
    assert_eq!(sim.powerups[0].remaining_ms, 1);
    sim.tick_power_up_lifetimes(1);
    assert_eq!(sim.powerups.len(), 0);
}

#[test]
fn trail_segment_expires_exactly_once() {
    let mut sim = fresh_sim();
    sim.trail.push(TrailSegment {
        pos: Vec2::new(0, 0),
        remaining_ms: 100,
        damage_milli: 3000,
    });
    sim.update_trail_segments(99);
    assert_eq!(sim.trail.len(), 1);
    sim.update_trail_segments(1);
    assert_eq!(sim.trail.len(), 0);
}

#[test]
fn restart_resets_the_run_and_keeps_the_economy() {
    let mut sim = fresh_sim();
    sim.ledger.currency.credit(55);
    let _ = sim.handle_purchase(UpgradeType::EnemyKnockback);
    sim.score.add(40);
    sim.health.damage(2);
    sim.combo.register_kill();
    sim.hostiles.push(hostile_at(1_000_000, 0, 3000));
    sim.trail.push(TrailSegment {
        pos: Vec2::new(0, 0),
        remaining_ms: 100,
        damage_milli: 3000,
    });
    sim.run.end();

    sim.restart();

    assert!(sim.run.is_active());
    assert_eq!(sim.score.current, 0);
    assert_eq!(sim.score.best, 40);
    assert_eq!(sim.health.current, sim.health.max);
    assert_eq!(sim.combo.streak, 0);
    assert_eq!(sim.hostiles.len(), 0);
    assert_eq!(sim.trail.len(), 0);
    assert_eq!(sim.ledger.currency.balance, 45);
    assert_eq!(sim.ledger.upgrades.enemy_knockback_level, 1);
}

#[test]
fn purchase_effects_reach_the_simulation() {
    let mut sim = fresh_sim();
    sim.ledger.currency.credit(100);
    let outcome = sim.handle_purchase(UpgradeType::MaxHealth);
    assert_eq!(outcome, PurchaseOutcome::Purchased);
    assert_eq!(sim.health.max, 5);
    assert_eq!(sim.health.current, 5);
    assert!(sim.take_dirty());
    assert!(!sim.take_dirty());

    let outcome = sim.handle_purchase(UpgradeType::ShieldDuration);
    assert_eq!(outcome, PurchaseOutcome::Purchased);
    assert_eq!(sim.shield.duration_ms, 4750);
    assert_eq!(sim.shield.remaining_ms, 4750);
}

#[test]
fn weapon_mode_follows_the_wave_blast_buff() {
    let mut sim = fresh_sim();
    sim.update_weapon_type();
    assert_eq!(sim.player.weapon, WeaponType::Trail);
    sim.combat.activate_wave_blast();
    sim.update_weapon_type();
    assert_eq!(sim.player.weapon, WeaponType::Wave);
    sim.combat.tick_wave_blast(10_000);
    sim.update_weapon_type();
    assert_eq!(sim.player.weapon, WeaponType::Trail);
}

#[test]
fn fast_wave_player_casts_a_volley_of_six() {
    let mut sim = fresh_sim();
    sim.combat.activate_wave_blast();
    sim.update_weapon_type();
    sim.player.vel = Vec2::new(500_000, 0);
    sim.spawn_wave_projectiles(100);
    assert_eq!(sim.waves.len(), 6);
    for w in &sim.waves {
        assert_eq!(w.damage_milli, 2000);
        assert_eq!(w.lifetime_ms, 2000);
        assert_eq!(w.age_ms, 0);
    }
}

#[test]
fn slow_player_casts_no_waves() {
    let mut sim = fresh_sim();
    sim.combat.activate_wave_blast();
    sim.update_weapon_type();
    sim.player.vel = Vec2::new(1000, 0);
    sim.spawn_wave_projectiles(100);
    assert_eq!(sim.waves.len(), 0);
}

#[test]
fn player_moves_toward_the_pointer() {
    let mut sim = fresh_sim();
    sim.set_pointer_target(Vec2::new(1_000_000, 0));
    sim.move_player(16);
    assert!(sim.player.vel.x > 0);
    assert!(sim.player.pos.x > 0);
    assert_eq!(sim.player.vel.y, 0);
}

#[test]
fn hostiles_pursue_the_player() {
    let mut sim = fresh_sim();
    sim.hostiles.push(hostile_at(1_000_000, 0, 3000));
    sim.move_hostiles(16);
    assert!(sim.hostiles[0].vel.x < 0);
    assert!(sim.hostiles[0].pos.x < 1_000_000);
}

#[test]
fn paused_run_freezes_gameplay() {
    let mut sim = fresh_sim();
    sim.hostiles.push(hostile_at(1_000_000, 0, 3000));
    sim.run.pause();
    let before_pos = sim.hostiles[0].pos;
    sim.tick(16);
    assert_eq!(sim.hostiles.len(), 1);
    assert_eq!(sim.hostiles[0].pos, before_pos);
    assert_eq!(sim.score.current, 0);
}

#[test]
fn spawn_clock_produces_a_hostile_on_schedule() {
    let mut sim = fresh_sim();
    sim.spawn_hostiles(1000);
    assert_eq!(sim.hostiles.len(), 0);
    sim.spawn_hostiles(1000);
    assert_eq!(sim.hostiles.len(), 1);
    let h = &sim.hostiles[0];
    assert_eq!(h.speed, 180_000);
    assert_eq!(h.health_milli, 3000);
    assert_eq!(sim.spawn_timer.timer.duration_ms, 1840);
}

#[test]
fn a_kill_during_a_tick_marks_the_economy_dirty() {
    let mut sim = fresh_sim();
    sim.hostiles.push(hostile_at(60_000, 0, 1000));
    sim.trail.push(TrailSegment {
        pos: Vec2::new(60_000, 0),
        remaining_ms: 2000,
        damage_milli: 3000,
    });
    assert!(!sim.take_dirty());
    sim.tick(16);
    assert_eq!(sim.hostiles.len(), 0);
    assert_eq!(sim.ledger.currency.balance, 1);
    assert!(sim.take_dirty());
}

#[test]
fn power_up_weights_walk_the_cumulative_table() {
    assert_eq!(power_up_from_roll(0), PowerUpKind::Health);
    assert_eq!(power_up_from_roll(349), PowerUpKind::Health);
    assert_eq!(power_up_from_roll(350), PowerUpKind::Shield);
    assert_eq!(power_up_from_roll(599), PowerUpKind::Shield);
    assert_eq!(power_up_from_roll(600), PowerUpKind::Currency);
    assert_eq!(power_up_from_roll(749), PowerUpKind::Currency);
    assert_eq!(power_up_from_roll(750), PowerUpKind::Accuracy);
    assert_eq!(power_up_from_roll(899), PowerUpKind::Accuracy);
    assert_eq!(power_up_from_roll(900), PowerUpKind::WaveBlast);
    assert_eq!(power_up_from_roll(999), PowerUpKind::WaveBlast);
}

#[test]
fn shield_and_wave_blast_count_down() {
    let mut sim = fresh_sim();
    sim.shield.activate(4000);
    sim.combat.activate_wave_blast();
    sim.tick_buffs(1000);
    assert_eq!(sim.shield.remaining_ms, 3000);
    assert_eq!(sim.combat.wave_blast_remaining_ms, 9000);
    for _ in 0..10 {
        sim.tick_buffs(1000);
    }
    assert_eq!(sim.shield.remaining_ms, 0);
    assert_eq!(sim.combat.wave_blast_remaining_ms, 0);
    assert!(!sim.shield.is_active());
}

#[test]
fn wave_projectile_kills_like_the_trail() {
    let mut sim = fresh_sim();
    sim.hostiles.push(hostile_at(200_000, 0, 2000));
    sim.waves.push(threadweaver::entities::WaveProjectile {
        pos: Vec2::new(200_000, 10_000),
        vel: Vec2::new(0, 0),
        age_ms: 0,
        lifetime_ms: 2000,
        damage_milli: 2000,
        curve: 400_000,
    });
    sim.resolve_wave_hits();
    assert_eq!(sim.hostiles.len(), 0);
    assert_eq!(sim.score.current, 10);
    assert_eq!(sim.ledger.currency.balance, 1);
}

#[test]
fn death_then_restart_gives_a_fresh_run_with_the_same_economy() {
    let mut sim = fresh_sim();
    sim.ledger.currency.credit(9);
    for _ in 0..4 {
        sim.hostiles.push(hostile_at(0, 0, 3000));
    }
    sim.tick(16);
    assert!(!sim.run.is_active());
    sim.restart();
    assert!(sim.run.is_active());
    assert_eq!(sim.health.current, sim.health.max);
    assert_eq!(sim.ledger.currency.balance, 9);
}

#[test]
fn wave_projectiles_age_and_expire() {
    let mut sim = fresh_sim();
    sim.waves.push(threadweaver::entities::WaveProjectile {
        pos: Vec2::new(0, 0),
        vel: Vec2::new(100_000, 0),
        age_ms: 0,
        lifetime_ms: 2000,
        damage_milli: 2000,
        curve: 400_000,
    });
    sim.update_wave_projectiles(1000);
    assert_eq!(sim.waves.len(), 1);
    assert_eq!(sim.waves[0].age_ms, 1000);
    assert!(sim.waves[0].pos.x > 0);
    sim.update_wave_projectiles(1000);
    assert_eq!(sim.waves.len(), 0);
}

#[test]
fn drop_chance_threshold_is_fifteen_percent() {
    assert!(drop_roll_hits(0));
    assert!(drop_roll_hits(149));
    assert!(!drop_roll_hits(150));
    assert!(!drop_roll_hits(999));
}

#[test]
fn accuracy_stacks_speed_up_movement() {
    let mut sim = fresh_sim();
    assert_eq!(sim.combat.movement_accuracy_multiplier(), 1000);
    sim.combat.add_accuracy_stack();
    assert_eq!(sim.combat.movement_accuracy_multiplier(), 1120);
    sim.combat.add_accuracy_stack();
    sim.combat.add_accuracy_stack();
    assert_eq!(sim.combat.movement_accuracy_multiplier(), 1360);
    sim.combat.add_accuracy_stack();
    assert_eq!(sim.combat.movement_accuracy_multiplier(), 1400);
    sim.combat.add_accuracy_stack();
    assert_eq!(sim.combat.movement_accuracy_multiplier(), 1400);

    // the bonus reaches the steering: a stacked player accelerates harder
    let mut plain = fresh_sim();
    plain.set_pointer_target(Vec2::new(2_000_000, 0));
    plain.move_player(16);
    let mut stacked = fresh_sim();
    for _ in 0..4 {
        stacked.combat.add_accuracy_stack();
    }
    stacked.set_pointer_target(Vec2::new(2_000_000, 0));
    stacked.move_player(16);
    assert!(stacked.player.vel.x > plain.player.vel.x);
}

#[test]
fn spawned_hostiles_appear_away_from_the_player() {
    let mut sim = fresh_sim();
    sim.spawn_hostiles(1000);
    sim.spawn_hostiles(1000);
    assert_eq!(sim.hostiles.len(), 1);
    let p = sim.hostiles[0].pos;
    let far = p.x >= 353_500 || p.x <= -353_500 || p.y >= 353_500 || p.y <= -353_500;
    assert!(far);
}

#[test]
fn cosmetic_unlocks_survive_restart() {
    let mut sim = fresh_sim();
    assert!(sim.ledger.colors.is_unlocked(PlayerColor::Default));
    assert!(!sim.ledger.colors.is_unlocked(PlayerColor::Red));
    sim.ledger.colors.unlock(PlayerColor::Red);
    assert!(sim.ledger.colors.is_unlocked(PlayerColor::Red));
    assert!(!sim.ledger.colors.is_unlocked(PlayerColor::Blue));
    sim.run.end();
    sim.restart();
    assert!(sim.ledger.colors.is_unlocked(PlayerColor::Red));
}
