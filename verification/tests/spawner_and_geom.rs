use threadweaver::geom::{isqrt, lerp_milli, Vec2};
use threadweaver::spawner::{
    enemy_health_milli, enemy_speed, EnemySpawnTimer, SPAWN_INTERVAL_MIN_MS,
    SPAWN_INTERVAL_START_MS,
};

#[test]
fn spawn_interval_shrinks_geometrically_to_its_floor() {
    let mut timer = EnemySpawnTimer::new(SPAWN_INTERVAL_START_MS);
    assert_eq!(timer.timer.duration_ms, 2000);
    let mut previous = timer.timer.duration_ms;
    let mut reached_floor = false;
    for _ in 0..40 {
        timer.after_spawn();
        let current = timer.timer.duration_ms;
        assert!(current <= previous);
        assert!(current >= SPAWN_INTERVAL_MIN_MS);
        if previous > SPAWN_INTERVAL_MIN_MS {
            assert!(current < previous);
        } else {
            assert_eq!(current, SPAWN_INTERVAL_MIN_MS);
            reached_floor = true;
        }
        previous = current;
    }
    assert!(reached_floor);
}

#[test]
fn spawn_interval_first_steps_are_exact() {
    let mut timer = EnemySpawnTimer::new(SPAWN_INTERVAL_START_MS);
    timer.after_spawn();
    assert_eq!(timer.timer.duration_ms, 1840);
    timer.after_spawn();
    assert_eq!(timer.timer.duration_ms, 1692);
    timer.after_spawn();
    assert_eq!(timer.timer.duration_ms, 1556);
}

#[test]
fn spawn_clock_fires_on_the_interval() {
    let mut timer = EnemySpawnTimer::new(SPAWN_INTERVAL_START_MS);
    assert!(!timer.tick(1999));
    assert!(timer.tick(1));
    assert!(!timer.tick(100));
}

#[test]
fn hostile_stats_scale_linearly_with_score() {
    assert_eq!(enemy_speed(0), 180_000);
    assert_eq!(enemy_speed(200), 188_000);
    assert_eq!(enemy_speed(u32::MAX), 2_000_000);
    assert_eq!(enemy_health_milli(0), 3000);
    assert_eq!(enemy_health_milli(500), 6000);
    assert_eq!(enemy_health_milli(1000), 9000);
}

#[test]
fn integer_square_root_is_exact() {
    assert_eq!(isqrt(0), 0);
    assert_eq!(isqrt(1), 1);
    assert_eq!(isqrt(3), 1);
    assert_eq!(isqrt(4), 2);
    assert_eq!(isqrt(99), 9);
    assert_eq!(isqrt(100), 10);
    assert_eq!(isqrt(u64::MAX), 0xffff_ffff);
}

#[test]
fn normalize_rescales_exactly() {
    let v = Vec2::new(3000, 4000);
    let unit = v.normalize_to(1000);
    assert_eq!(unit, Vec2::new(600, 800));
    let zero = Vec2::new(0, 0).normalize_to(1000);
    assert_eq!(zero, Vec2::new(0, 0));
    let neg = Vec2::new(-3000, 4000).normalize_to(1000);
    assert_eq!(neg, Vec2::new(-600, 800));
}

#[test]
fn lerp_moves_between_its_ends() {
    assert_eq!(lerp_milli(0, 1000, 500), 500);
    assert_eq!(lerp_milli(0, 1000, 0), 0);
    assert_eq!(lerp_milli(0, 1000, 1000), 1000);
    assert_eq!(lerp_milli(1000, 0, 250), 750);
    assert_eq!(lerp_milli(-1000, 1000, 500), 0);
}

#[test]
fn clamp_to_bounds_cuts_both_axes() {
    let v = Vec2::new(9_000_000, -9_000_000).clamp_to_bounds(2_500_000);
    assert_eq!(v, Vec2::new(2_500_000, -2_500_000));
    let inside = Vec2::new(5, -5).clamp_to_bounds(2_500_000);
    assert_eq!(inside, Vec2::new(5, -5));
}

#[test]
fn distance_squared_is_exact() {
    let a = Vec2::new(0, 0);
    let b = Vec2::new(3, 4);
    assert_eq!(a.distance_squared(&b), 25);
}

#[test]
fn random_directions_stay_within_the_unit_box() {
    for _ in 0..200 {
        let d = threadweaver::world::random_unit_milli();
        assert!(d.x >= -1000 && d.x <= 1000);
        assert!(d.y >= -1000 && d.y <= 1000);
    }
}
