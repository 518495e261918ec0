use threadweaver::combo::Combo;
use threadweaver::timer::{Timer, TimerMode};

#[test]
fn three_quick_kills_score_ten_fifteen_twenty() {
    let mut combo = Combo::new();
    assert_eq!(combo.multiplier_milli(), 1000);

    let first = combo.register_kill();
    assert_eq!(combo.multiplier_milli(), 1000);
    assert_eq!(first, 10);

    let second = combo.register_kill();
    assert_eq!(combo.multiplier_milli(), 1500);
    assert_eq!(second, 15);

    let third = combo.register_kill();
    assert_eq!(combo.multiplier_milli(), 2000);
    assert_eq!(third, 20);
}

#[test]
fn combo_survives_within_window_and_decays_after_it() {
    let mut combo = Combo::new();
    combo.register_kill();
    combo.tick(999);
    assert_eq!(combo.streak, 1);
    combo.tick(1);
    assert_eq!(combo.streak, 0);
}

#[test]
fn kill_rearms_the_window() {
    let mut combo = Combo::new();
    combo.register_kill();
    combo.tick(900);
    combo.register_kill();
    combo.tick(900);
    assert_eq!(combo.streak, 2);
    combo.tick(200);
    assert_eq!(combo.streak, 0);
    assert_eq!(combo.multiplier_milli(), 1000);
}

#[test]
fn idle_combo_does_not_decay() {
    let mut combo = Combo::new();
    combo.tick(10_000);
    assert_eq!(combo.streak, 0);
}

#[test]
fn once_timer_saturates() {
    let mut t = Timer::new(100, TimerMode::Once);
    t.tick(60);
    assert!(!t.finished());
    assert!(!t.just_finished);
    t.tick(60);
    assert!(t.finished());
    assert!(t.just_finished);
    t.tick(60);
    assert!(t.finished());
    assert!(!t.just_finished);
    assert_eq!(t.elapsed_ms, 100);
}

#[test]
fn repeating_timer_wraps_and_fires_once_per_crossing() {
    let mut t = Timer::new(100, TimerMode::Repeating);
    t.tick(150);
    assert!(t.just_finished);
    assert_eq!(t.elapsed_ms, 50);
    t.tick(40);
    assert!(!t.just_finished);
    t.tick(10);
    assert!(t.just_finished);
    assert_eq!(t.elapsed_ms, 0);
}

#[test]
fn reset_zeroes_elapsed_only() {
    let mut t = Timer::new(100, TimerMode::Once);
    t.tick(70);
    t.reset();
    assert_eq!(t.elapsed_ms, 0);
    assert_eq!(t.duration_ms, 100);
}

#[test]
fn set_duration_keeps_progress() {
    let mut t = Timer::new(100, TimerMode::Repeating);
    t.tick(30);
    t.set_duration(200);
    assert_eq!(t.elapsed_ms, 30);
    assert_eq!(t.duration_ms, 200);
}

#[test]
fn paused_timer_ignores_ticks() {
    let mut t = Timer::new(100, TimerMode::Once);
    t.pause();
    t.tick(500);
    assert_eq!(t.elapsed_ms, 0);
    t.unpause();
    t.tick(50);
    assert_eq!(t.elapsed_ms, 50);
}
