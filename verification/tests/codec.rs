use threadweaver::codec::{
    load_currency, load_state, load_upgrades, save_currency, save_state, save_upgrades,
};
use threadweaver::economy::PurchasedUpgrades;

fn sample_upgrades() -> PurchasedUpgrades {
    let mut u = PurchasedUpgrades::new_zero();
    u.movement_speed_level = 2;
    u.max_health_level = 4;
    u.trail_damage_level = 0;
    u.shield_level = 3;
    u.enemy_knockback_level = 1;
    u
}

#[test]
fn currency_is_stored_as_plain_decimal() {
    assert_eq!(save_currency(0), b"0".to_vec());
    assert_eq!(save_currency(12345), b"12345".to_vec());
    assert_eq!(save_currency(u32::MAX), b"4294967295".to_vec());
}

#[test]
fn currency_round_trips() {
    for v in [0u32, 1, 9, 10, 12345, u32::MAX] {
        let bytes = save_currency(v);
        assert_eq!(load_currency(Some(&bytes)), v);
    }
}

#[test]
fn currency_load_is_best_effort() {
    assert_eq!(load_currency(None), 0);
    assert_eq!(load_currency(Some(b"")), 0);
    assert_eq!(load_currency(Some(b"12a")), 0);
    assert_eq!(load_currency(Some(b"-5")), 0);
    assert_eq!(load_currency(Some(b"99999999999")), 0);
    assert_eq!(load_currency(Some(b"007")), 7);
}

#[test]
fn upgrades_are_stored_as_one_json_object() {
    let bytes = save_upgrades(&sample_upgrades());
    let expected = "{\"movement_speed_level\":2,\"max_health_level\":4,\"trail_damage_level\":0,\"shield_level\":3,\"enemy_knockback_level\":1}";
    assert_eq!(bytes, expected.as_bytes().to_vec());
}

#[test]
fn upgrades_round_trip() {
    let u = sample_upgrades();
    let bytes = save_upgrades(&u);
    let loaded = load_upgrades(Some(&bytes));
    assert_eq!(loaded, u);
}

#[test]
fn saving_a_loaded_value_and_loading_again_is_idempotent() {
    let bytes = save_upgrades(&sample_upgrades());
    let first = load_upgrades(Some(&bytes));
    let resaved = save_upgrades(&first);
    let second = load_upgrades(Some(&resaved));
    assert_eq!(first, second);
}

#[test]
fn upgrades_load_is_best_effort() {
    let zero = PurchasedUpgrades::new_zero();
    assert_eq!(load_upgrades(None), zero);
    assert_eq!(load_upgrades(Some(b"")), zero);
    assert_eq!(load_upgrades(Some(b"{}")), zero);
    assert_eq!(load_upgrades(Some(b"not json at all")), zero);
    let mut bytes = save_upgrades(&sample_upgrades());
    bytes.push(b' ');
    assert_eq!(load_upgrades(Some(&bytes)), zero);
}

#[test]
fn stored_levels_beyond_the_cap_are_clamped() {
    let mut u = PurchasedUpgrades::new_zero();
    u.movement_speed_level = 99;
    u.shield_level = 7;
    let bytes = save_upgrades(&u);
    let loaded = load_upgrades(Some(&bytes));
    assert_eq!(loaded.movement_speed_level, 4);
    assert_eq!(loaded.shield_level, 3);
    assert_eq!(loaded.max_health_level, 0);
}

#[test]
fn state_document_has_the_combined_layout() {
    let bytes = save_state(250, &sample_upgrades());
    let expected = "{\"currency\":250,\"upgrades\":{\"movement_speed_level\":2,\"max_health_level\":4,\"trail_damage_level\":0,\"shield_level\":3,\"enemy_knockback_level\":1}}";
    assert_eq!(bytes, expected.as_bytes().to_vec());
}

#[test]
fn state_round_trips() {
    let u = sample_upgrades();
    let bytes = save_state(77, &u);
    let (currency, loaded) = load_state(Some(&bytes));
    assert_eq!(currency, 77);
    assert_eq!(loaded, u);
}

#[test]
fn state_load_is_best_effort() {
    let (currency, upgrades) = load_state(Some(b"{\"currency\":oops}"));
    assert_eq!(currency, 0);
    assert_eq!(upgrades, PurchasedUpgrades::new_zero());
    let (currency, _) = load_state(None);
    assert_eq!(currency, 0);
}
