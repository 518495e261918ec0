use threadweaver::economy::{
    Currency, Ledger, PurchaseOutcome, PurchasedUpgrades, ShopItem, UpgradeCategory,
    UpgradeType,
};

fn item(kind: UpgradeType) -> ShopItem {
    ShopItem::new(kind, "", kind.base_cost(), kind.max_level())
}

#[test]
fn purchase_deducts_exactly_and_raises_level() {
    let mut ledger = Ledger::new(Currency::new(100), PurchasedUpgrades::new_zero());
    let outcome = ledger.try_purchase(UpgradeType::MovementSpeed);
    assert_eq!(outcome, PurchaseOutcome::Purchased);
    assert_eq!(ledger.currency.balance, 88);
    assert_eq!(ledger.upgrades.movement_speed_level, 1);

    let outcome = ledger.try_purchase(UpgradeType::MovementSpeed);
    assert_eq!(outcome, PurchaseOutcome::Purchased);
    assert_eq!(ledger.currency.balance, 40);
    assert_eq!(ledger.upgrades.movement_speed_level, 2);
}

#[test]
fn purchase_fails_without_funds_and_changes_nothing() {
    let mut ledger = Ledger::new(Currency::new(5), PurchasedUpgrades::new_zero());
    let outcome = ledger.try_purchase(UpgradeType::TrailDamage);
    assert_eq!(outcome, PurchaseOutcome::InsufficientFunds);
    assert_eq!(ledger.currency.balance, 5);
    assert_eq!(ledger.upgrades.trail_damage_level, 0);
}

#[test]
fn purchase_fails_when_maxed() {
    let mut upgrades = PurchasedUpgrades::new_zero();
    upgrades.movement_speed_level = 4;
    let mut ledger = Ledger::new(Currency::new(1000), upgrades);
    let outcome = ledger.try_purchase(UpgradeType::MovementSpeed);
    assert_eq!(outcome, PurchaseOutcome::AlreadyMaxed);
    assert_eq!(ledger.currency.balance, 1000);
    assert_eq!(ledger.upgrades.movement_speed_level, 4);
}

#[test]
fn debit_is_atomic() {
    let mut c = Currency::new(10);
    assert!(c.debit(10));
    assert_eq!(c.balance, 0);
    assert!(!c.debit(1));
    assert_eq!(c.balance, 0);
}

#[test]
fn credit_saturates() {
    let mut c = Currency::new(u32::MAX - 1);
    c.credit(5);
    assert_eq!(c.balance, u32::MAX);
}

#[test]
fn cost_curves_per_kind() {
    let movement = item(UpgradeType::MovementSpeed);
    assert_eq!(movement.cost_for_level(0), 12);
    assert_eq!(movement.cost_for_level(1), 48);
    assert_eq!(movement.cost_for_level(2), 108);
    assert_eq!(movement.cost_for_level(3), 192);

    let max_health = item(UpgradeType::MaxHealth);
    assert_eq!(max_health.cost_for_level(0), 15);
    assert_eq!(max_health.cost_for_level(3), 240);

    let trail = item(UpgradeType::TrailDamage);
    assert_eq!(trail.cost_for_level(0), 18);
    assert_eq!(trail.cost_for_level(2), 54);

    let shield = item(UpgradeType::ShieldDuration);
    assert_eq!(shield.cost_for_level(0), 40);
    assert_eq!(shield.cost_for_level(2), 80);

    let knockback = item(UpgradeType::EnemyKnockback);
    assert_eq!(knockback.cost_for_level(0), 10);
    assert_eq!(knockback.cost_for_level(2), 30);
}

#[test]
fn multipliers_follow_levels() {
    let mut u = PurchasedUpgrades::new_zero();
    assert_eq!(u.movement_speed_multiplier(), 1000);
    assert_eq!(u.trail_damage_multiplier(), 1000);
    assert_eq!(u.max_health_bonus(), 0);
    assert_eq!(u.shield_duration_bonus(), 0);
    assert_eq!(u.enemy_knockback_multiplier(), 1000);

    u.movement_speed_level = 3;
    u.trail_damage_level = 2;
    u.max_health_level = 4;
    u.shield_level = 3;
    u.enemy_knockback_level = 1;
    assert_eq!(u.movement_speed_multiplier(), 1300);
    assert_eq!(u.trail_damage_multiplier(), 1400);
    assert_eq!(u.max_health_bonus(), 4);
    assert_eq!(u.shield_duration_bonus(), 2250);
    assert_eq!(u.enemy_knockback_multiplier(), 1500);
}

#[test]
fn is_maxed_tracks_levels() {
    let mut u = PurchasedUpgrades::new_zero();
    let trail = item(UpgradeType::TrailDamage);
    assert!(!trail.is_maxed(&u));
    u.trail_damage_level = 3;
    assert!(trail.is_maxed(&u));
}

#[test]
fn shop_table_lists_every_kind_once() {
    let items = threadweaver::economy::shop_items();
    assert_eq!(items.len(), 5);
    assert_eq!(items[0].upgrade, UpgradeType::MovementSpeed);
    assert_eq!(items[1].upgrade, UpgradeType::MaxHealth);
    assert_eq!(items[2].upgrade, UpgradeType::TrailDamage);
    assert_eq!(items[3].upgrade, UpgradeType::ShieldDuration);
    assert_eq!(items[4].upgrade, UpgradeType::EnemyKnockback);
    for it in &items {
        assert_eq!(it.base_cost, it.upgrade.base_cost());
        assert_eq!(it.max_level, it.upgrade.max_level());
    }
}

#[test]
fn categories_and_names() {
    assert_eq!(UpgradeType::MovementSpeed.category(), UpgradeCategory::Utility);
    assert_eq!(UpgradeType::MaxHealth.category(), UpgradeCategory::Survival);
    assert_eq!(UpgradeType::TrailDamage.category(), UpgradeCategory::Combat);
    assert_eq!(UpgradeType::ShieldDuration.category(), UpgradeCategory::Survival);
    assert_eq!(UpgradeType::EnemyKnockback.category(), UpgradeCategory::Combat);
    assert_eq!(UpgradeType::MovementSpeed.display_name(), "Movement Speed");
    assert_eq!(UpgradeType::MaxHealth.display_name(), "Maximum Health");
}
