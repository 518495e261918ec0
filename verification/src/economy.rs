//! Upgrade economy: currency balance, purchased upgrade levels, cost curves
//! and the derived simulation multipliers.
//!
//! Multipliers are fixed-point thousandths (1000 means x1.0); durations are
//! milliseconds. The cost curve per upgrade kind is fixed here once:
//! quadratic for movement speed and maximum health, linear for trail damage
//! and enemy knockback, offset-linear for shield duration.

use vstd::prelude::*;

verus! {

#[derive(Clone, Copy, PartialEq, Eq, Structural, Debug)]
pub enum UpgradeCategory {
    Combat,
    Survival,
    Utility,
}

/// Cosmetic player colors a player may unlock; they change no simulation
/// parameter.
#[derive(Clone, Copy, PartialEq, Eq, Structural, Debug)]
pub enum PlayerColor {
    Default,
    Red,
    Blue,
    Purple,
}

#[derive(Clone, Copy, PartialEq, Eq, Structural, Debug)]
pub enum UpgradeType {
    MovementSpeed,
    MaxHealth,
    TrailDamage,
    ShieldDuration,
    EnemyKnockback,
}

impl UpgradeType {
    pub fn display_name(&self) -> (r: &'static str)
    {
        match self {
            UpgradeType::MovementSpeed => "Movement Speed",
            UpgradeType::MaxHealth => "Maximum Health",
            UpgradeType::TrailDamage => "Trail Damage",
            UpgradeType::ShieldDuration => "Shield Duration",
            UpgradeType::EnemyKnockback => "Enemy Knockback",
        }
    }

    /// A short ASCII icon tag shown beside the name in text interfaces.
    pub fn emoji(&self) -> (r: &'static str)
    {
        match self {
            UpgradeType::MovementSpeed => "[S]",
            UpgradeType::MaxHealth => "[H]",
            UpgradeType::TrailDamage => "[D]",
            UpgradeType::ShieldDuration => "[G]",
            UpgradeType::EnemyKnockback => "[K]",
        }
    }

    pub open spec fn spec_category(self) -> UpgradeCategory {
        match self {
            UpgradeType::MovementSpeed => UpgradeCategory::Utility,
            UpgradeType::MaxHealth => UpgradeCategory::Survival,
            UpgradeType::TrailDamage => UpgradeCategory::Combat,
            UpgradeType::ShieldDuration => UpgradeCategory::Survival,
            UpgradeType::EnemyKnockback => UpgradeCategory::Combat,
        }
    }

    pub fn category(&self) -> (r: UpgradeCategory)
        ensures
            r == self.spec_category(),
    {
        match self {
            UpgradeType::MovementSpeed => UpgradeCategory::Utility,
            UpgradeType::MaxHealth => UpgradeCategory::Survival,
            UpgradeType::TrailDamage => UpgradeCategory::Combat,
            UpgradeType::ShieldDuration => UpgradeCategory::Survival,
            UpgradeType::EnemyKnockback => UpgradeCategory::Combat,
        }
    }

    /// Highest purchasable level of this upgrade kind.
    pub open spec fn spec_max_level(self) -> u32 {
        match self {
            UpgradeType::MovementSpeed => 4,
            UpgradeType::MaxHealth => 4,
            UpgradeType::TrailDamage => 3,
            UpgradeType::ShieldDuration => 3,
            UpgradeType::EnemyKnockback => 3,
        }
    }

    pub fn max_level(&self) -> (r: u32)
        ensures
            r == self.spec_max_level(),
    {
        match self {
            UpgradeType::MovementSpeed => 4,
            UpgradeType::MaxHealth => 4,
            UpgradeType::TrailDamage => 3,
            UpgradeType::ShieldDuration => 3,
            UpgradeType::EnemyKnockback => 3,
        }
    }

    /// Price of the very first level of this upgrade kind.
    pub open spec fn spec_base_cost(self) -> u32 {
        match self {
            UpgradeType::MovementSpeed => 12,
            UpgradeType::MaxHealth => 15,
            UpgradeType::TrailDamage => 18,
            UpgradeType::ShieldDuration => 20,
            UpgradeType::EnemyKnockback => 10,
        }
    }

    pub fn base_cost(&self) -> (r: u32)
        ensures
            r == self.spec_base_cost(),
    {
        match self {
            UpgradeType::MovementSpeed => 12,
            UpgradeType::MaxHealth => 15,
            UpgradeType::TrailDamage => 18,
            UpgradeType::ShieldDuration => 20,
            UpgradeType::EnemyKnockback => 10,
        }
    }
}

/// Price of buying the next level when `level` levels are already owned.
pub open spec fn spec_cost_for_level(kind: UpgradeType, level: u32) -> int {
    let base = kind.spec_base_cost() as int;
    let next = level + 1;
    match kind {
        UpgradeType::MovementSpeed => base * next * next,
        UpgradeType::MaxHealth => base * next * next,
        UpgradeType::TrailDamage => base * next,
        UpgradeType::ShieldDuration => base * (next + 1),
        UpgradeType::EnemyKnockback => base * next,
    }
}

/// Below the per-kind level cap, every cost on the fixed curve is small.
pub proof fn lemma_cost_bounded(kind: UpgradeType, level: u32)
    requires
        level < kind.spec_max_level(),
    ensures
        0 <= spec_cost_for_level(kind, level) <= 500,
{
    let base = kind.spec_base_cost() as int;
    let next = level + 1;
    assert(1 <= next <= 5);
    assert(1 <= base <= 20);
    assert(base * next * next <= 500) by (nonlinear_arith)
        requires
            1 <= next <= 5,
            1 <= base <= 20,
    ;
    assert(base * next <= 500) by (nonlinear_arith)
        requires
            1 <= next <= 5,
            1 <= base <= 20,
    ;
    assert(base * (next + 1) <= 500) by (nonlinear_arith)
        requires
            1 <= next <= 5,
            1 <= base <= 20,
    ;
    assert(base * next * next >= 0) by (nonlinear_arith)
        requires
            1 <= next,
            1 <= base,
    ;
}

/// One purchasable entry of the shop, as shown to a user interface.
#[derive(Clone, Copy, Debug)]
pub struct ShopItem {
    pub upgrade: UpgradeType,
    pub description: &'static str,
    pub base_cost: u32,
    pub max_level: u32,
}

impl ShopItem {
    pub fn new(
        upgrade: UpgradeType,
        description: &'static str,
        base_cost: u32,
        max_level: u32,
    ) -> (r: ShopItem)
        ensures
            r.upgrade == upgrade,
            r.description == description,
            r.base_cost == base_cost,
            r.max_level == max_level,
    {
        ShopItem { upgrade, description, base_cost, max_level }
    }

    pub fn cost_for_level(&self, level: u32) -> (r: u32)
        requires
            self.base_cost == self.upgrade.spec_base_cost(),
            level < 10_000,
            spec_cost_for_level(self.upgrade, level) <= u32::MAX,
        ensures
            r == spec_cost_for_level(self.upgrade, level),
    {
        let next = level + 1;
        match self.upgrade {
            UpgradeType::MovementSpeed => self.base_cost * next * next,
            UpgradeType::MaxHealth => self.base_cost * next * next,
            UpgradeType::TrailDamage => self.base_cost * next,
            UpgradeType::ShieldDuration => self.base_cost * (next + 1),
            UpgradeType::EnemyKnockback => self.base_cost * next,
        }
    }

    pub fn is_maxed(&self, upgrades: &PurchasedUpgrades) -> (r: bool)
        ensures
            r == (upgrades.spec_level_of(self.upgrade) >= self.max_level),
    {
        upgrades.get_current_level(self.upgrade) >= self.max_level
    }
}

/// The fixed shop table: one entry per upgrade kind, in display order.
pub fn shop_items() -> (r: Vec<ShopItem>)
    ensures
        r@.len() == 5,
        forall|i: int| 0 <= i < 5 ==> (#[trigger] r@[i]).base_cost
            == r@[i].upgrade.spec_base_cost(),
        forall|i: int| 0 <= i < 5 ==> (#[trigger] r@[i]).max_level
            == r@[i].upgrade.spec_max_level(),
        r@[0].upgrade == UpgradeType::MovementSpeed,
        r@[1].upgrade == UpgradeType::MaxHealth,
        r@[2].upgrade == UpgradeType::TrailDamage,
        r@[3].upgrade == UpgradeType::ShieldDuration,
        r@[4].upgrade == UpgradeType::EnemyKnockback,
{
    let mut items: Vec<ShopItem> = Vec::new();
    items.push(ShopItem::new(
        UpgradeType::MovementSpeed,
        "Move quicker across the weave.",
        12,
        4,
    ));
    items.push(ShopItem::new(
        UpgradeType::MaxHealth,
        "Increase maximum resolve by one.",
        15,
        4,
    ));
    items.push(ShopItem::new(
        UpgradeType::TrailDamage,
        "Empower the light trail for more damage.",
        18,
        3,
    ));
    items.push(ShopItem::new(
        UpgradeType::ShieldDuration,
        "Extend the protective weave shield.",
        20,
        3,
    ));
    items.push(ShopItem::new(
        UpgradeType::EnemyKnockback,
        "Strike hostiles further away on hit.",
        10,
        3,
    ));
    items
}

/// Persistent currency balance. The balance is unsigned and every debit is
/// atomic, so it can never go negative; credits saturate instead of wrapping.
#[derive(Clone, Copy, PartialEq, Eq, Structural, Debug)]
pub struct Currency {
    pub balance: u32,
}

impl Currency {
    pub fn new(balance: u32) -> (r: Currency)
        ensures
            r.balance == balance,
    {
        Currency { balance }
    }

    pub fn credit(&mut self, amount: u32)
        ensures
            final(self).balance == (
                if old(self).balance + amount <= u32::MAX
                    { (old(self).balance + amount) as u32 }
                else
                    { u32::MAX }
            ),
    {
        self.balance = if self.balance <= u32::MAX - amount {
            self.balance + amount
        } else {
            u32::MAX
        };
    }

    /// Removes `amount` from the balance if and only if it is covered;
    /// an uncovered debit leaves the balance untouched and reports failure.
    pub fn debit(&mut self, amount: u32) -> (ok: bool)
        ensures
            ok == (old(self).balance >= amount),
            ok ==> final(self).balance == old(self).balance - amount,
            !ok ==> *final(self) == *old(self),
    {
        if self.balance >= amount {
            self.balance = self.balance - amount;
            true
        } else {
            false
        }
    }
}

/// Permanently purchased upgrade levels, one counter per upgrade kind.
#[derive(Clone, Copy, PartialEq, Eq, Structural, Debug)]
pub struct PurchasedUpgrades {
    pub movement_speed_level: u32,
    pub max_health_level: u32,
    pub trail_damage_level: u32,
    pub shield_level: u32,
    pub enemy_knockback_level: u32,
}

impl PurchasedUpgrades {
    /// Every level is within its kind's purchasable range.
    pub open spec fn wf(self) -> bool {
        &&& self.movement_speed_level <= UpgradeType::MovementSpeed.spec_max_level()
        &&& self.max_health_level <= UpgradeType::MaxHealth.spec_max_level()
        &&& self.trail_damage_level <= UpgradeType::TrailDamage.spec_max_level()
        &&& self.shield_level <= UpgradeType::ShieldDuration.spec_max_level()
        &&& self.enemy_knockback_level <= UpgradeType::EnemyKnockback.spec_max_level()
    }

    pub open spec fn spec_level_of(self, kind: UpgradeType) -> u32 {
        match kind {
            UpgradeType::MovementSpeed => self.movement_speed_level,
            UpgradeType::MaxHealth => self.max_health_level,
            UpgradeType::TrailDamage => self.trail_damage_level,
            UpgradeType::ShieldDuration => self.shield_level,
            UpgradeType::EnemyKnockback => self.enemy_knockback_level,
        }
    }

    /// The same upgrades with one kind's level replaced.
    pub open spec fn spec_with_level(self, kind: UpgradeType, level: u32) -> PurchasedUpgrades {
        match kind {
            UpgradeType::MovementSpeed => PurchasedUpgrades {
                movement_speed_level: level,
                ..self
            },
            UpgradeType::MaxHealth => PurchasedUpgrades { max_health_level: level, ..self },
            UpgradeType::TrailDamage => PurchasedUpgrades { trail_damage_level: level, ..self },
            UpgradeType::ShieldDuration => PurchasedUpgrades { shield_level: level, ..self },
            UpgradeType::EnemyKnockback => PurchasedUpgrades {
                enemy_knockback_level: level,
                ..self
            },
        }
    }

    pub fn new_zero() -> (r: PurchasedUpgrades)
        ensures
            r.wf(),
            r.movement_speed_level == 0,
            r.max_health_level == 0,
            r.trail_damage_level == 0,
            r.shield_level == 0,
            r.enemy_knockback_level == 0,
    {
        PurchasedUpgrades {
            movement_speed_level: 0,
            max_health_level: 0,
            trail_damage_level: 0,
            shield_level: 0,
            enemy_knockback_level: 0,
        }
    }

    pub fn get_current_level(&self, kind: UpgradeType) -> (r: u32)
        ensures
            r == self.spec_level_of(kind),
    {
        match kind {
            UpgradeType::MovementSpeed => self.movement_speed_level,
            UpgradeType::MaxHealth => self.max_health_level,
            UpgradeType::TrailDamage => self.trail_damage_level,
            UpgradeType::ShieldDuration => self.shield_level,
            UpgradeType::EnemyKnockback => self.enemy_knockback_level,
        }
    }

    pub fn can_purchase(&self, kind: UpgradeType) -> (r: bool)
        ensures
            r == (self.spec_level_of(kind) < kind.spec_max_level()),
    {
        self.get_current_level(kind) < kind.max_level()
    }

    /// Raises the level of `kind` by one if it is not maxed out yet.
    pub fn purchase(&mut self, kind: UpgradeType) -> (ok: bool)
        requires
            old(self).wf(),
        ensures
            final(self).wf(),
            ok == (old(self).spec_level_of(kind) < kind.spec_max_level()),
            ok ==> *final(self) == old(self).spec_with_level(
                kind,
                (old(self).spec_level_of(kind) + 1) as u32,
            ),
            !ok ==> *final(self) == *old(self),
    {
        if !self.can_purchase(kind) {
            return false;
        }
        match kind {
            UpgradeType::MovementSpeed => {
                self.movement_speed_level = self.movement_speed_level + 1;
            },
            UpgradeType::MaxHealth => {
                self.max_health_level = self.max_health_level + 1;
            },
            UpgradeType::TrailDamage => {
                self.trail_damage_level = self.trail_damage_level + 1;
            },
            UpgradeType::ShieldDuration => {
                self.shield_level = self.shield_level + 1;
            },
            UpgradeType::EnemyKnockback => {
                self.enemy_knockback_level = self.enemy_knockback_level + 1;
            },
        }
        true
    }

    /// Movement speed factor in thousandths: +10% per level.
    pub fn movement_speed_multiplier(&self) -> (r: u32)
        requires
            self.wf(),
        ensures
            r == 1000 + 100 * self.movement_speed_level,
    {
        1000 + 100 * self.movement_speed_level
    }

    /// Extra maximum hit points: +1 per level.
    pub fn max_health_bonus(&self) -> (r: u32)
        requires
            self.wf(),
        ensures
            r == self.max_health_level,
    {
        self.max_health_level
    }

    /// Trail damage factor in thousandths: +20% per level.
    pub fn trail_damage_multiplier(&self) -> (r: u32)
        requires
            self.wf(),
        ensures
            r == 1000 + 200 * self.trail_damage_level,
    {
        1000 + 200 * self.trail_damage_level
    }

    /// Extra shield time in milliseconds: +750 ms per level.
    pub fn shield_duration_bonus(&self) -> (r: u64)
        requires
            self.wf(),
        ensures
            r == 750 * self.shield_level,
    {
        750u64 * (self.shield_level as u64)
    }

    /// Knockback strength factor in thousandths: +50% per level.
    pub fn enemy_knockback_multiplier(&self) -> (r: u32)
        requires
            self.wf(),
        ensures
            r == 1000 + 500 * self.enemy_knockback_level,
    {
        1000 + 500 * self.enemy_knockback_level
    }
}

/// Outcome of a purchase attempt, reported to the caller as a normal value.
#[derive(Clone, Copy, PartialEq, Eq, Structural, Debug)]
pub enum PurchaseOutcome {
    /// The level was raised and the cost was debited.
    Purchased,
    /// The upgrade kind is already at its highest level.
    AlreadyMaxed,
    /// The balance did not cover the cost; nothing was changed.
    InsufficientFunds,
}

/// The cosmetic player colors unlocked so far. The default color is
/// always available; the others are one-time unlocks. Colors change no
/// simulation parameter.
#[derive(Clone, Copy, PartialEq, Eq, Structural, Debug)]
pub struct UnlockedColors {
    pub red: bool,
    pub blue: bool,
    pub purple: bool,
}

impl UnlockedColors {
    /// Whether `color` is unlocked.
    pub open spec fn spec_is_unlocked(self, color: PlayerColor) -> bool {
        match color {
            PlayerColor::Default => true,
            PlayerColor::Red => self.red,
            PlayerColor::Blue => self.blue,
            PlayerColor::Purple => self.purple,
        }
    }

    /// Only the default color to begin with.
    pub fn new() -> (r: UnlockedColors)
        ensures
            r == (UnlockedColors { red: false, blue: false, purple: false }),
    {
        UnlockedColors { red: false, blue: false, purple: false }
    }

    pub fn is_unlocked(&self, color: PlayerColor) -> (r: bool)
        ensures
            r == self.spec_is_unlocked(color),
    {
        match color {
            PlayerColor::Default => true,
            PlayerColor::Red => self.red,
            PlayerColor::Blue => self.blue,
            PlayerColor::Purple => self.purple,
        }
    }

    /// Unlocks `color`; unlocking the default or an already unlocked
    /// color changes nothing.
    pub fn unlock(&mut self, color: PlayerColor)
        ensures
            final(self).spec_is_unlocked(color),
            forall|c: PlayerColor| old(self).spec_is_unlocked(c)
                ==> final(self).spec_is_unlocked(c),
            forall|c: PlayerColor| c != color ==> final(self).spec_is_unlocked(c) == old(
                self,
            ).spec_is_unlocked(c),
    {
        match color {
            PlayerColor::Default => {},
            PlayerColor::Red => {
                self.red = true;
            },
            PlayerColor::Blue => {
                self.blue = true;
            },
            PlayerColor::Purple => {
                self.purple = true;
            },
        }
    }
}

/// Currency, upgrade levels and the unlocked cosmetic set together: the
/// part of the game that outlives a run.
#[derive(Clone, Copy, PartialEq, Eq, Structural, Debug)]
pub struct Ledger {
    pub currency: Currency,
    pub upgrades: PurchasedUpgrades,
    pub colors: UnlockedColors,
}

impl Ledger {
    pub open spec fn wf(self) -> bool {
        self.upgrades.wf()
    }

    pub fn new(currency: Currency, upgrades: PurchasedUpgrades) -> (r: Ledger)
        ensures
            r.currency == currency,
            r.upgrades == upgrades,
            r.colors == (UnlockedColors { red: false, blue: false, purple: false }),
    {
        Ledger { currency, upgrades, colors: UnlockedColors::new() }
    }

    /// Attempts to buy the next level of `kind`. Rejects an already maxed
    /// kind first, then an uncovered cost; only a successful purchase
    /// changes anything, and then it debits exactly the level's cost and
    /// raises exactly that kind's level by one.
    pub fn try_purchase(&mut self, kind: UpgradeType) -> (r: PurchaseOutcome)
        requires
            old(self).wf(),
        ensures
            final(self).wf(),
            r == PurchaseOutcome::AlreadyMaxed <==> old(self).upgrades.spec_level_of(kind)
                >= kind.spec_max_level(),
            r == PurchaseOutcome::InsufficientFunds <==> (
                old(self).upgrades.spec_level_of(kind) < kind.spec_max_level()
                && old(self).currency.balance < spec_cost_for_level(
                    kind,
                    old(self).upgrades.spec_level_of(kind),
                )
            ),
            r == PurchaseOutcome::Purchased <==> (
                old(self).upgrades.spec_level_of(kind) < kind.spec_max_level()
                && old(self).currency.balance >= spec_cost_for_level(
                    kind,
                    old(self).upgrades.spec_level_of(kind),
                )
            ),
            r == PurchaseOutcome::Purchased ==> (
                final(self).currency.balance == old(self).currency.balance
                    - spec_cost_for_level(kind, old(self).upgrades.spec_level_of(kind))
                && final(self).upgrades == old(self).upgrades.spec_with_level(
                    kind,
                    (old(self).upgrades.spec_level_of(kind) + 1) as u32,
                )
            ),
            r != PurchaseOutcome::Purchased ==> *final(self) == *old(self),
    {
        let level = self.upgrades.get_current_level(kind);
        if level >= kind.max_level() {
            return PurchaseOutcome::AlreadyMaxed;
        }
        let item = ShopItem::new(
            kind,
            "",
            kind.base_cost(),
            kind.max_level(),
        );
        proof {
            lemma_cost_bounded(kind, level);
        }
        let cost = item.cost_for_level(level);
        if !self.currency.debit(cost) {
            return PurchaseOutcome::InsufficientFunds;
        }
        let bought = self.upgrades.purchase(kind);
        proof {
            assert(bought);
        }
        PurchaseOutcome::Purchased
    }
}

} // verus!
