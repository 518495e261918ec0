//! Collision detection and damage resolution.
//!
//! All collision tests are radius overlaps on squared distances. Hostiles
//! are processed in storage order, so a kill earlier in a pass raises the
//! combo before the next kill of the same pass is scored; the contracts
//! state the outcome of a whole pass as a fold over the hostile sequence.

use vstd::prelude::*;

use crate::combo::{spec_award, spec_combo_after_kill, spec_combo_idle, Combo};
use crate::economy::Currency;
use crate::entities::{
    Hostile, PlayerBody, PowerUpEntity, PowerUpKind, TrailSegment, WaveProjectile,
    ENTITY_BOUND, KNOCKBACK_BOUND, PLAYER_KNOCKBACK_STRENGTH, PLAYER_RADIUS,
    POWER_UP_LIFETIME_MS, WAVE_DAMAGE_MILLI,
};
use crate::geom::{spec_dist_sq, spec_normalize_to, spec_sub_vec, Vec2};
use crate::rng::rand_below;
use crate::state::{PlayerHealth, RunState, ScreenShake, Score};

verus! {

/// Chance that a kill drops a power-up, in thousandths.
pub const POWER_UP_DROP_CHANCE_MILLI: u32 = 150;

/// Score taken from the player on a hit, half the base kill score.
pub const HIT_SCORE_PENALTY: u32 = 5;

/// Hit points one hostile contact costs the player.
pub const PLAYER_COLLISION_DAMAGE: u32 = 1;

/// One point of damage dealt by an area weapon this pass: where it sits
/// and how hard it hits.
#[derive(Clone, Copy, PartialEq, Eq, Structural, Debug)]
pub struct HitSource {
    pub pos: Vec2,
    pub damage_milli: u64,
}

impl HitSource {
    pub open spec fn wf(self) -> bool {
        &&& self.pos.bounded(ENTITY_BOUND as int)
        &&& self.damage_milli <= 200_000_000
    }
}

/// The first source at index `j` or later within `radius` of `pos`.
pub open spec fn spec_first_hit(
    sources: Seq<HitSource>,
    pos: Vec2,
    radius: i64,
    j: int,
) -> Option<int>
    decreases sources.len() - j,
{
    if j < 0 || j >= sources.len() {
        None
    } else if spec_dist_sq(pos, sources[j].pos) <= radius * radius {
        Some(j)
    } else {
        spec_first_hit(sources, pos, radius, j + 1)
    }
}

/// A hostile after one damage application: health down by the source's
/// damage (saturating at zero) and knockback pointing away from the
/// source at strength `kb`.
pub open spec fn spec_hit_hostile(h: Hostile, src: HitSource, kb: i64) -> Hostile {
    Hostile {
        health_milli: if src.damage_milli <= h.health_milli {
            (h.health_milli - src.damage_milli) as u64
        } else {
            0u64
        },
        knockback: spec_normalize_to(spec_sub_vec(h.pos, src.pos), kb),
        ..h
    }
}

/// State a damage pass threads through the hostile sequence: the
/// survivors kept so far, the combo, the score, the currency balance and
/// the positions where kills happened, in order.
pub struct HitPassState {
    pub hostiles: Seq<Hostile>,
    pub combo: Combo,
    pub score: Score,
    pub balance: u32,
    pub kill_positions: Seq<Vec2>,
}

/// The score resource after awarding `amount` points: saturating add,
/// with the best score kept in step.
pub open spec fn spec_score_award(s: Score, amount: int) -> Score {
    let cur = if s.current + amount <= u32::MAX {
        (s.current + amount) as u32
    } else {
        u32::MAX
    };
    Score { current: cur, best: if cur >= s.best { cur } else { s.best } }
}

/// One step of a damage pass: the hostile takes damage from the first
/// source within `radius`, or passes through untouched. A kill is dropped
/// from the sequence and scores through the combo; a survivor is kept.
pub open spec fn spec_hit_step(
    st: HitPassState,
    h: Hostile,
    sources: Seq<HitSource>,
    radius: i64,
    kb: i64,
) -> HitPassState {
    match spec_first_hit(sources, h.pos, radius, 0) {
        None => HitPassState { hostiles: st.hostiles.push(h), ..st },
        Some(j) => {
            let h2 = spec_hit_hostile(h, sources[j], kb);
            if h2.health_milli == 0 {
                let combo2 = spec_combo_after_kill(st.combo);
                HitPassState {
                    hostiles: st.hostiles,
                    combo: combo2,
                    score: spec_score_award(st.score, spec_award(combo2.streak)),
                    balance: if st.balance < u32::MAX {
                        (st.balance + 1) as u32
                    } else {
                        u32::MAX
                    },
                    kill_positions: st.kill_positions.push(h.pos),
                }
            } else {
                HitPassState { hostiles: st.hostiles.push(h2), ..st }
            }
        },
    }
}

/// The damage pass folded over the first `i` hostiles, in storage order.
pub open spec fn spec_hit_pass(
    hs: Seq<Hostile>,
    sources: Seq<HitSource>,
    radius: i64,
    kb: i64,
    init: HitPassState,
    i: int,
) -> HitPassState
    decreases i,
{
    if i <= 0 {
        init
    } else {
        spec_hit_step(
            spec_hit_pass(hs, sources, radius, kb, init, i - 1),
            hs[i - 1],
            sources,
            radius,
            kb,
        )
    }
}

/// The dropped power-ups of one pass match its kills: each drop sits at
/// the position of its own kill with the full power-up lifetime, kills
/// and drops come in the same order, and no kill drops more than once.
pub open spec fn spec_drops_match(drops: Seq<PowerUpEntity>, kills: Seq<Vec2>) -> bool
    decreases kills.len(),
{
    if kills.len() == 0 {
        drops.len() == 0
    } else {
        ||| spec_drops_match(drops, kills.drop_last())
        ||| (drops.len() > 0 && drops.last().pos == kills.last()
            && drops.last().remaining_ms == POWER_UP_LIFETIME_MS && spec_drops_match(
            drops.drop_last(),
            kills.drop_last(),
        ))
    }
}

/// Whether a uniform roll below one thousand wins the drop chance.
pub fn drop_roll_hits(roll: u32) -> (r: bool)
    ensures
        r == (roll < POWER_UP_DROP_CHANCE_MILLI),
{
    roll < POWER_UP_DROP_CHANCE_MILLI
}

/// What a first-hit answer means: the index is in range and overlapping,
/// and nothing before it overlaps.
pub proof fn lemma_first_hit_props(sources: Seq<HitSource>, pos: Vec2, radius: i64, j0: int)
    requires
        0 <= j0,
        spec_first_hit(sources, pos, radius, j0) is Some,
    ensures
        ({
            let j = spec_first_hit(sources, pos, radius, j0)->Some_0;
            &&& j0 <= j < sources.len()
            &&& spec_dist_sq(pos, sources[j].pos) <= radius * radius
        }),
    decreases sources.len() - j0,
{
    if j0 < sources.len() && !(spec_dist_sq(pos, sources[j0].pos) <= radius * radius) {
        lemma_first_hit_props(sources, pos, radius, j0 + 1);
    }
}

/// The first source within `radius` of `pos`, scanning in storage order.
fn first_hit_index(sources: &Vec<HitSource>, pos: Vec2, radius: i64) -> (r: Option<usize>)
    requires
        pos.bounded(ENTITY_BOUND as int),
        forall|i: int| 0 <= i < sources@.len() ==> (#[trigger] sources@[i]).wf(),
        0 < radius <= 1_000_000,
    ensures
        r is Some ==> Some(r->Some_0 as int) == spec_first_hit(sources@, pos, radius, 0),
        r is None ==> spec_first_hit(sources@, pos, radius, 0) is None,
{
    let n = sources.len();
    let mut j: usize = 0;
    while j < n
        invariant
            0 <= j <= n,
            n == sources@.len(),
            pos.bounded(ENTITY_BOUND as int),
            forall|i: int| 0 <= i < sources@.len() ==> (#[trigger] sources@[i]).wf(),
            0 < radius <= 1_000_000,
            spec_first_hit(sources@, pos, radius, 0) == spec_first_hit(
                sources@,
                pos,
                radius,
                j as int,
            ),
        decreases n - j,
    {
        proof {
            assert(0 <= radius * radius <= 1_000_000 * 1_000_000int) by (nonlinear_arith)
                requires
                    0 < radius <= 1_000_000,
            ;
        }
        let src = sources[j];
        let d2 = pos.distance_squared(&src.pos);
        if d2 <= (radius * radius) as u64 {
            return Some(j);
        }
        j = j + 1;
    }
    None
}

/// Runs one damage pass of an area weapon over all hostiles: each hostile
/// takes damage from at most its first overlapping source; kills are
/// removed, scored through the combo, and credited one currency point,
/// and each kill may drop one power-up at the death position. Survivor
/// order is kept. Feedback trauma only grows in a pass.
#[verifier::rlimit(60)]
pub fn resolve_hits(
    hostiles: &mut Vec<Hostile>,
    sources: &Vec<HitSource>,
    radius: i64,
    kb: i64,
    combo: &mut Combo,
    score: &mut Score,
    currency: &mut Currency,
    powerups: &mut Vec<PowerUpEntity>,
    shake: &mut ScreenShake,
) -> (kills: usize)
    requires
        forall|i: int| 0 <= i < old(hostiles)@.len()
            ==> (#[trigger] old(hostiles)@[i]).wf(),
        forall|i: int| 0 <= i < old(hostiles)@.len()
            ==> (#[trigger] old(hostiles)@[i]).health_milli > 0,
        forall|i: int| 0 <= i < sources@.len() ==> (#[trigger] sources@[i]).wf(),
        0 < radius <= 1_000_000,
        0 <= kb <= KNOCKBACK_BOUND,
        old(combo).wf(),
        old(score).wf(),
        old(shake).wf(),
        forall|i: int| 0 <= i < old(powerups)@.len()
            ==> (#[trigger] old(powerups)@[i]).wf(),
    ensures
        ({
            let end = spec_hit_pass(
                old(hostiles)@,
                sources@,
                radius,
                kb,
                HitPassState {
                    hostiles: Seq::empty(),
                    combo: *old(combo),
                    score: *old(score),
                    balance: old(currency).balance,
                    kill_positions: Seq::empty(),
                },
                old(hostiles)@.len() as int,
            );
            &&& final(hostiles)@ == end.hostiles
            &&& *final(combo) == end.combo
            &&& *final(score) == end.score
            &&& final(currency).balance == end.balance
        }),
        forall|i: int| 0 <= i < final(hostiles)@.len()
            ==> (#[trigger] final(hostiles)@[i]).wf(),
        forall|i: int| 0 <= i < final(hostiles)@.len()
            ==> (#[trigger] final(hostiles)@[i]).health_milli > 0,
        final(combo).wf(),
        final(score).wf(),
        final(shake).wf(),
        old(powerups)@.is_prefix_of(final(powerups)@),
        forall|i: int| old(powerups)@.len() <= i < final(powerups)@.len()
            ==> (#[trigger] final(powerups)@[i]).wf(),
        kills == old(hostiles)@.len() - final(hostiles)@.len(),
        ({
            let end = spec_hit_pass(
                old(hostiles)@,
                sources@,
                radius,
                kb,
                HitPassState {
                    hostiles: Seq::empty(),
                    combo: *old(combo),
                    score: *old(score),
                    balance: old(currency).balance,
                    kill_positions: Seq::empty(),
                },
                old(hostiles)@.len() as int,
            );
            &&& kills == end.kill_positions.len()
            &&& spec_drops_match(
                final(powerups)@.subrange(
                    old(powerups)@.len() as int,
                    final(powerups)@.len() as int,
                ),
                end.kill_positions,
            )
        }),
{
    let ghost init = HitPassState {
        hostiles: Seq::empty(),
        combo: *combo,
        score: *score,
        balance: currency.balance,
        kill_positions: Seq::empty(),
    };
    let ghost hs0 = hostiles@;
    let ghost pu0 = powerups@;
    let n = hostiles.len();
    let mut out: Vec<Hostile> = Vec::new();
    let mut kills: usize = 0;
    let mut i: usize = 0;
    while i < n
        invariant
            0 <= i <= n,
            n == hs0.len(),
            hostiles@ == hs0,
            forall|t: int| 0 <= t < hs0.len() ==> (#[trigger] hs0[t]).wf(),
            forall|t: int| 0 <= t < hs0.len() ==> (#[trigger] hs0[t]).health_milli > 0,
            forall|t: int| 0 <= t < sources@.len() ==> (#[trigger] sources@[t]).wf(),
            0 < radius <= 1_000_000,
            0 <= kb <= KNOCKBACK_BOUND,
            ({
                let st = spec_hit_pass(hs0, sources@, radius, kb, init, i as int);
                &&& out@ == st.hostiles
                &&& *combo == st.combo
                &&& *score == st.score
                &&& currency.balance == st.balance
            }),
            forall|t: int| 0 <= t < out@.len() ==> (#[trigger] out@[t]).wf(),
            forall|t: int| 0 <= t < out@.len() ==> (#[trigger] out@[t]).health_milli > 0,
            combo.wf(),
            score.wf(),
            shake.wf(),
            pu0.is_prefix_of(powerups@),
            forall|t: int| pu0.len() <= t < powerups@.len()
                ==> (#[trigger] powerups@[t]).wf(),
            kills == i - out@.len(),
            out@.len() <= i,
            kills == spec_hit_pass(
                hs0,
                sources@,
                radius,
                kb,
                init,
                i as int,
            ).kill_positions.len(),
            spec_drops_match(
                powerups@.subrange(pu0.len() as int, powerups@.len() as int),
                spec_hit_pass(hs0, sources@, radius, kb, init, i as int).kill_positions,
            ),
        decreases n - i,
    {
        let h = hostiles[i];
        match first_hit_index(sources, h.pos, radius) {
            None => {
                out.push(h);
            },
            Some(j) => {
                proof {
                    lemma_first_hit_props(sources@, h.pos, radius, 0);
                }
                let src = sources[j];
                let mut h2 = h;
                h2.damage(src.damage_milli);
                let away = h.pos.sub(src.pos);
                h2.knockback = away.normalize_to(kb);
                proof {
                    assert(h2 == spec_hit_hostile(h, src, kb));
                }
                if h2.health_milli == 0 {
                    let award = combo.register_kill();
                    score.add(award);
                    currency.credit(1);
                    shake.add_trauma(200);
                    kills = kills + 1;
                    let ghost old_drops = powerups@.subrange(
                        pu0.len() as int,
                        powerups@.len() as int,
                    );
                    let ghost old_kills = spec_hit_pass(
                        hs0,
                        sources@,
                        radius,
                        kb,
                        init,
                        i as int,
                    ).kill_positions;
                    let roll = rand_below(1000);
                    if drop_roll_hits(roll) {
                        let kind_roll = rand_below(1000);
                        let drop = PowerUpEntity {
                            kind: power_up_from_roll(kind_roll),
                            pos: h.pos,
                            remaining_ms: POWER_UP_LIFETIME_MS,
                        };
                        powerups.push(drop);
                        proof {
                            assert(pu0.is_prefix_of(powerups@));
                            let new_drops = powerups@.subrange(
                                pu0.len() as int,
                                powerups@.len() as int,
                            );
                            assert(new_drops =~= old_drops.push(drop));
                            assert(new_drops.drop_last() =~= old_drops);
                            assert(new_drops.last() == drop);
                            assert(old_kills.push(h.pos).drop_last() =~= old_kills);
                            assert(old_kills.push(h.pos).last() == h.pos);
                            assert(spec_drops_match(new_drops, old_kills.push(h.pos)));
                        }
                    } else {
                        proof {
                            assert(old_kills.push(h.pos).drop_last() =~= old_kills);
                            assert(spec_drops_match(old_drops, old_kills.push(h.pos)));
                        }
                    }
                } else {
                    out.push(h2);
                    shake.add_trauma(100);
                }
            },
        }
        i = i + 1;
    }
    proof {
        assert(hostiles@ == hs0);
    }
    let ghost endst = spec_hit_pass(hs0, sources@, radius, kb, init, n as int);
    hostiles.clear();
    hostiles.append(&mut out);
    proof {
        assert(hostiles@ =~= endst.hostiles);
    }
    kills
}

/// The weighted power-up choice for one uniform roll in thousandths. The
/// weights, in listed order: health 350, shield 250, currency 150,
/// accuracy 150, wave-blast 100. A roll on a boundary falls to the next
/// listed kind.
pub open spec fn spec_power_up_from_roll(roll: u32) -> PowerUpKind {
    if roll < 350 {
        PowerUpKind::Health
    } else if roll < 600 {
        PowerUpKind::Shield
    } else if roll < 750 {
        PowerUpKind::Currency
    } else if roll < 900 {
        PowerUpKind::Accuracy
    } else {
        PowerUpKind::WaveBlast
    }
}

/// Walks the cumulative weight table for one roll below one thousand.
pub fn power_up_from_roll(roll: u32) -> (r: PowerUpKind)
    ensures
        r == spec_power_up_from_roll(roll),
{
    if roll < 350 {
        PowerUpKind::Health
    } else if roll < 600 {
        PowerUpKind::Shield
    } else if roll < 750 {
        PowerUpKind::Currency
    } else if roll < 900 {
        PowerUpKind::Accuracy
    } else {
        PowerUpKind::WaveBlast
    }
}

/// The hit sources of the trail weapon: one per segment, each with the
/// damage that segment captured at spawn time.
pub fn trail_sources(trail: &Vec<TrailSegment>) -> (r: Vec<HitSource>)
    requires
        forall|i: int| 0 <= i < trail@.len() ==> (#[trigger] trail@[i]).wf(),
    ensures
        r@.len() == trail@.len(),
        forall|i: int| 0 <= i < r@.len() ==> (#[trigger] r@[i]) == (HitSource {
            pos: trail@[i].pos,
            damage_milli: trail@[i].damage_milli,
        }),
        forall|i: int| 0 <= i < r@.len() ==> (#[trigger] r@[i]).wf(),
{
    let mut out: Vec<HitSource> = Vec::new();
    let n = trail.len();
    let mut i: usize = 0;
    while i < n
        invariant
            0 <= i <= n,
            n == trail@.len(),
            forall|t: int| 0 <= t < trail@.len() ==> (#[trigger] trail@[t]).wf(),
            out@.len() == i,
            forall|t: int| 0 <= t < i ==> (#[trigger] out@[t]) == (HitSource {
                pos: trail@[t].pos,
                damage_milli: trail@[t].damage_milli,
            }),
            forall|t: int| 0 <= t < i ==> (#[trigger] out@[t]).wf(),
        decreases n - i,
    {
        let seg = trail[i];
        out.push(HitSource { pos: seg.pos, damage_milli: seg.damage_milli });
        i = i + 1;
    }
    out
}

/// The hit sources of the wave weapon: one per projectile, each with the
/// fixed wave damage.
pub fn wave_sources(waves: &Vec<WaveProjectile>) -> (r: Vec<HitSource>)
    requires
        forall|i: int| 0 <= i < waves@.len() ==> (#[trigger] waves@[i]).wf(),
    ensures
        r@.len() == waves@.len(),
        forall|i: int| 0 <= i < r@.len() ==> (#[trigger] r@[i]) == (HitSource {
            pos: waves@[i].pos,
            damage_milli: WAVE_DAMAGE_MILLI,
        }),
        forall|i: int| 0 <= i < r@.len() ==> (#[trigger] r@[i]).wf(),
{
    let mut out: Vec<HitSource> = Vec::new();
    let n = waves.len();
    let mut i: usize = 0;
    while i < n
        invariant
            0 <= i <= n,
            n == waves@.len(),
            forall|t: int| 0 <= t < waves@.len() ==> (#[trigger] waves@[t]).wf(),
            out@.len() == i,
            forall|t: int| 0 <= t < i ==> (#[trigger] out@[t]) == (HitSource {
                pos: waves@[t].pos,
                damage_milli: WAVE_DAMAGE_MILLI,
            }),
            forall|t: int| 0 <= t < i ==> (#[trigger] out@[t]).wf(),
        decreases n - i,
    {
        let w = waves[i];
        out.push(HitSource { pos: w.pos, damage_milli: WAVE_DAMAGE_MILLI });
        i = i + 1;
    }
    out
}

/// State a hostile-contact pass threads through the hostile sequence.
pub struct ContactPassState {
    pub hostiles: Seq<Hostile>,
    pub health: PlayerHealth,
    pub score: Score,
    pub knockback: Vec2,
    pub run: RunState,
    pub combo: Combo,
}

/// One step of the hostile-contact pass: a hostile within the player's
/// collision radius is destroyed unconditionally; damage, knockback away
/// from it, and the score penalty apply only without a shield, and a
/// lethal contact ends the run and idles the combo.
pub open spec fn spec_contact_step(
    st: ContactPassState,
    h: Hostile,
    ppos: Vec2,
    shield_active: bool,
) -> ContactPassState {
    if spec_dist_sq(h.pos, ppos) > PLAYER_RADIUS * PLAYER_RADIUS {
        ContactPassState { hostiles: st.hostiles.push(h), ..st }
    } else if shield_active {
        ContactPassState { hostiles: st.hostiles, ..st }
    } else {
        let cur = if PLAYER_COLLISION_DAMAGE <= st.health.current {
            (st.health.current - PLAYER_COLLISION_DAMAGE) as u32
        } else {
            0u32
        };
        let health2 = PlayerHealth { current: cur, max: st.health.max };
        let score2 = Score {
            current: if HIT_SCORE_PENALTY <= st.score.current {
                (st.score.current - HIT_SCORE_PENALTY) as u32
            } else {
                0u32
            },
            best: st.score.best,
        };
        let kb2 = spec_normalize_to(spec_sub_vec(ppos, h.pos), PLAYER_KNOCKBACK_STRENGTH);
        if cur == 0 {
            ContactPassState {
                hostiles: st.hostiles,
                health: health2,
                score: score2,
                knockback: kb2,
                run: RunState { active: false, paused: false },
                combo: spec_combo_idle(st.combo),
            }
        } else {
            ContactPassState {
                hostiles: st.hostiles,
                health: health2,
                score: score2,
                knockback: kb2,
                run: st.run,
                combo: st.combo,
            }
        }
    }
}

/// The hostile-contact pass folded over the first `i` hostiles.
pub open spec fn spec_contact_pass(
    hs: Seq<Hostile>,
    ppos: Vec2,
    shield_active: bool,
    init: ContactPassState,
    i: int,
) -> ContactPassState
    decreases i,
{
    if i <= 0 {
        init
    } else {
        spec_contact_pass(hs, ppos, shield_active, init, i - 1).spec_step_with(
            hs[i - 1],
            ppos,
            shield_active,
        )
    }
}

impl ContactPassState {
    /// `spec_contact_step` as a method, so the fold reads naturally.
    pub open spec fn spec_step_with(
        self,
        h: Hostile,
        ppos: Vec2,
        shield_active: bool,
    ) -> ContactPassState {
        spec_contact_step(self, h, ppos, shield_active)
    }
}

/// Resolves hostile contacts with the player: every overlapping hostile
/// is destroyed; while the shield is active that is all that happens, and
/// otherwise each contact independently costs one hit point, knocks the
/// player away and deducts the score penalty, and a contact that empties
/// the health ends the run and idles the combo. Non-overlapping hostiles
/// survive in order.
#[verifier::rlimit(60)]
pub fn resolve_player_collisions(
    hostiles: &mut Vec<Hostile>,
    player: &mut PlayerBody,
    shield_active: bool,
    health: &mut PlayerHealth,
    score: &mut Score,
    run: &mut RunState,
    combo: &mut Combo,
    shake: &mut ScreenShake,
)
    requires
        forall|i: int| 0 <= i < old(hostiles)@.len()
            ==> (#[trigger] old(hostiles)@[i]).wf(),
        forall|i: int| 0 <= i < old(hostiles)@.len()
            ==> (#[trigger] old(hostiles)@[i]).health_milli > 0,
        old(player).wf(),
        old(health).wf(),
        old(score).wf(),
        old(run).wf(),
        old(combo).wf(),
        old(shake).wf(),
    ensures
        ({
            let end = spec_contact_pass(
                old(hostiles)@,
                old(player).pos,
                shield_active,
                ContactPassState {
                    hostiles: Seq::empty(),
                    health: *old(health),
                    score: *old(score),
                    knockback: old(player).knockback,
                    run: *old(run),
                    combo: *old(combo),
                },
                old(hostiles)@.len() as int,
            );
            &&& final(hostiles)@ == end.hostiles
            &&& *final(health) == end.health
            &&& *final(score) == end.score
            &&& final(player).knockback == end.knockback
            &&& *final(run) == end.run
            &&& *final(combo) == end.combo
        }),
        final(player).pos == old(player).pos,
        final(player).vel == old(player).vel,
        final(player).weapon == old(player).weapon,
        final(health).max == old(health).max,
        shield_active ==> *final(health) == *old(health),
        forall|i: int| 0 <= i < final(hostiles)@.len()
            ==> (#[trigger] final(hostiles)@[i]).wf(),
        forall|i: int| 0 <= i < final(hostiles)@.len()
            ==> (#[trigger] final(hostiles)@[i]).health_milli > 0,
        final(player).wf(),
        final(health).wf(),
        final(score).wf(),
        final(run).wf(),
        final(combo).wf(),
        final(shake).wf(),
{
    let ghost init = ContactPassState {
        hostiles: Seq::empty(),
        health: *health,
        score: *score,
        knockback: player.knockback,
        run: *run,
        combo: *combo,
    };
    let ghost hs0 = hostiles@;
    let ghost ppos = player.pos;
    let n = hostiles.len();
    let mut out: Vec<Hostile> = Vec::new();
    let mut i: usize = 0;
    while i < n
        invariant
            0 <= i <= n,
            n == hs0.len(),
            hostiles@ == hs0,
            forall|t: int| 0 <= t < hs0.len() ==> (#[trigger] hs0[t]).wf(),
            forall|t: int| 0 <= t < hs0.len() ==> (#[trigger] hs0[t]).health_milli > 0,
            player.pos == ppos,
            player.vel == old(player).vel,
            player.weapon == old(player).weapon,
            player.wf(),
            ({
                let st = spec_contact_pass(hs0, ppos, shield_active, init, i as int);
                &&& out@ == st.hostiles
                &&& *health == st.health
                &&& *score == st.score
                &&& player.knockback == st.knockback
                &&& *run == st.run
                &&& *combo == st.combo
            }),
            forall|t: int| 0 <= t < out@.len() ==> (#[trigger] out@[t]).wf(),
            forall|t: int| 0 <= t < out@.len() ==> (#[trigger] out@[t]).health_milli > 0,
            health.wf(),
            health.max == old(health).max,
            score.wf(),
            run.wf(),
            combo.wf(),
            shake.wf(),
            shield_active ==> *health == *old(health),
        decreases n - i,
    {
        let h = hostiles[i];
        let d2 = h.pos.distance_squared(&player.pos);
        proof {
            assert(0 <= PLAYER_RADIUS * PLAYER_RADIUS <= 1_000_000 * 1_000_000int)
                by (nonlinear_arith);
        }
        if d2 > (PLAYER_RADIUS * PLAYER_RADIUS) as u64 {
            out.push(h);
        } else if shield_active {
            shake.add_trauma(100);
        } else {
            health.damage(PLAYER_COLLISION_DAMAGE);
            let away = player.pos.sub(h.pos);
            player.knockback = away.normalize_to(PLAYER_KNOCKBACK_STRENGTH);
            score.penalize(HIT_SCORE_PENALTY);
            shake.add_trauma(500);
            if health.is_dead() {
                run.end();
                combo.reset();
                shake.add_trauma(1000);
            }
        }
        i = i + 1;
    }
    let ghost endst = spec_contact_pass(hs0, ppos, shield_active, init, n as int);
    hostiles.clear();
    hostiles.append(&mut out);
    proof {
        assert(hostiles@ =~= endst.hostiles);
    }
}

/// State a pickup pass threads through the power-up sequence.
pub struct PickupPassState {
    pub powerups: Seq<PowerUpEntity>,
    pub balance: u32,
    pub health: PlayerHealth,
    pub shield_remaining_ms: u64,
    pub shield_duration_ms: u64,
    pub accuracy_stacks: u32,
    pub wave_blast_remaining_ms: u64,
}

/// Currency credited by one currency power-up.
pub const CURRENCY_PICKUP_AMOUNT: u32 = 5;

/// One step of the pickup pass: a power-up within the pickup radius is
/// consumed and grants its effect; any other survives.
pub open spec fn spec_pickup_step(
    st: PickupPassState,
    p: PowerUpEntity,
    ppos: Vec2,
    shield_grant_ms: u64,
) -> PickupPassState {
    if spec_dist_sq(p.pos, ppos) > PLAYER_RADIUS * PLAYER_RADIUS {
        PickupPassState { powerups: st.powerups.push(p), ..st }
    } else {
        match p.kind {
            PowerUpKind::Currency => PickupPassState {
                powerups: st.powerups,
                balance: if st.balance + CURRENCY_PICKUP_AMOUNT <= u32::MAX {
                    (st.balance + CURRENCY_PICKUP_AMOUNT) as u32
                } else {
                    u32::MAX
                },
                ..st
            },
            PowerUpKind::Health => PickupPassState {
                powerups: st.powerups,
                health: PlayerHealth {
                    current: if st.health.current + 1 <= st.health.max {
                        (st.health.current + 1) as u32
                    } else {
                        st.health.max
                    },
                    max: st.health.max,
                },
                ..st
            },
            PowerUpKind::Shield => PickupPassState {
                powerups: st.powerups,
                shield_remaining_ms: shield_grant_ms,
                shield_duration_ms: shield_grant_ms,
                ..st
            },
            PowerUpKind::Accuracy => PickupPassState {
                powerups: st.powerups,
                accuracy_stacks: if st.accuracy_stacks
                    < crate::state::ACCURACY_STACK_CAP {
                    (st.accuracy_stacks + 1) as u32
                } else {
                    st.accuracy_stacks
                },
                ..st
            },
            PowerUpKind::WaveBlast => PickupPassState {
                powerups: st.powerups,
                wave_blast_remaining_ms: crate::state::WAVE_BLAST_DURATION_MS,
                ..st
            },
        }
    }
}

/// The pickup pass folded over the first `i` power-ups.
pub open spec fn spec_pickup_pass(
    ps: Seq<PowerUpEntity>,
    ppos: Vec2,
    shield_grant_ms: u64,
    init: PickupPassState,
    i: int,
) -> PickupPassState
    decreases i,
{
    if i <= 0 {
        init
    } else {
        spec_pickup_step(
            spec_pickup_pass(ps, ppos, shield_grant_ms, init, i - 1),
            ps[i - 1],
            ppos,
            shield_grant_ms,
        )
    }
}

/// Consumes every power-up within the pickup radius: currency credits the
/// ledger, a heart heals one point capped at the maximum, a shield
/// (re)arms the shield for `shield_grant_ms`, an accuracy pickup adds one
/// stack up to the cap, and a wave-blast arms the secondary weapon.
/// Consumption always removes the power-up; the rest survive in order.
#[verifier::rlimit(60)]
pub fn apply_powerup_pickups(
    powerups: &mut Vec<PowerUpEntity>,
    player_pos: Vec2,
    shield_grant_ms: u64,
    currency: &mut Currency,
    health: &mut PlayerHealth,
    shield: &mut crate::state::ShieldState,
    combat: &mut crate::state::CombatStats,
)
    requires
        forall|i: int| 0 <= i < old(powerups)@.len()
            ==> (#[trigger] old(powerups)@[i]).wf(),
        player_pos.bounded(ENTITY_BOUND as int),
        old(health).wf(),
        old(combat).wf(),
        shield_grant_ms <= 100_000,
    ensures
        ({
            let end = spec_pickup_pass(
                old(powerups)@,
                player_pos,
                shield_grant_ms,
                PickupPassState {
                    powerups: Seq::empty(),
                    balance: old(currency).balance,
                    health: *old(health),
                    shield_remaining_ms: old(shield).remaining_ms,
                    shield_duration_ms: old(shield).duration_ms,
                    accuracy_stacks: old(combat).accuracy_stacks,
                    wave_blast_remaining_ms: old(combat).wave_blast_remaining_ms,
                },
                old(powerups)@.len() as int,
            );
            &&& final(powerups)@ == end.powerups
            &&& final(currency).balance == end.balance
            &&& *final(health) == end.health
            &&& final(shield).remaining_ms == end.shield_remaining_ms
            &&& final(shield).duration_ms == end.shield_duration_ms
            &&& final(combat).accuracy_stacks == end.accuracy_stacks
            &&& final(combat).wave_blast_remaining_ms == end.wave_blast_remaining_ms
        }),
        final(combat).base_trail_damage_milli == old(combat).base_trail_damage_milli,
        forall|i: int| 0 <= i < final(powerups)@.len()
            ==> (#[trigger] final(powerups)@[i]).wf(),
        final(health).wf(),
        final(health).max == old(health).max,
        final(combat).wf(),
        final(shield).duration_ms == old(shield).duration_ms || final(shield).duration_ms
            == shield_grant_ms,
        final(shield).remaining_ms == old(shield).remaining_ms
            || final(shield).remaining_ms == shield_grant_ms,
{
    let ghost init = PickupPassState {
        powerups: Seq::empty(),
        balance: currency.balance,
        health: *health,
        shield_remaining_ms: shield.remaining_ms,
        shield_duration_ms: shield.duration_ms,
        accuracy_stacks: combat.accuracy_stacks,
        wave_blast_remaining_ms: combat.wave_blast_remaining_ms,
    };
    let ghost ps0 = powerups@;
    let n = powerups.len();
    let mut out: Vec<PowerUpEntity> = Vec::new();
    let mut i: usize = 0;
    while i < n
        invariant
            0 <= i <= n,
            n == ps0.len(),
            powerups@ == ps0,
            forall|t: int| 0 <= t < ps0.len() ==> (#[trigger] ps0[t]).wf(),
            player_pos.bounded(ENTITY_BOUND as int),
            shield_grant_ms <= 100_000,
            combat.base_trail_damage_milli == old(combat).base_trail_damage_milli,
            ({
                let st = spec_pickup_pass(ps0, player_pos, shield_grant_ms, init, i as int);
                &&& out@ == st.powerups
                &&& currency.balance == st.balance
                &&& *health == st.health
                &&& shield.remaining_ms == st.shield_remaining_ms
                &&& shield.duration_ms == st.shield_duration_ms
                &&& combat.accuracy_stacks == st.accuracy_stacks
                &&& combat.wave_blast_remaining_ms == st.wave_blast_remaining_ms
            }),
            forall|t: int| 0 <= t < out@.len() ==> (#[trigger] out@[t]).wf(),
            health.wf(),
            health.max == old(health).max,
            combat.wf(),
            shield.duration_ms == old(shield).duration_ms || shield.duration_ms
                == shield_grant_ms,
            shield.remaining_ms == old(shield).remaining_ms || shield.remaining_ms
                == shield_grant_ms,
        decreases n - i,
    {
        let p = powerups[i];
        let d2 = p.pos.distance_squared(&player_pos);
        proof {
            assert(0 <= PLAYER_RADIUS * PLAYER_RADIUS <= 1_000_000 * 1_000_000int)
                by (nonlinear_arith);
        }
        if d2 > (PLAYER_RADIUS * PLAYER_RADIUS) as u64 {
            out.push(p);
        } else {
            match p.kind {
                PowerUpKind::Currency => {
                    currency.credit(CURRENCY_PICKUP_AMOUNT);
                },
                PowerUpKind::Health => {
                    health.heal(1);
                },
                PowerUpKind::Shield => {
                    shield.activate(shield_grant_ms);
                },
                PowerUpKind::Accuracy => {
                    combat.add_accuracy_stack();
                },
                PowerUpKind::WaveBlast => {
                    combat.activate_wave_blast();
                },
            }
        }
        i = i + 1;
    }
    let ghost endst = spec_pickup_pass(ps0, player_pos, shield_grant_ms, init, n as int);
    powerups.clear();
    powerups.append(&mut out);
    proof {
        assert(powerups@ =~= endst.powerups);
    }
}

} // verus!
