//! Cross-cutting guarantees of the simulation, proved once over the
//! contracts the systems already state.

use vstd::prelude::*;

use crate::combat::{
    spec_contact_pass, spec_hit_pass, ContactPassState, HitPassState, HitSource,
};
use crate::entities::{Hostile, PLAYER_RADIUS};
use crate::geom::{spec_dist_sq, Vec2};
use crate::world::Sim;

verus! {

/// Health never exceeds its maximum, and the currency balance is an
/// unsigned count that no operation drives below zero: both hold in every
/// well-formed simulation state, and every system of the simulation takes
/// and returns well-formed states.
pub proof fn lemma_vital_invariants(s: Sim)
    requires
        s.wf(),
    ensures
        s.health.current <= s.health.max,
        s.ledger.currency.balance >= 0,
        s.score.current <= s.score.best,
{
}

/// While the shield is active, a pass of hostile contacts destroys every
/// overlapping hostile yet leaves the player's health, score, knockback,
/// run state and combo exactly as they were: the shield blocks the
/// damage, not the contact.
pub proof fn lemma_shield_blocks_all_damage(
    hs: Seq<Hostile>,
    ppos: Vec2,
    init: ContactPassState,
    i: int,
)
    requires
        0 <= i <= hs.len(),
    ensures
        ({
            let end = spec_contact_pass(hs, ppos, true, init, i);
            &&& end.health == init.health
            &&& end.score == init.score
            &&& end.knockback == init.knockback
            &&& end.run == init.run
            &&& end.combo == init.combo
            &&& end.hostiles == init.hostiles + hs.take(i).filter(
                |h: Hostile| spec_dist_sq(h.pos, ppos) > PLAYER_RADIUS * PLAYER_RADIUS,
            )
        }),
    decreases i,
{
    let overlap_free = |h: Hostile| spec_dist_sq(h.pos, ppos) > PLAYER_RADIUS
        * PLAYER_RADIUS;
    if i == 0 {
        reveal(Seq::filter);
        assert(hs.take(0).filter(overlap_free) =~= Seq::<Hostile>::empty());
        assert(spec_contact_pass(hs, ppos, true, init, 0).hostiles =~= init.hostiles
            + hs.take(0).filter(overlap_free));
    } else {
        lemma_shield_blocks_all_damage(hs, ppos, init, i - 1);
        let prev = spec_contact_pass(hs, ppos, true, init, i - 1);
        let h = hs[i - 1];
        assert(hs.take(i).drop_last() =~= hs.take(i - 1));
        assert(hs.take(i).last() == h);
        reveal(Seq::filter);
        if overlap_free(h) {
            assert(prev.spec_step_with(h, ppos, true).hostiles =~= init.hostiles
                + hs.take(i).filter(overlap_free));
        } else {
            assert(prev.spec_step_with(h, ppos, true).hostiles =~= init.hostiles
                + hs.take(i).filter(overlap_free));
        }
    }
}

/// Combat only credits the ledger: a damage pass never lowers the
/// currency balance.
pub proof fn lemma_combat_never_debits(
    hs: Seq<Hostile>,
    sources: Seq<HitSource>,
    radius: i64,
    kb: i64,
    init: HitPassState,
    i: int,
)
    requires
        0 <= i <= hs.len(),
    ensures
        spec_hit_pass(hs, sources, radius, kb, init, i).balance >= init.balance,
    decreases i,
{
    if i > 0 {
        lemma_combat_never_debits(hs, sources, radius, kb, init, i - 1);
    }
}

} // verus!
