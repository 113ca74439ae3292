use vstd::prelude::*;

use crate::address::Address;
use crate::registry::{lemma_staked_split, stake_on, staked, store_wf};
use crate::settlement::{claim_outcome, share_of};
use crate::state::{Battle, Bet};

verus! {

/// What the bets in `bets` that backed `track` of battle `battle_id` are owed
/// together, before fees, when the pool is `total_pool` and that side holds
/// `winning_pool`.
pub open spec fn winning_shares(
    bets: Seq<Bet>,
    battle_id: u64,
    track: u8,
    total_pool: int,
    winning_pool: int,
) -> int
    decreases bets.len(),
{
    if bets.len() == 0 {
        0
    } else {
        let b = bets.last();
        winning_shares(bets.drop_last(), battle_id, track, total_pool, winning_pool) + if b.battle
            == battle_id && b.track_choice == track {
            share_of(b.amount as int, total_pool, winning_pool)
        } else {
            0
        }
    }
}

proof fn lemma_floor_share(a: int, t: int, w: int)
    requires
        a >= 0,
        t >= 0,
        w > 0,
    ensures
        0 <= share_of(a, t, w),
        share_of(a, t, w) * w <= a * t,
{
    let f = a * t / w;
    assert(a * t >= 0) by (nonlinear_arith)
        requires
            a >= 0,
            t >= 0,
    ;
    vstd::arithmetic::div_mod::lemma_fundamental_div_mod(a * t, w);
    vstd::arithmetic::div_mod::lemma_mod_pos_bound(a * t, w);
    vstd::arithmetic::div_mod::lemma_div_pos_is_pos(a * t, w);
    assert(f * w == w * f) by (nonlinear_arith);
}

proof fn lemma_shares_scaled(bets: Seq<Bet>, battle_id: u64, track: u8, t: int, w: int)
    requires
        t >= 0,
        w > 0,
    ensures
        0 <= winning_shares(bets, battle_id, track, t, w),
        winning_shares(bets, battle_id, track, t, w) * w <= stake_on(bets, battle_id, track) * t,
    decreases bets.len(),
{
    if bets.len() > 0 {
        let rest = bets.drop_last();
        lemma_shares_scaled(rest, battle_id, track, t, w);
        let b = bets.last();
        let s0 = winning_shares(rest, battle_id, track, t, w);
        let k0 = stake_on(rest, battle_id, track);
        if b.battle == battle_id && b.track_choice == track {
            let a = b.amount as int;
            let f = share_of(a, t, w);
            lemma_floor_share(a, t, w);
            assert((s0 + f) * w == s0 * w + f * w) by (nonlinear_arith);
            assert((k0 + a) * t == k0 * t + a * t) by (nonlinear_arith);
        }
    }
}

/// In a well-formed store the two pool totals of a battle add up to every
/// amount recorded in a bet on it.
pub proof fn lemma_totals_match_stakes(battles: Seq<Battle>, bets: Seq<Bet>, i: int)
    requires
        store_wf(battles, bets),
        0 <= i < battles.len(),
    ensures
        battles[i].total_bets_a + battles[i].total_bets_b == staked(bets, battles[i].battle_id),
{
    assert(battles[i].wf());
    lemma_staked_split(bets, battles[i].battle_id);
}

/// What all the winners of a revealed battle are owed together, payouts and
/// fees, never exceeds the whole pool: rounding down leaves the vault a
/// remainder, never a deficit.
pub proof fn lemma_claims_within_pool(battles: Seq<Battle>, bets: Seq<Bet>, i: int)
    requires
        store_wf(battles, bets),
        0 <= i < battles.len(),
        battles[i].is_revealed,
        battles[i].pool_on(battles[i].winner->Some_0) > 0,
    ensures
        winning_shares(
            bets,
            battles[i].battle_id,
            battles[i].winner->Some_0,
            battles[i].total_pool(),
            battles[i].pool_on(battles[i].winner->Some_0),
        ) <= battles[i].total_pool(),
{
    let b = battles[i];
    assert(b.wf());
    let w = b.winner->Some_0;
    let t = b.total_pool();
    let wp = b.pool_on(w);
    assert(stake_on(bets, b.battle_id, w) == wp);
    lemma_shares_scaled(bets, b.battle_id, w, t, wp);
    let s = winning_shares(bets, b.battle_id, w, t, wp);
    assert(s <= t) by (nonlinear_arith)
        requires
            s * wp <= wp * t,
            wp > 0,
    ;
}

/// A successful claim hands out exactly its bet's share of the pool: payout,
/// treasury part and burn part together.
pub proof fn lemma_claim_takes_its_share(battle: Battle, bet: Bet, caller: Address)
    requires
        claim_outcome(battle, bet, caller) is Ok,
    ensures
        ({
            let s = claim_outcome(battle, bet, caller)->Ok_0;
            let w = battle.winner->Some_0;
            &&& s.payout + s.treasury_amount + s.burn_amount == s.user_share
            &&& s.payout + s.fee == s.user_share
            &&& s.user_share == share_of(
                bet.amount as int,
                battle.total_pool(),
                battle.pool_on(w),
            )
        }),
{
    let w = battle.winner->Some_0;
    if battle.pool_on(w) > 0 {
        vstd::arithmetic::div_mod::lemma_div_pos_is_pos(
            bet.amount * battle.total_pool(),
            battle.pool_on(w),
        );
    }
}

} // verus!
