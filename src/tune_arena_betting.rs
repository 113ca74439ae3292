use vstd::prelude::*;

use crate::accounts::{
    ClaimWinnings, InitializeBattle, PlaceBet, RevealWinner, TokenTransfer, TransferAuthority,
};
use crate::error::BettingError;
use crate::registry::{
    Arena, battle_slot, bet_slot, has_battle, has_bet, lemma_wf_bet, lemma_wf_claim,
    lemma_same_ids, lemma_wf_new_battle, lemma_wf_reveal, store_wf,
};
use crate::settlement::{claim_outcome, settle_claim, Settlement};
use crate::state::{Battle, Bet, MAX_TRACK_ID_LEN};

verus! {

/// The battle that `initialize_battle` creates.
pub open spec fn fresh_battle(
    ctx: InitializeBattle,
    battle_id: u64,
    track_a_id: String,
    track_b_id: String,
) -> Battle {
    Battle {
        battle_id,
        track_a_id,
        track_b_id,
        is_revealed: false,
        winner: None,
        total_bets_a: 0,
        total_bets_b: 0,
        authority: ctx.authority,
    }
}

/// The first check that a bet fails against the store, if any.
pub open spec fn place_bet_error(s: (Seq<Battle>, Seq<Bet>), ctx: PlaceBet, amount: u64, track_choice: u8) -> Option<
    BettingError,
> {
    if !has_battle(s.0, ctx.battle) {
        Some(BettingError::BattleNotFound)
    } else if has_bet(s.1, ctx.battle, ctx.user) {
        Some(BettingError::DuplicateBet)
    } else {
        s.0[battle_slot(s.0, ctx.battle)].bet_error(track_choice, amount)
    }
}

/// The bet that `place_bet` records.
pub open spec fn new_bet(ctx: PlaceBet, amount: u64, track_choice: u8) -> Bet {
    Bet { user: ctx.user, battle: ctx.battle, amount, track_choice, claimed: false }
}

/// The stake's move from the bettor into the battle's vault.
pub open spec fn stake_transfer(ctx: PlaceBet, amount: u64) -> TokenTransfer {
    TokenTransfer {
        from: ctx.user_token_account,
        to: ctx.battle_vault,
        authority: TransferAuthority::User(ctx.user),
        amount,
    }
}

/// The first check that a reveal fails against the store, if any.
pub open spec fn reveal_winner_error(s: (Seq<Battle>, Seq<Bet>), ctx: RevealWinner, winner_track: u8) -> Option<
    BettingError,
> {
    if !has_battle(s.0, ctx.battle) {
        Some(BettingError::BattleNotFound)
    } else {
        s.0[battle_slot(s.0, ctx.battle)].reveal_error(ctx.authority, winner_track)
    }
}

/// The outcome of a claim against the store.
pub open spec fn claim_winnings_outcome(s: (Seq<Battle>, Seq<Bet>), ctx: ClaimWinnings) -> Result<
    Settlement,
    BettingError,
> {
    if !has_battle(s.0, ctx.battle) {
        Err(BettingError::BattleNotFound)
    } else if !has_bet(s.1, ctx.battle, ctx.user) {
        Err(BettingError::BetNotFound)
    } else {
        claim_outcome(
            s.0[battle_slot(s.0, ctx.battle)],
            s.1[bet_slot(s.1, ctx.battle, ctx.user)],
            ctx.user,
        )
    }
}

/// The three moves out of the vault that pay a claim, in order: the payout to
/// the bettor, the treasury part, then the burn part, which also goes to the
/// treasury.
pub open spec fn payout_transfers(ctx: ClaimWinnings, s: Settlement) -> Seq<TokenTransfer> {
    let auth = TransferAuthority::Battle(ctx.battle);
    seq![
        TokenTransfer {
            from: ctx.battle_vault,
            to: ctx.user_token_account,
            authority: auth,
            amount: s.payout,
        },
        TokenTransfer {
            from: ctx.battle_vault,
            to: ctx.treasury,
            authority: auth,
            amount: s.treasury_amount,
        },
        TokenTransfer {
            from: ctx.battle_vault,
            to: ctx.treasury,
            authority: auth,
            amount: s.burn_amount,
        },
    ]
}

/// A battle's winner is revealed once: after a successful reveal, a second
/// reveal of a valid track on the same battle, by anyone, fails with
/// `BattleAlreadyRevealed`, and the winner stays the first one.
pub proof fn lemma_reveal_only_once(
    s: (Seq<Battle>, Seq<Bet>),
    ctx: RevealWinner,
    winner_track: u8,
    ctx2: RevealWinner,
    winner_track2: u8,
)
    requires
        store_wf(s.0, s.1),
        reveal_winner_error(s, ctx, winner_track) is None,
        ctx2.battle == ctx.battle,
        winner_track2 <= 1,
    ensures
        ({
            let i = battle_slot(s.0, ctx.battle);
            let after = s.0.update(i, s.0[i].with_winner(winner_track));
            &&& reveal_winner_error((after, s.1), ctx2, winner_track2) == Some(
                BettingError::BattleAlreadyRevealed,
            )
            &&& after[battle_slot(after, ctx.battle)].winner == Some(winner_track)
        }),
{
    let i = battle_slot(s.0, ctx.battle);
    let after = s.0.update(i, s.0[i].with_winner(winner_track));
    lemma_wf_reveal(s.0, s.1, i, ctx.authority, winner_track);
    lemma_same_ids(s.0, after, ctx.battle);
    let j = battle_slot(after, ctx.battle);
    assert(after[j].battle_id == ctx.battle);
    if j != i {
        assert(after[i].battle_id == ctx.battle);
        if i < j {
            assert(after[i].battle_id != after[j].battle_id);
        } else {
            assert(after[j].battle_id != after[i].battle_id);
        }
    }
}

/// Creates battle `battle_id` with its two tracks and `ctx.authority` as its
/// authority; fails with `DuplicateBattle` if the identifier is taken.
pub fn initialize_battle(
    arena: &mut Arena,
    ctx: &InitializeBattle,
    battle_id: u64,
    track_a_id: String,
    track_b_id: String,
) -> (r: Result<(), BettingError>)
    requires
        old(arena).wf(),
        track_a_id@.len() <= MAX_TRACK_ID_LEN,
        track_b_id@.len() <= MAX_TRACK_ID_LEN,
    ensures
        final(arena).wf(),
        has_battle(old(arena).battles@, battle_id) ==> r == Err::<(), BettingError>(
            BettingError::DuplicateBattle,
        ) && final(arena)@ == old(arena)@,
        !has_battle(old(arena).battles@, battle_id) ==> r is Ok && final(arena).battles@
            == old(arena).battles@.push(fresh_battle(*ctx, battle_id, track_a_id, track_b_id))
            && final(arena).bets@ == old(arena).bets@,
{
    if arena.find_battle(battle_id).is_some() {
        return Err(BettingError::DuplicateBattle);
    }
    let battle = Battle::new(battle_id, track_a_id, track_b_id, ctx.authority);
    proof {
        lemma_wf_new_battle(arena.battles@, arena.bets@, battle);
    }
    arena.battles.push(battle);
    Ok(())
}

/// Records `ctx.user`'s stake of `amount` on `track_choice` of battle
/// `ctx.battle`, and returns the move of the stake into the vault. Checks, in
/// order: the battle exists, the user has no bet on it yet, the track is 0 or
/// 1, the battle is unrevealed, the amount is positive, the pool stays within
/// 64 bits. On failure the store is left as it was.
pub fn place_bet(arena: &mut Arena, ctx: &PlaceBet, amount: u64, track_choice: u8) -> (r: Result<
    TokenTransfer,
    BettingError,
>)
    requires
        old(arena).wf(),
    ensures
        final(arena).wf(),
        match place_bet_error(old(arena)@, *ctx, amount, track_choice) {
            Some(e) => r == Err::<TokenTransfer, BettingError>(e) && final(arena)@ == old(arena)@,
            None => {
                let i = battle_slot(old(arena).battles@, ctx.battle);
                &&& r == Ok::<TokenTransfer, BettingError>(stake_transfer(*ctx, amount))
                &&& final(arena).battles@ == old(arena).battles@.update(
                    i,
                    old(arena).battles@[i].with_bet(track_choice, amount),
                )
                &&& final(arena).bets@ == old(arena).bets@.push(
                    new_bet(*ctx, amount, track_choice),
                )
            },
        },
        has_battle(old(arena).battles@, ctx.battle) && !has_bet(
            old(arena).bets@,
            ctx.battle,
            ctx.user,
        ) && track_choice > 1 ==> r == Err::<TokenTransfer, BettingError>(
            BettingError::InvalidTrackChoice,
        ) && final(arena)@ == old(arena)@,
{
    let i = match arena.find_battle(ctx.battle) {
        Some(i) => i,
        None => return Err(BettingError::BattleNotFound),
    };
    if arena.find_bet(ctx.battle, &ctx.user).is_some() {
        return Err(BettingError::DuplicateBet);
    }
    let bet = Bet {
        user: ctx.user,
        battle: ctx.battle,
        amount,
        track_choice,
        claimed: false,
    };
    proof {
        if arena.battles@[i as int].bet_error(track_choice, amount) is None {
            lemma_wf_bet(arena.battles@, arena.bets@, i as int, bet);
        }
    }
    let ghost before = arena.battles@;
    match arena.battles[i].record_bet(track_choice, amount) {
        Ok(()) => {},
        Err(e) => {
            assert(arena.battles@ =~= before);
            return Err(e);
        },
    }
    arena.bets.push(bet);
    Ok(
        TokenTransfer {
            from: ctx.user_token_account,
            to: ctx.battle_vault,
            authority: TransferAuthority::User(ctx.user),
            amount,
        },
    )
}

/// Reveals `winner_track` as the winner of battle `ctx.battle`, on the word of
/// its authority. Checks, in order: the battle exists, the track is 0 or 1,
/// the battle is unrevealed, the caller is its authority. On failure the store
/// is left as it was.
pub fn reveal_winner(arena: &mut Arena, ctx: &RevealWinner, winner_track: u8) -> (r: Result<
    (),
    BettingError,
>)
    requires
        old(arena).wf(),
    ensures
        final(arena).wf(),
        match reveal_winner_error(old(arena)@, *ctx, winner_track) {
            Some(e) => r == Err::<(), BettingError>(e) && final(arena)@ == old(arena)@,
            None => {
                let i = battle_slot(old(arena).battles@, ctx.battle);
                &&& r is Ok
                &&& final(arena).battles@ == old(arena).battles@.update(
                    i,
                    old(arena).battles@[i].with_winner(winner_track),
                )
                &&& final(arena).bets@ == old(arena).bets@
            },
        },
        ({
            let b = old(arena).battles@[battle_slot(old(arena).battles@, ctx.battle)];
            has_battle(old(arena).battles@, ctx.battle) && winner_track <= 1 && !b.is_revealed
                && !ctx.authority.same(b.authority) ==> r == Err::<(), BettingError>(
                BettingError::Unauthorized,
            ) && final(arena)@ == old(arena)@
        }),
{
    let i = match arena.find_battle(ctx.battle) {
        Some(i) => i,
        None => return Err(BettingError::BattleNotFound),
    };
    proof {
        if arena.battles@[i as int].reveal_error(ctx.authority, winner_track) is None {
            lemma_wf_reveal(arena.battles@, arena.bets@, i as int, ctx.authority, winner_track);
        }
    }
    let ghost before = arena.battles@;
    let r = arena.battles[i].set_winner(&ctx.authority, winner_track);
    proof {
        if r is Err {
            assert(arena.battles@ =~= before);
        }
    }
    r
}

/// Pays `ctx.user`'s winning bet on battle `ctx.battle`: marks it as paid and
/// returns the three moves out of the vault. Checks, in order: the battle
/// exists, the bet exists, then those of `settle_claim`. On failure the store
/// is left as it was.
pub fn claim_winnings(arena: &mut Arena, ctx: &ClaimWinnings) -> (r: Result<
    Vec<TokenTransfer>,
    BettingError,
>)
    requires
        old(arena).wf(),
    ensures
        final(arena).wf(),
        match claim_winnings_outcome(old(arena)@, *ctx) {
            Err(e) => r == Err::<Vec<TokenTransfer>, BettingError>(e) && final(arena)@
                == old(arena)@,
            Ok(s) => {
                let k = bet_slot(old(arena).bets@, ctx.battle, ctx.user);
                &&& r matches Ok(v) && v@ == payout_transfers(*ctx, s)
                &&& final(arena).battles@ == old(arena).battles@
                &&& final(arena).bets@ == old(arena).bets@.update(
                    k,
                    Bet { claimed: true, ..old(arena).bets@[k] },
                )
            },
        },
{
    let i = match arena.find_battle(ctx.battle) {
        Some(i) => i,
        None => return Err(BettingError::BattleNotFound),
    };
    let k = match arena.find_bet(ctx.battle, &ctx.user) {
        Some(k) => k,
        None => return Err(BettingError::BetNotFound),
    };
    let s = match settle_claim(&arena.battles[i], &arena.bets[k], &ctx.user) {
        Ok(s) => s,
        Err(e) => return Err(e),
    };
    proof {
        lemma_wf_claim(arena.battles@, arena.bets@, k as int);
    }
    arena.bets[k].claimed = true;
    let auth = TransferAuthority::Battle(ctx.battle);
    let mut transfers: Vec<TokenTransfer> = Vec::new();
    transfers.push(
        TokenTransfer {
            from: ctx.battle_vault,
            to: ctx.user_token_account,
            authority: auth,
            amount: s.payout,
        },
    );
    transfers.push(
        TokenTransfer {
            from: ctx.battle_vault,
            to: ctx.treasury,
            authority: auth,
            amount: s.treasury_amount,
        },
    );
    transfers.push(
        TokenTransfer {
            from: ctx.battle_vault,
            to: ctx.treasury,
            authority: auth,
            amount: s.burn_amount,
        },
    );
    proof {
        assert(transfers@ =~= payout_transfers(*ctx, s));
    }
    Ok(transfers)
}

} // verus!
