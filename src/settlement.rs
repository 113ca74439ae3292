use vstd::prelude::*;

use crate::address::Address;
use crate::error::BettingError;
use crate::state::{Battle, Bet};

verus! {

/// Part of a winning share, in percent, kept as a fee.
pub const FEE_PERCENT: u64 = 10;

/// How one winning claim divides its share of the pool.
#[derive(Clone, Copy, Debug, PartialEq, Eq, Structural)]
pub struct Settlement {
    /// The bettor's proportional claim on both sides of the pool.
    pub user_share: u64,
    /// What is kept of the share: the treasury part and the burn part.
    pub fee: u64,
    /// Half of the fee, rounded down.
    pub burn_amount: u64,
    /// The rest of the fee, which takes any odd unit.
    pub treasury_amount: u64,
    /// What the bettor receives.
    pub payout: u64,
}

/// A stake of `amount` on the winning side, scaled from the winning pool to
/// the whole pool, rounded down.
pub open spec fn share_of(amount: int, total_pool: int, winning_pool: int) -> int {
    amount * total_pool / winning_pool
}

/// The fee taken from a share, rounded down.
pub open spec fn fee_of(user_share: int) -> int {
    user_share * FEE_PERCENT / 100
}

/// How a share is split, given that the share fits in 64 bits.
pub open spec fn split_of(user_share: u64) -> Settlement {
    let fee = fee_of(user_share as int);
    Settlement {
        user_share,
        fee: fee as u64,
        burn_amount: (fee / 2) as u64,
        treasury_amount: (fee - fee / 2) as u64,
        payout: (user_share - fee) as u64,
    }
}

/// The outcome of settling a winning stake against the pool totals.
pub open spec fn settlement_of(amount: u64, total_pool: u64, winning_pool: u64) -> Result<
    Settlement,
    BettingError,
> {
    if winning_pool == 0 {
        Err(BettingError::NoWinningStake)
    } else if share_of(amount as int, total_pool as int, winning_pool as int) > u64::MAX {
        Err(BettingError::PoolOverflow)
    } else {
        Ok(split_of(share_of(amount as int, total_pool as int, winning_pool as int) as u64))
    }
}

/// The outcome of `caller` claiming on `bet` against `battle`: the checks in
/// their order, then the settlement.
pub open spec fn claim_outcome(battle: Battle, bet: Bet, caller: Address) -> Result<
    Settlement,
    BettingError,
> {
    if !battle.is_revealed {
        Err(BettingError::BattleNotRevealed)
    } else if !bet.user.same(caller) {
        Err(BettingError::Unauthorized)
    } else {
        match battle.winner {
            None => Err(BettingError::BattleNotRevealed),
            Some(w) => if bet.track_choice != w {
                Err(BettingError::UserLost)
            } else if bet.claimed {
                Err(BettingError::AlreadyClaimed)
            } else if battle.total_pool() > u64::MAX {
                Err(BettingError::PoolOverflow)
            } else {
                settlement_of(bet.amount, battle.total_pool() as u64, battle.pool_on(w) as u64)
            },
        }
    }
}

proof fn lemma_fee_bounds(user_share: int)
    requires
        0 <= user_share,
    ensures
        0 <= fee_of(user_share) <= user_share,
{
}

proof fn lemma_product_fits(a: u64, b: u64)
    ensures
        (a as int) * (b as int) <= u128::MAX,
{
    assert((a as int) * (b as int) <= (u64::MAX as int) * (u64::MAX as int)) by (nonlinear_arith);
}

/// Splits the share of a winning stake of `amount` into payout, treasury part
/// and burn part.
pub fn compute_settlement(amount: u64, total_pool: u64, winning_pool: u64) -> (r: Result<
    Settlement,
    BettingError,
>)
    ensures
        r == settlement_of(amount, total_pool, winning_pool),
        winning_pool == 0 ==> r == Err::<Settlement, BettingError>(BettingError::NoWinningStake),
        r matches Ok(s) ==> s.payout + s.treasury_amount + s.burn_amount == s.user_share
            && s.burn_amount <= s.treasury_amount <= s.burn_amount + 1,
{
    if winning_pool == 0 {
        return Err(BettingError::NoWinningStake);
    }
    proof {
        lemma_product_fits(amount, total_pool);
    }
    let product: u128 = (amount as u128) * (total_pool as u128);
    let share: u128 = product / (winning_pool as u128);
    if share > u64::MAX as u128 {
        return Err(BettingError::PoolOverflow);
    }
    let user_share: u64 = share as u64;
    proof {
        lemma_fee_bounds(user_share as int);
    }
    let fee: u64 = ((user_share as u128) * (FEE_PERCENT as u128) / 100) as u64;
    let burn_amount: u64 = fee / 2;
    let treasury_amount: u64 = fee - burn_amount;
    let payout: u64 = user_share - fee;
    Ok(Settlement { user_share, fee, burn_amount, treasury_amount, payout })
}

/// Checks that `caller` may claim on `bet` against `battle`, in order: the
/// battle is revealed, the bet is the caller's, it backed the winner, it has
/// not been paid; then settles it.
pub fn settle_claim(battle: &Battle, bet: &Bet, caller: &Address) -> (r: Result<
    Settlement,
    BettingError,
>)
    ensures
        r == claim_outcome(*battle, *bet, *caller),
        !battle.is_revealed ==> r == Err::<Settlement, BettingError>(
            BettingError::BattleNotRevealed,
        ),
        battle.is_revealed && bet.user.same(*caller) && battle.winner is Some
            && bet.track_choice != battle.winner->Some_0 ==> r == Err::<Settlement, BettingError>(
            BettingError::UserLost,
        ),
{
    if !battle.is_revealed {
        return Err(BettingError::BattleNotRevealed);
    }
    if !bet.user.is_same(caller) {
        return Err(BettingError::Unauthorized);
    }
    let winner = match battle.winner {
        Some(w) => w,
        None => return Err(BettingError::BattleNotRevealed),
    };
    if bet.track_choice != winner {
        return Err(BettingError::UserLost);
    }
    if bet.claimed {
        return Err(BettingError::AlreadyClaimed);
    }
    if battle.total_bets_b > u64::MAX - battle.total_bets_a {
        return Err(BettingError::PoolOverflow);
    }
    let total_pool: u64 = battle.total_bets_a + battle.total_bets_b;
    let winning_pool: u64 = if winner == 0 {
        battle.total_bets_a
    } else {
        battle.total_bets_b
    };
    compute_settlement(bet.amount, total_pool, winning_pool)
}

} // verus!
