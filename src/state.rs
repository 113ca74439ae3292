use vstd::prelude::*;

use crate::address::Address;
use crate::error::BettingError;

verus! {

/// Selector of the first competing outcome.
pub const TRACK_A: u8 = 0;

/// Selector of the second competing outcome.
pub const TRACK_B: u8 = 1;

/// Longest track identifier, in bytes, that a battle stores.
pub const MAX_TRACK_ID_LEN: usize = 50;

/// One two-sided market.
pub struct Battle {
    pub battle_id: u64,
    pub track_a_id: String,
    pub track_b_id: String,
    pub is_revealed: bool,
    pub winner: Option<u8>,
    pub total_bets_a: u64,
    pub total_bets_b: u64,
    pub authority: Address,
}

/// One user's stake on one battle.
#[derive(Clone, Copy, Debug)]
pub struct Bet {
    pub user: Address,
    pub battle: u64,
    pub amount: u64,
    pub track_choice: u8,
    pub claimed: bool,
}

impl Battle {
    /// A winner is present exactly once the battle is revealed, it names one
    /// of the two tracks, and the whole pool fits in 64 bits.
    pub open spec fn wf(self) -> bool {
        &&& self.is_revealed <==> self.winner.is_some()
        &&& (self.winner matches Some(w) ==> w <= 1)
        &&& self.total_bets_a + self.total_bets_b <= u64::MAX
    }

    /// What has been staked on `track`.
    pub open spec fn pool_on(self, track: u8) -> int {
        if track == TRACK_A {
            self.total_bets_a as int
        } else {
            self.total_bets_b as int
        }
    }

    /// Both sides together.
    pub open spec fn total_pool(self) -> int {
        self.total_bets_a + self.total_bets_b
    }

    /// The first check that a bet of `amount` on `track_choice` fails, if any.
    pub open spec fn bet_error(self, track_choice: u8, amount: u64) -> Option<BettingError> {
        if track_choice > 1 {
            Some(BettingError::InvalidTrackChoice)
        } else if self.is_revealed {
            Some(BettingError::BattleAlreadyRevealed)
        } else if amount == 0 {
            Some(BettingError::InvalidAmount)
        } else if self.total_pool() + amount > u64::MAX {
            Some(BettingError::PoolOverflow)
        } else {
            None
        }
    }

    /// The battle after `amount` is added to the side of `track_choice`.
    pub open spec fn with_bet(self, track_choice: u8, amount: u64) -> Battle {
        if track_choice == TRACK_A {
            Battle { total_bets_a: (self.total_bets_a + amount) as u64, ..self }
        } else {
            Battle { total_bets_b: (self.total_bets_b + amount) as u64, ..self }
        }
    }

    /// The first check that a reveal of `winner_track` by `caller` fails, if any.
    pub open spec fn reveal_error(self, caller: Address, winner_track: u8) -> Option<BettingError> {
        if winner_track > 1 {
            Some(BettingError::InvalidTrackChoice)
        } else if self.is_revealed {
            Some(BettingError::BattleAlreadyRevealed)
        } else if !caller.same(self.authority) {
            Some(BettingError::Unauthorized)
        } else {
            None
        }
    }

    /// The battle once `winner_track` is revealed as the winner.
    pub open spec fn with_winner(self, winner_track: u8) -> Battle {
        Battle { is_revealed: true, winner: Some(winner_track), ..self }
    }

    /// A fresh, unrevealed battle with empty pools.
    pub fn new(battle_id: u64, track_a_id: String, track_b_id: String, authority: Address) -> (r:
        Battle)
        ensures
            r.battle_id == battle_id,
            r.track_a_id == track_a_id,
            r.track_b_id == track_b_id,
            !r.is_revealed,
            r.winner.is_none(),
            r.total_bets_a == 0,
            r.total_bets_b == 0,
            r.authority == authority,
            r.wf(),
    {
        Battle {
            battle_id,
            track_a_id,
            track_b_id,
            is_revealed: false,
            winner: None,
            total_bets_a: 0,
            total_bets_b: 0,
            authority,
        }
    }

    /// Adds a stake of `amount` to the side of `track_choice`; on any failure
    /// the battle is left as it was.
    pub fn record_bet(&mut self, track_choice: u8, amount: u64) -> (r: Result<(), BettingError>)
        requires
            old(self).wf(),
        ensures
            final(self).wf(),
            match old(self).bet_error(track_choice, amount) {
                Some(e) => r == Err::<(), BettingError>(e) && *final(self) == *old(self),
                None => r is Ok && *final(self) == old(self).with_bet(track_choice, amount),
            },
            track_choice > 1 ==> r == Err::<(), BettingError>(BettingError::InvalidTrackChoice)
                && final(self).total_bets_a == old(self).total_bets_a && final(self).total_bets_b
                == old(self).total_bets_b,
            final(self).total_pool() == old(self).total_pool() + if r is Ok {
                amount as int
            } else {
                0
            },
    {
        if track_choice > 1 {
            return Err(BettingError::InvalidTrackChoice);
        }
        if self.is_revealed {
            return Err(BettingError::BattleAlreadyRevealed);
        }
        if amount == 0 {
            return Err(BettingError::InvalidAmount);
        }
        if amount > u64::MAX - self.total_bets_a - self.total_bets_b {
            return Err(BettingError::PoolOverflow);
        }
        if track_choice == TRACK_A {
            self.total_bets_a = self.total_bets_a + amount;
        } else {
            self.total_bets_b = self.total_bets_b + amount;
        }
        Ok(())
    }

    /// Fixes the winner, once, on the authority's word; on any failure the
    /// battle is left as it was.
    pub fn set_winner(&mut self, caller: &Address, winner_track: u8) -> (r: Result<(), BettingError>)
        requires
            old(self).wf(),
        ensures
            final(self).wf(),
            match old(self).reveal_error(*caller, winner_track) {
                Some(e) => r == Err::<(), BettingError>(e) && *final(self) == *old(self),
                None => r is Ok && *final(self) == old(self).with_winner(winner_track),
            },
            old(self).is_revealed ==> final(self).winner == old(self).winner,
            winner_track <= 1 && !old(self).is_revealed && !caller.same(old(self).authority)
                ==> r == Err::<(), BettingError>(BettingError::Unauthorized)
                && !final(self).is_revealed,
    {
        if winner_track > 1 {
            return Err(BettingError::InvalidTrackChoice);
        }
        if self.is_revealed {
            return Err(BettingError::BattleAlreadyRevealed);
        }
        if !caller.is_same(&self.authority) {
            return Err(BettingError::Unauthorized);
        }
        self.is_revealed = true;
        self.winner = Some(winner_track);
        Ok(())
    }
}

/// Once a winner is revealed it is final: any later reveal of a valid track,
/// by anyone, fails with `BattleAlreadyRevealed`, every later reveal fails,
/// and a failed reveal leaves the battle, and so its winner, as it was.
pub proof fn lemma_winner_is_final(b: Battle, caller: Address, w: u8, caller2: Address, w2: u8)
    requires
        b.wf(),
        b.reveal_error(caller, w) is None,
    ensures
        b.with_winner(w).wf(),
        b.with_winner(w).winner == Some(w),
        b.with_winner(w).reveal_error(caller2, w2) is Some,
        w2 <= 1 ==> b.with_winner(w).reveal_error(caller2, w2) == Some(
            BettingError::BattleAlreadyRevealed,
        ),
{
}

impl Bet {
    /// A recorded stake is positive and names one of the two tracks.
    pub open spec fn wf(self) -> bool {
        self.amount > 0 && self.track_choice <= 1
    }
}

} // verus!
