use vstd::prelude::*;

verus! {

/// Why an operation on a battle or a bet was rejected. Every rejection leaves
/// the state as it was.
#[derive(Clone, Copy, Debug, PartialEq, Eq, Structural)]
pub enum BettingError {
    /// A track selector outside {0, 1}.
    InvalidTrackChoice,
    /// A bet or a reveal after the winner was revealed.
    BattleAlreadyRevealed,
    /// A claim before the winner was revealed.
    BattleNotRevealed,
    /// A reveal by someone other than the authority, or a claim by someone
    /// other than the bettor.
    Unauthorized,
    /// A claim on a bet whose track did not win.
    UserLost,
    /// A stake of zero.
    InvalidAmount,
    /// A battle with this identifier already exists.
    DuplicateBattle,
    /// This user already has a bet on this battle.
    DuplicateBet,
    /// No battle with this identifier exists.
    BattleNotFound,
    /// This user has no bet on this battle.
    BetNotFound,
    /// Nobody staked on the winning track.
    NoWinningStake,
    /// The bet has already been paid out.
    AlreadyClaimed,
    /// The pool, or a share of it, would not fit in 64 bits.
    PoolOverflow,
}

} // verus!
