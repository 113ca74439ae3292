use tune_arena_betting::accounts::{
    ClaimWinnings, InitializeBattle, PlaceBet, RevealWinner, TokenTransfer, TransferAuthority,
};
use tune_arena_betting::address::Address;
use tune_arena_betting::error::BettingError;
use tune_arena_betting::registry::Arena;
use tune_arena_betting::settlement::{compute_settlement, settle_claim, Settlement};
use tune_arena_betting::state::{Battle, Bet, TRACK_A, TRACK_B};
use tune_arena_betting::tune_arena_betting::{
    claim_winnings, initialize_battle, place_bet, reveal_winner,
};

fn addr(tag: u8) -> Address {
    Address::new([tag; 32])
}

fn bet_ctx(battle: u64, user: u8) -> PlaceBet {
    PlaceBet {
        battle,
        user: addr(user),
        user_token_account: addr(user + 100),
        battle_vault: addr(200),
    }
}

fn claim_ctx(battle: u64, user: u8) -> ClaimWinnings {
    ClaimWinnings {
        battle,
        user: addr(user),
        user_token_account: addr(user + 100),
        battle_vault: addr(200),
        treasury: addr(250),
    }
}

fn arena_with_battle(id: u64) -> Arena {
    let mut arena = Arena::new();
    let ctx = InitializeBattle { authority: addr(1) };
    initialize_battle(&mut arena, &ctx, id, "song-a".to_string(), "song-b".to_string()).unwrap();
    arena
}

fn revealed_battle(a: u64, b: u64, winner: u8) -> Battle {
    let mut battle = Battle::new(7, "a".to_string(), "b".to_string(), addr(1));
    battle.total_bets_a = a;
    battle.total_bets_b = b;
    battle.is_revealed = true;
    battle.winner = Some(winner);
    battle
}

fn bet_on(user: u8, amount: u64, track: u8) -> Bet {
    Bet { user: addr(user), battle: 7, amount, track_choice: track, claimed: false }
}

fn expected_166() -> Settlement {
    Settlement { user_share: 166, fee: 16, burn_amount: 8, treasury_amount: 8, payout: 150 }
}

fn amounts(v: &[TokenTransfer]) -> Vec<u64> {
    v.iter().map(|t| t.amount).collect()
}

#[test]
fn new_battle_starts_empty_and_unrevealed() {
    let arena = arena_with_battle(42);
    assert_eq!(arena.battles.len(), 1);
    let b = &arena.battles[0];
    assert_eq!(b.battle_id, 42);
    assert_eq!(b.track_a_id, "song-a");
    assert_eq!(b.track_b_id, "song-b");
    assert!(!b.is_revealed);
    assert_eq!(b.winner, None);
    assert_eq!((b.total_bets_a, b.total_bets_b), (0, 0));
    assert_eq!(b.authority.bytes, [1u8; 32]);
}

#[test]
fn duplicate_battle_is_rejected() {
    let mut arena = arena_with_battle(42);
    let ctx = InitializeBattle { authority: addr(9) };
    let r = initialize_battle(&mut arena, &ctx, 42, "x".to_string(), "y".to_string());
    assert_eq!(r, Err(BettingError::DuplicateBattle));
    assert_eq!(arena.battles.len(), 1);
    assert_eq!(arena.battles[0].authority.bytes, [1u8; 32]);
}

#[test]
fn totals_equal_sum_of_recorded_bets() {
    let mut arena = arena_with_battle(1);
    let stakes = [(10u8, 300u64, TRACK_A), (11, 300, TRACK_A), (12, 150, TRACK_B), (13, 250, TRACK_B)];
    for (user, amount, track) in stakes {
        place_bet(&mut arena, &bet_ctx(1, user), amount, track).unwrap();
    }
    let b = &arena.battles[0];
    assert_eq!(b.total_bets_a, 600);
    assert_eq!(b.total_bets_b, 400);
    let sum: u64 = arena.bets.iter().filter(|x| x.battle == 1).map(|x| x.amount).sum();
    assert_eq!(b.total_bets_a + b.total_bets_b, sum);
}

#[test]
fn place_bet_returns_stake_transfer_into_vault() {
    let mut arena = arena_with_battle(1);
    let t = place_bet(&mut arena, &bet_ctx(1, 10), 75, TRACK_B).unwrap();
    assert_eq!(t.from.bytes, [110u8; 32]);
    assert_eq!(t.to.bytes, [200u8; 32]);
    assert_eq!(t.amount, 75);
    assert!(matches!(t.authority, TransferAuthority::User(a) if a.bytes == [10u8; 32]));
    assert_eq!(arena.bets.len(), 1);
    assert_eq!(arena.bets[0].track_choice, TRACK_B);
    assert!(!arena.bets[0].claimed);
}

#[test]
fn invalid_track_choice_leaves_pools_unchanged() {
    let mut arena = arena_with_battle(1);
    place_bet(&mut arena, &bet_ctx(1, 10), 50, TRACK_A).unwrap();
    let r = place_bet(&mut arena, &bet_ctx(1, 11), 100, 2);
    assert_eq!(r.unwrap_err(), BettingError::InvalidTrackChoice);
    assert_eq!(arena.battles[0].total_bets_a, 50);
    assert_eq!(arena.battles[0].total_bets_b, 0);
    assert_eq!(arena.bets.len(), 1);
}

#[test]
fn zero_amount_is_rejected() {
    let mut arena = arena_with_battle(1);
    let r = place_bet(&mut arena, &bet_ctx(1, 10), 0, TRACK_A);
    assert_eq!(r.unwrap_err(), BettingError::InvalidAmount);
    assert!(arena.bets.is_empty());
}

#[test]
fn second_bet_by_same_user_is_rejected() {
    let mut arena = arena_with_battle(1);
    place_bet(&mut arena, &bet_ctx(1, 10), 50, TRACK_A).unwrap();
    let r = place_bet(&mut arena, &bet_ctx(1, 10), 70, TRACK_B);
    assert_eq!(r.unwrap_err(), BettingError::DuplicateBet);
    assert_eq!(arena.battles[0].total_bets_b, 0);
}

#[test]
fn bet_on_missing_battle_is_rejected() {
    let mut arena = arena_with_battle(1);
    let r = place_bet(&mut arena, &bet_ctx(2, 10), 50, TRACK_A);
    assert_eq!(r.unwrap_err(), BettingError::BattleNotFound);
}

#[test]
fn bet_after_reveal_is_rejected() {
    let mut arena = arena_with_battle(1);
    reveal_winner(&mut arena, &RevealWinner { battle: 1, authority: addr(1) }, TRACK_A).unwrap();
    let r = place_bet(&mut arena, &bet_ctx(1, 10), 50, TRACK_A);
    assert_eq!(r.unwrap_err(), BettingError::BattleAlreadyRevealed);
}

#[test]
fn pool_overflow_is_rejected() {
    let mut arena = arena_with_battle(1);
    place_bet(&mut arena, &bet_ctx(1, 10), u64::MAX - 5, TRACK_A).unwrap();
    let r = place_bet(&mut arena, &bet_ctx(1, 11), 6, TRACK_B);
    assert_eq!(r.unwrap_err(), BettingError::PoolOverflow);
    place_bet(&mut arena, &bet_ctx(1, 12), 5, TRACK_B).unwrap();
    assert_eq!(arena.battles[0].total_bets_b, 5);
}

#[test]
fn second_reveal_fails_and_keeps_winner() {
    let mut arena = arena_with_battle(1);
    let ctx = RevealWinner { battle: 1, authority: addr(1) };
    reveal_winner(&mut arena, &ctx, TRACK_B).unwrap();
    assert_eq!(reveal_winner(&mut arena, &ctx, TRACK_A), Err(BettingError::BattleAlreadyRevealed));
    assert_eq!(reveal_winner(&mut arena, &ctx, TRACK_B), Err(BettingError::BattleAlreadyRevealed));
    assert!(arena.battles[0].is_revealed);
    assert_eq!(arena.battles[0].winner, Some(TRACK_B));
}

#[test]
fn reveal_by_non_authority_is_unauthorized() {
    let mut arena = arena_with_battle(1);
    let r = reveal_winner(&mut arena, &RevealWinner { battle: 1, authority: addr(2) }, TRACK_A);
    assert_eq!(r, Err(BettingError::Unauthorized));
    assert!(!arena.battles[0].is_revealed);
    assert_eq!(arena.battles[0].winner, None);
}

#[test]
fn reveal_with_invalid_track_is_rejected() {
    let mut arena = arena_with_battle(1);
    let r = reveal_winner(&mut arena, &RevealWinner { battle: 1, authority: addr(1) }, 3);
    assert_eq!(r, Err(BettingError::InvalidTrackChoice));
    assert!(!arena.battles[0].is_revealed);
}

#[test]
fn reveal_of_missing_battle_is_rejected() {
    let mut arena = arena_with_battle(1);
    let r = reveal_winner(&mut arena, &RevealWinner { battle: 9, authority: addr(1) }, 0);
    assert_eq!(r, Err(BettingError::BattleNotFound));
}

#[test]
fn settlement_of_worked_example() {
    assert_eq!(compute_settlement(100, 1000, 600), Ok(expected_166()));
}

#[test]
fn settle_claim_of_worked_example() {
    let battle = revealed_battle(600, 400, TRACK_A);
    let r = settle_claim(&battle, &bet_on(10, 100, TRACK_A), &addr(10));
    assert_eq!(r, Ok(expected_166()));
}

#[test]
fn odd_fee_unit_goes_to_treasury() {
    let s = compute_settlement(150, 150, 150).unwrap();
    assert_eq!(s.user_share, 150);
    assert_eq!(s.fee, 15);
    assert_eq!(s.burn_amount, 7);
    assert_eq!(s.treasury_amount, 8);
    assert_eq!(s.payout, 135);
}

#[test]
fn share_larger_than_u64_is_rejected() {
    assert_eq!(compute_settlement(u64::MAX, u64::MAX, 1), Err(BettingError::PoolOverflow));
}

#[test]
fn large_pool_settles_without_overflow() {
    let s = compute_settlement(u64::MAX, u64::MAX, u64::MAX).unwrap();
    assert_eq!(s.user_share, u64::MAX);
    assert_eq!(s.fee, u64::MAX / 10);
    assert_eq!(s.payout + s.fee, u64::MAX);
}

#[test]
fn claim_on_losing_bet_is_user_lost() {
    let battle = revealed_battle(600, 400, TRACK_A);
    let r = settle_claim(&battle, &bet_on(10, 100, TRACK_B), &addr(10));
    assert_eq!(r, Err(BettingError::UserLost));
}

#[test]
fn claim_before_reveal_is_not_revealed() {
    let battle = Battle::new(7, "a".to_string(), "b".to_string(), addr(1));
    let r = settle_claim(&battle, &bet_on(10, 100, TRACK_A), &addr(10));
    assert_eq!(r, Err(BettingError::BattleNotRevealed));
}

#[test]
fn claim_by_other_user_is_unauthorized() {
    let battle = revealed_battle(600, 400, TRACK_A);
    let r = settle_claim(&battle, &bet_on(10, 100, TRACK_A), &addr(11));
    assert_eq!(r, Err(BettingError::Unauthorized));
}

#[test]
fn claim_with_empty_winning_side_is_no_winning_stake() {
    let battle = revealed_battle(0, 500, TRACK_A);
    let r = settle_claim(&battle, &bet_on(10, 100, TRACK_A), &addr(10));
    assert_eq!(r, Err(BettingError::NoWinningStake));
    assert_eq!(compute_settlement(100, 500, 0), Err(BettingError::NoWinningStake));
}

#[test]
fn claim_of_paid_bet_is_already_claimed() {
    let battle = revealed_battle(600, 400, TRACK_A);
    let mut bet = bet_on(10, 100, TRACK_A);
    bet.claimed = true;
    let r = settle_claim(&battle, &bet, &addr(10));
    assert_eq!(r, Err(BettingError::AlreadyClaimed));
}

fn played_arena() -> Arena {
    let mut arena = arena_with_battle(1);
    place_bet(&mut arena, &bet_ctx(1, 10), 100, TRACK_A).unwrap();
    place_bet(&mut arena, &bet_ctx(1, 11), 500, TRACK_A).unwrap();
    place_bet(&mut arena, &bet_ctx(1, 12), 400, TRACK_B).unwrap();
    arena
}

#[test]
fn claim_winnings_pays_three_transfers_in_order() {
    let mut arena = played_arena();
    reveal_winner(&mut arena, &RevealWinner { battle: 1, authority: addr(1) }, TRACK_A).unwrap();
    let v = claim_winnings(&mut arena, &claim_ctx(1, 10)).unwrap();
    assert_eq!(amounts(&v), vec![150, 8, 8]);
    assert_eq!(v[0].to.bytes, [110u8; 32]);
    assert_eq!(v[1].to.bytes, [250u8; 32]);
    assert_eq!(v[2].to.bytes, [250u8; 32]);
    for t in &v {
        assert_eq!(t.from.bytes, [200u8; 32]);
        assert!(matches!(t.authority, TransferAuthority::Battle(1)));
    }
    assert!(arena.bets[0].claimed);
    assert!(!arena.bets[1].claimed);
}

#[test]
fn second_claim_is_already_claimed() {
    let mut arena = played_arena();
    reveal_winner(&mut arena, &RevealWinner { battle: 1, authority: addr(1) }, TRACK_A).unwrap();
    claim_winnings(&mut arena, &claim_ctx(1, 10)).unwrap();
    let r = claim_winnings(&mut arena, &claim_ctx(1, 10));
    assert_eq!(r.unwrap_err(), BettingError::AlreadyClaimed);
}

#[test]
fn claim_winnings_errors() {
    let mut arena = played_arena();
    assert_eq!(claim_winnings(&mut arena, &claim_ctx(1, 10)).unwrap_err(), BettingError::BattleNotRevealed);
    reveal_winner(&mut arena, &RevealWinner { battle: 1, authority: addr(1) }, TRACK_A).unwrap();
    assert_eq!(claim_winnings(&mut arena, &claim_ctx(1, 12)).unwrap_err(), BettingError::UserLost);
    assert_eq!(claim_winnings(&mut arena, &claim_ctx(1, 13)).unwrap_err(), BettingError::BetNotFound);
    assert_eq!(claim_winnings(&mut arena, &claim_ctx(5, 10)).unwrap_err(), BettingError::BattleNotFound);
    assert!(arena.bets.iter().all(|b| !b.claimed));
}

#[test]
fn all_winning_claims_fit_in_pool() {
    let mut arena = played_arena();
    reveal_winner(&mut arena, &RevealWinner { battle: 1, authority: addr(1) }, TRACK_A).unwrap();
    let mut paid: u64 = 0;
    for user in [10u8, 11] {
        let v = claim_winnings(&mut arena, &claim_ctx(1, user)).unwrap();
        paid += amounts(&v).iter().sum::<u64>();
    }
    // 166 + 833 of a pool of 1000: one unit stays in the vault.
    assert_eq!(paid, 999);
    assert!(paid <= 1000);
}

#[test]
fn address_equality_compares_every_byte() {
    let mut b = [3u8; 32];
    assert!(addr(3).is_same(&Address::new(b)));
    b[31] = 4;
    assert!(!addr(3).is_same(&Address::new(b)));
}
