use vstd::prelude::*;

use crate::address::Address;

verus! {

/// Who signs a token transfer.
#[derive(Clone, Copy, Debug)]
pub enum TransferAuthority {
    /// The bettor, moving their own tokens.
    User(Address),
    /// The capability bound to the battle with this identifier, moving tokens
    /// out of its vault.
    Battle(u64),
}

/// One move of `amount` tokens from one token account to another, to be
/// carried out by the token ledger.
#[derive(Clone, Copy, Debug)]
pub struct TokenTransfer {
    pub from: Address,
    pub to: Address,
    pub authority: TransferAuthority,
    pub amount: u64,
}

/// The accounts of a battle's creation.
#[derive(Clone, Copy, Debug)]
pub struct InitializeBattle {
    /// The creator, who becomes the battle's authority.
    pub authority: Address,
}

/// The accounts of a bet.
#[derive(Clone, Copy, Debug)]
pub struct PlaceBet {
    /// The identifier of the battle bet on.
    pub battle: u64,
    pub user: Address,
    pub user_token_account: Address,
    pub battle_vault: Address,
}

/// The accounts of a reveal.
#[derive(Clone, Copy, Debug)]
pub struct RevealWinner {
    /// The identifier of the battle revealed.
    pub battle: u64,
    pub authority: Address,
}

/// The accounts of a claim.
#[derive(Clone, Copy, Debug)]
pub struct ClaimWinnings {
    /// The identifier of the battle claimed on.
    pub battle: u64,
    pub user: Address,
    pub user_token_account: Address,
    pub battle_vault: Address,
    pub treasury: Address,
}

} // verus!
