use vstd::prelude::*;

use crate::address::Address;
use crate::state::{Battle, Bet};

verus! {

/// What the bets in `bets` stake on `track` of battle `battle_id`.
pub open spec fn stake_on(bets: Seq<Bet>, battle_id: u64, track: u8) -> int
    decreases bets.len(),
{
    if bets.len() == 0 {
        0
    } else {
        let b = bets.last();
        stake_on(bets.drop_last(), battle_id, track) + if b.battle == battle_id && b.track_choice
            == track {
            b.amount as int
        } else {
            0
        }
    }
}

/// What the bets in `bets` stake on battle `battle_id`, on either track.
pub open spec fn staked(bets: Seq<Bet>, battle_id: u64) -> int
    decreases bets.len(),
{
    if bets.len() == 0 {
        0
    } else {
        let b = bets.last();
        staked(bets.drop_last(), battle_id) + if b.battle == battle_id {
            b.amount as int
        } else {
            0
        }
    }
}

/// Whether battle `battle_id` exists.
pub open spec fn has_battle(battles: Seq<Battle>, battle_id: u64) -> bool {
    exists|i: int| 0 <= i < battles.len() && (#[trigger] battles[i]).battle_id == battle_id
}

/// Where battle `battle_id` stands, when it exists.
pub open spec fn battle_slot(battles: Seq<Battle>, battle_id: u64) -> int {
    choose|i: int| 0 <= i < battles.len() && (#[trigger] battles[i]).battle_id == battle_id
}

/// Whether `user` has a bet on battle `battle_id`.
pub open spec fn has_bet(bets: Seq<Bet>, battle_id: u64, user: Address) -> bool {
    exists|k: int|
        0 <= k < bets.len() && (#[trigger] bets[k]).battle == battle_id && bets[k].user.same(user)
}

/// Where the bet of `user` on battle `battle_id` stands, when it exists.
pub open spec fn bet_slot(bets: Seq<Bet>, battle_id: u64, user: Address) -> int {
    choose|k: int|
        0 <= k < bets.len() && (#[trigger] bets[k]).battle == battle_id && bets[k].user.same(user)
}

/// Identifiers are unique, bets are unique per battle and user, every bet
/// backs an existing battle, and each battle's totals are what its bets stake
/// on each track.
pub open spec fn store_wf(battles: Seq<Battle>, bets: Seq<Bet>) -> bool {
    &&& forall|i: int, j: int|
        0 <= i < j < battles.len() ==> (#[trigger] battles[i]).battle_id != (
        #[trigger] battles[j]).battle_id
    &&& forall|i: int|
        0 <= i < battles.len() ==> {
            let b = #[trigger] battles[i];
            &&& b.wf()
            &&& b.total_bets_a == stake_on(bets, b.battle_id, 0)
            &&& b.total_bets_b == stake_on(bets, b.battle_id, 1)
        }
    &&& forall|k: int, l: int|
        0 <= k < l < bets.len() ==> !((#[trigger] bets[k]).battle == (#[trigger] bets[l]).battle
            && bets[k].user.same(bets[l].user))
    &&& forall|k: int|
        0 <= k < bets.len() ==> (#[trigger] bets[k]).wf() && has_battle(battles, bets[k].battle)
}

/// The store of all battles and all bets: each battle once per identifier,
/// each bet once per battle and user.
pub struct Arena {
    pub battles: Vec<Battle>,
    pub bets: Vec<Bet>,
}

impl View for Arena {
    type V = (Seq<Battle>, Seq<Bet>);

    open spec fn view(&self) -> (Seq<Battle>, Seq<Bet>) {
        (self.battles@, self.bets@)
    }
}

impl Arena {
    /// The store's invariant, `store_wf`, on its contents.
    pub open spec fn wf(&self) -> bool {
        store_wf(self.battles@, self.bets@)
    }

    /// An empty store.
    pub fn new() -> (r: Arena)
        ensures
            r.wf(),
            r.battles@.len() == 0,
            r.bets@.len() == 0,
    {
        Arena { battles: Vec::new(), bets: Vec::new() }
    }

    /// The position of battle `battle_id`, if it exists.
    pub fn find_battle(&self, battle_id: u64) -> (r: Option<usize>)
        requires
            self.wf(),
        ensures
            r is None <==> !has_battle(self.battles@, battle_id),
            r matches Some(i) ==> i == battle_slot(self.battles@, battle_id) && i
                < self.battles@.len() && self.battles@[i as int].battle_id == battle_id,
    {
        let mut i: usize = 0;
        while i < self.battles.len()
            invariant
                self.wf(),
                i <= self.battles@.len(),
                forall|j: int| 0 <= j < i ==> (#[trigger] self.battles@[j]).battle_id != battle_id,
            decreases self.battles@.len() - i,
        {
            if self.battles[i].battle_id == battle_id {
                assert(has_battle(self.battles@, battle_id));
                let ghost s = battle_slot(self.battles@, battle_id);
                assert(self.battles@[s].battle_id == battle_id);
                assert(s == i as int) by {
                    if s < i {
                    } else if s > i {
                        assert(self.battles@[i as int].battle_id != self.battles@[s].battle_id);
                    }
                }
                return Some(i);
            }
            i = i + 1;
        }
        None
    }

    /// The position of the bet of `user` on battle `battle_id`, if it exists.
    pub fn find_bet(&self, battle_id: u64, user: &Address) -> (r: Option<usize>)
        requires
            self.wf(),
        ensures
            r is None <==> !has_bet(self.bets@, battle_id, *user),
            r matches Some(k) ==> k == bet_slot(self.bets@, battle_id, *user) && k
                < self.bets@.len() && self.bets@[k as int].battle == battle_id
                && self.bets@[k as int].user.same(*user),
    {
        let mut k: usize = 0;
        while k < self.bets.len()
            invariant
                self.wf(),
                k <= self.bets@.len(),
                forall|j: int|
                    0 <= j < k ==> !((#[trigger] self.bets@[j]).battle == battle_id
                        && self.bets@[j].user.same(*user)),
            decreases self.bets@.len() - k,
        {
            if self.bets[k].battle == battle_id && self.bets[k].user.is_same(user) {
                assert(has_bet(self.bets@, battle_id, *user));
                let ghost s = bet_slot(self.bets@, battle_id, *user);
                assert(s == k as int) by {
                    if s > k {
                        assert(!(self.bets@[k as int].battle == self.bets@[s].battle
                            && self.bets@[k as int].user.same(self.bets@[s].user)));
                    }
                }
                return Some(k);
            }
            k = k + 1;
        }
        None
    }
}

/// Appending a bet adds its amount to the stake of its own battle and track
/// only.
pub proof fn lemma_stake_push(bets: Seq<Bet>, b: Bet, battle_id: u64, track: u8)
    ensures
        stake_on(bets.push(b), battle_id, track) == stake_on(bets, battle_id, track) + if b.battle
            == battle_id && b.track_choice == track {
            b.amount as int
        } else {
            0
        },
{
    assert(bets.push(b).drop_last() =~= bets);
}

/// Replacing a bet by one with the same battle, track and amount leaves every
/// stake as it was.
pub proof fn lemma_stake_update(bets: Seq<Bet>, k: int, b: Bet, battle_id: u64, track: u8)
    requires
        0 <= k < bets.len(),
        b.battle == bets[k].battle,
        b.track_choice == bets[k].track_choice,
        b.amount == bets[k].amount,
    ensures
        stake_on(bets.update(k, b), battle_id, track) == stake_on(bets, battle_id, track),
    decreases bets.len(),
{
    let u = bets.update(k, b);
    if k == bets.len() - 1 {
        assert(u.drop_last() =~= bets.drop_last());
    } else {
        assert(u.drop_last() =~= bets.drop_last().update(k, b));
        lemma_stake_update(bets.drop_last(), k, b, battle_id, track);
    }
}

/// Nothing is staked on a battle that no bet names.
pub proof fn lemma_stake_absent(bets: Seq<Bet>, battle_id: u64, track: u8)
    requires
        forall|k: int| 0 <= k < bets.len() ==> (#[trigger] bets[k]).battle != battle_id,
    ensures
        stake_on(bets, battle_id, track) == 0,
    decreases bets.len(),
{
    if bets.len() > 0 {
        lemma_stake_absent(bets.drop_last(), battle_id, track);
    }
}

/// When every bet names track 0 or 1, what a battle holds is what its two
/// tracks hold.
pub proof fn lemma_staked_split(bets: Seq<Bet>, battle_id: u64)
    requires
        forall|k: int| 0 <= k < bets.len() ==> (#[trigger] bets[k]).track_choice <= 1,
    ensures
        staked(bets, battle_id) == stake_on(bets, battle_id, 0) + stake_on(bets, battle_id, 1),
    decreases bets.len(),
{
    if bets.len() > 0 {
        lemma_staked_split(bets.drop_last(), battle_id);
    }
}

/// Seqs of battles with the same identifiers, position by position, hold the
/// same battles.
pub proof fn lemma_same_ids(a: Seq<Battle>, b: Seq<Battle>, battle_id: u64)
    requires
        a.len() == b.len(),
        forall|i: int| 0 <= i < a.len() ==> (#[trigger] a[i]).battle_id == b[i].battle_id,
    ensures
        has_battle(a, battle_id) == has_battle(b, battle_id),
{
    if has_battle(a, battle_id) {
        let i = choose|i: int| 0 <= i < a.len() && (#[trigger] a[i]).battle_id == battle_id;
        assert(b[i].battle_id == battle_id);
    }
    if has_battle(b, battle_id) {
        let i = choose|i: int| 0 <= i < b.len() && (#[trigger] b[i]).battle_id == battle_id;
        assert(a[i].battle_id == battle_id);
    }
}

/// Adding a fresh battle with empty pools keeps the store well formed.
pub proof fn lemma_wf_new_battle(battles: Seq<Battle>, bets: Seq<Bet>, nb: Battle)
    requires
        store_wf(battles, bets),
        !has_battle(battles, nb.battle_id),
        nb.wf(),
        nb.total_bets_a == 0,
        nb.total_bets_b == 0,
    ensures
        store_wf(battles.push(nb), bets),
{
    let nbs = battles.push(nb);
    assert forall|k: int| 0 <= k < bets.len() implies (#[trigger] bets[k]).battle
        != nb.battle_id by {
        if bets[k].battle == nb.battle_id {
            assert(has_battle(battles, bets[k].battle));
        }
    }
    lemma_stake_absent(bets, nb.battle_id, 0);
    lemma_stake_absent(bets, nb.battle_id, 1);
    assert forall|i: int, j: int| 0 <= i < j < nbs.len() implies (#[trigger] nbs[i]).battle_id
        != (#[trigger] nbs[j]).battle_id by {
        if j == battles.len() {
            assert(nbs[i] == battles[i]);
        }
    }
    assert forall|k: int| 0 <= k < bets.len() implies has_battle(nbs, (#[trigger] bets[k]).battle) by {
        let i = choose|i: int|
            0 <= i < battles.len() && (#[trigger] battles[i]).battle_id == bets[k].battle;
        assert(nbs[i] == battles[i]);
    }
}

/// An accepted bet, recorded both in its battle and in the ledger, keeps the
/// store well formed.
pub proof fn lemma_wf_bet(battles: Seq<Battle>, bets: Seq<Bet>, i: int, b: Bet)
    requires
        store_wf(battles, bets),
        0 <= i < battles.len(),
        battles[i].battle_id == b.battle,
        !has_bet(bets, b.battle, b.user),
        battles[i].bet_error(b.track_choice, b.amount) is None,
    ensures
        store_wf(battles.update(i, battles[i].with_bet(b.track_choice, b.amount)), bets.push(b)),
{
    let nbs = battles.update(i, battles[i].with_bet(b.track_choice, b.amount));
    let nbets = bets.push(b);
    assert forall|j: int| 0 <= j < nbs.len() implies {
        let x = #[trigger] nbs[j];
        &&& x.wf()
        &&& x.total_bets_a == stake_on(nbets, x.battle_id, 0)
        &&& x.total_bets_b == stake_on(nbets, x.battle_id, 1)
    } by {
        lemma_stake_push(bets, b, nbs[j].battle_id, 0);
        lemma_stake_push(bets, b, nbs[j].battle_id, 1);
        if j != i {
            assert(battles[j].battle_id != battles[i].battle_id);
        }
    }
    assert forall|k: int, l: int| 0 <= k < l < nbets.len() implies !((#[trigger] nbets[k]).battle
        == (#[trigger] nbets[l]).battle && nbets[k].user.same(nbets[l].user)) by {
        if l == bets.len() {
            assert(nbets[k] == bets[k]);
            if nbets[k].battle == b.battle && nbets[k].user.same(b.user) {
                assert(has_bet(bets, b.battle, b.user));
            }
        }
    }
    assert forall|k: int| 0 <= k < nbets.len() implies (#[trigger] nbets[k]).wf() && has_battle(
        nbs,
        nbets[k].battle,
    ) by {
        lemma_same_ids(battles, nbs, nbets[k].battle);
        if k == bets.len() {
            assert(nbs[i].battle_id == b.battle);
        } else {
            assert(nbets[k] == bets[k]);
        }
    }
}

/// Revealing a winner of an unrevealed battle keeps the store well formed.
pub proof fn lemma_wf_reveal(battles: Seq<Battle>, bets: Seq<Bet>, i: int, caller: Address, w: u8)
    requires
        store_wf(battles, bets),
        0 <= i < battles.len(),
        battles[i].reveal_error(caller, w) is None,
    ensures
        store_wf(battles.update(i, battles[i].with_winner(w)), bets),
{
    let nbs = battles.update(i, battles[i].with_winner(w));
    assert forall|k: int| 0 <= k < bets.len() implies (#[trigger] bets[k]).wf() && has_battle(
        nbs,
        bets[k].battle,
    ) by {
        lemma_same_ids(battles, nbs, bets[k].battle);
    }
}

/// Marking a bet as paid keeps the store well formed.
pub proof fn lemma_wf_claim(battles: Seq<Battle>, bets: Seq<Bet>, k: int)
    requires
        store_wf(battles, bets),
        0 <= k < bets.len(),
    ensures
        store_wf(battles, bets.update(k, Bet { claimed: true, ..bets[k] })),
{
    let nb = Bet { claimed: true, ..bets[k] };
    let nbets = bets.update(k, nb);
    assert forall|j: int| 0 <= j < battles.len() implies {
        let x = #[trigger] battles[j];
        &&& x.wf()
        &&& x.total_bets_a == stake_on(nbets, x.battle_id, 0)
        &&& x.total_bets_b == stake_on(nbets, x.battle_id, 1)
    } by {
        lemma_stake_update(bets, k, nb, battles[j].battle_id, 0);
        lemma_stake_update(bets, k, nb, battles[j].battle_id, 1);
    }
}

} // verus!
