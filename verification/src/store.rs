//! The records of all players, one for each identity.

use crate::error::GameError;
use crate::game::{entry_for, submit_game_result, GameCompleted};
use crate::identity::same_key;
use crate::leaderboard::{is_ranked, with_score, Leaderboard, CAPACITY};
use crate::player::{
    after_game, fresh_account, initialize_player, renamed, set_player_name, PlayerAccount,
    PlayerAccountView, MAX_NAME_BYTES,
};
use crate::rewards::{
    after_claim, after_refund, diamonds_of, mint_diamond_tokens, settle_issuance, IssuanceRequest,
    DIAMOND_UNIT_SCALE,
};
use anchor_lang::prelude::Pubkey;
use vstd::prelude::*;
use vstd::utf8::encode_utf8;

verus! {

/// The error of an operation on one player that is turned down: `NotFound` where the
/// player has no record, else the error `otherwise` of the operation itself.
pub open spec fn refusal(known: bool, otherwise: GameError) -> GameError {
    if known {
        otherwise
    } else {
        GameError::NotFound
    }
}

/// The records of all players. No two records are of the same player.
pub struct PlayerRecordStore {
    records: Vec<PlayerAccount>,
}

impl View for PlayerRecordStore {
    type V = Map<Pubkey, PlayerAccountView>;

    /// The record of each player who has one.
    closed spec fn view(&self) -> Map<Pubkey, PlayerAccountView> {
        Map::new(
            |player: Pubkey| self.holds(player),
            |player: Pubkey| self.records@[self.slot_of(player)]@,
        )
    }
}

impl PlayerRecordStore {
    /// No two records are of the same player, and each record is well formed. This
    /// holds of every store that `new` made and the operations below changed.
    pub closed spec fn wf(&self) -> bool {
        &&& forall|i: int, j: int|
            0 <= i < j < self.records@.len() ==> self.records@[i].player
                != self.records@[j].player
        &&& forall|i: int| 0 <= i < self.records@.len() ==> (#[trigger] self.records@[i])@.wf()
    }

    /// In a well-formed store each record is kept under the identity of its own player,
    /// claims no more diamonds than it collected, has no best score above its total
    /// score, and has a name that fits.
    pub proof fn lemma_records_are_sound(&self)
        requires
            self.wf(),
        ensures
            forall|player: Pubkey|
                self@.contains_key(player) ==> (#[trigger] self@[player]).player == player
                    && self@[player].wf(),
    {
        assert forall|player: Pubkey| self@.contains_key(player) implies (
        #[trigger] self@[player]).player == player && self@[player].wf() by {
            let i = self.slot_of(player);
            assert(self.records@[i]@.wf());
        }
    }

    spec fn holds(&self, player: Pubkey) -> bool {
        exists|i: int| 0 <= i < self.records@.len() && self.records@[i].player == player
    }

    spec fn slot_of(&self, player: Pubkey) -> int {
        choose|i: int| 0 <= i < self.records@.len() && self.records@[i].player == player
    }

    /// A store without records.
    pub fn new() -> (store: PlayerRecordStore)
        ensures
            store.wf(),
            store@ == Map::<Pubkey, PlayerAccountView>::empty(),
    {
        let store = PlayerRecordStore { records: Vec::new() };
        assert(store@ =~= Map::<Pubkey, PlayerAccountView>::empty());
        store
    }

    fn find(&self, identity: &Pubkey) -> (slot: Option<usize>)
        requires
            self.wf(),
        ensures
            slot is Some <==> self@.contains_key(*identity),
            slot is Some ==> slot.unwrap() < self.records@.len() && self.slot_of(*identity)
                == slot.unwrap() && self.records@[slot.unwrap() as int].player == *identity,
    {
        let mut i: usize = 0;
        while i < self.records.len()
            invariant
                self.wf(),
                i <= self.records@.len(),
                forall|j: int| 0 <= j < i ==> self.records@[j].player != *identity,
            decreases self.records@.len() - i,
        {
            if same_key(&self.records[i].player, identity) {
                return Some(i);
            }
            i += 1;
        }
        None
    }

    /// Whether `identity` has a record.
    pub fn contains(&self, identity: &Pubkey) -> (found: bool)
        requires
            self.wf(),
        ensures
            found == self@.contains_key(*identity),
    {
        self.find(identity).is_some()
    }

    /// The record of `identity`, or `NotFound` if there is none.
    pub fn get(&self, identity: &Pubkey) -> (result: Result<&PlayerAccount, GameError>)
        requires
            self.wf(),
        ensures
            result is Ok <==> self@.contains_key(*identity),
            result is Ok ==> result.unwrap()@ == self@[*identity],
            result is Err ==> result.unwrap_err() == GameError::NotFound,
    {
        match self.find(identity) {
            Some(slot) => Ok(&self.records[slot]),
            None => Err(GameError::NotFound),
        }
    }

    /// Registers `identity` at `now`, with the record of a player who has not played.
    ///
    /// Fails with `AlreadyExists`, and changes nothing, if `identity` has a record.
    pub fn create(&mut self, identity: Pubkey, now: i64) -> (result: Result<(), GameError>)
        requires
            old(self).wf(),
        ensures
            final(self).wf(),
            result is Ok <==> !old(self)@.contains_key(identity),
            result is Ok ==> final(self)@ == old(self)@.insert(
                identity,
                fresh_account(identity, now),
            ),
            result is Err ==> result.unwrap_err() == GameError::AlreadyExists && final(self)@
                == old(self)@,
    {
        if self.find(&identity).is_some() {
            return Err(GameError::AlreadyExists);
        }
        let account = initialize_player(identity, now);
        self.records.push(account);
        proof {
            let n = old(self).records@.len() as int;
            assert(self.records@[n].player == identity);
            assert forall|player: Pubkey|
                self.holds(player) <==> (player == identity || old(self).holds(player)) by {
                if old(self).holds(player) {
                    let i = old(self).slot_of(player);
                    assert(self.records@[i].player == player);
                }
            }
            let ghost grown = old(self)@.insert(identity, fresh_account(identity, now));
            assert forall|player: Pubkey| self.holds(player) implies #[trigger] self@[player]
                == grown[player] by {
                let i = self.slot_of(player);
                if player != identity {
                    assert(i < n);
                    assert(old(self).records@[i].player == player);
                    assert(old(self).slot_of(player) == i);
                }
            }
            assert(self@ =~= grown);
        }
        Ok(())
    }

    /// Replacing one record by a record of the same player keeps the store well formed
    /// and changes that player's entry only.
    proof fn lemma_replaced(before: PlayerRecordStore, after: PlayerRecordStore, slot: int)
        requires
            before.wf(),
            0 <= slot < before.records@.len(),
            after.records@.len() == before.records@.len(),
            after.records@[slot].player == before.records@[slot].player,
            after.records@[slot]@.wf(),
            forall|i: int|
                0 <= i < before.records@.len() && i != slot ==> after.records@[i]
                    == before.records@[i],
        ensures
            after.wf(),
            after@ == before@.insert(before.records@[slot].player, after.records@[slot]@),
            after.records@[slot]@ == before.records@[slot]@ ==> after@ == before@,
    {
        assert forall|i: int| 0 <= i < before.records@.len() implies after.records@[i].player
            == before.records@[i].player by {}
        assert forall|player: Pubkey| after.holds(player) <==> before.holds(player) by {
            if before.holds(player) {
                let i = before.slot_of(player);
                assert(after.records@[i].player == player);
            }
            if after.holds(player) {
                let i = after.slot_of(player);
                assert(before.records@[i].player == player);
            }
        }
        let key = before.records@[slot].player;
        assert(before.holds(key));
        assert forall|player: Pubkey| after.holds(player) implies #[trigger] after@[player]
            == before@.insert(key, after.records@[slot]@)[player] by {
            let i = after.slot_of(player);
            assert(before.records@[i].player == player);
            let j = before.slot_of(player);
            assert(i == j);
        }
        assert(after@ =~= before@.insert(key, after.records@[slot]@));
        if after.records@[slot]@ == before.records@[slot]@ {
            assert(before.slot_of(key) == slot);
            assert(after@ =~= before@);
        }
    }

    /// Gives the record of `identity` the name `name`.
    ///
    /// Fails with `NotFound` if `identity` has no record, and with `NameTooLong` if
    /// `name` takes more than `MAX_NAME_BYTES` bytes of UTF-8. A call that fails changes
    /// nothing.
    pub fn set_name(&mut self, identity: &Pubkey, name: String) -> (result: Result<(), GameError>)
        requires
            old(self).wf(),
        ensures
            final(self).wf(),
            result is Ok <==> old(self)@.contains_key(*identity) && encode_utf8(name@).len()
                <= MAX_NAME_BYTES,
            result is Ok ==> final(self)@ == old(self)@.insert(
                *identity,
                renamed(old(self)@[*identity], name@),
            ),
            result is Err ==> final(self)@ == old(self)@,
            result is Err ==> result.unwrap_err() == refusal(
                old(self)@.contains_key(*identity),
                GameError::NameTooLong,
            ),
    {
        match self.find(identity) {
            None => Err(GameError::NotFound),
            Some(slot) => {
                let result = set_player_name(&mut self.records[slot], name);
                proof {
                    Self::lemma_replaced(*old(self), *self, slot as int);
                }
                result
            },
        }
    }

    /// Adds the result of one game, finished at `now`, to the record of `identity`.
    ///
    /// Fails with `NotFound` if `identity` has no record, and with `CounterOverflow` if
    /// one of its counters would pass the largest 64-bit number. A call that fails
    /// changes nothing.
    pub fn apply_game_result(
        &mut self,
        identity: &Pubkey,
        score: u64,
        coal_collected: u64,
        ore_collected: u64,
        diamonds_collected: u64,
        enemies_defeated: u8,
        now: i64,
    ) -> (result: Result<(), GameError>)
        requires
            old(self).wf(),
        ensures
            final(self).wf(),
            result is Ok <==> old(self)@.contains_key(*identity) && after_game(
                old(self)@[*identity],
                score,
                coal_collected,
                ore_collected,
                diamonds_collected,
                enemies_defeated,
                now,
            ).counters_fit(),
            result is Ok ==> final(self)@ == old(self)@.insert(
                *identity,
                after_game(
                    old(self)@[*identity],
                    score,
                    coal_collected,
                    ore_collected,
                    diamonds_collected,
                    enemies_defeated,
                    now,
                ),
            ),
            result is Err ==> final(self)@ == old(self)@,
            result is Err ==> result.unwrap_err() == refusal(
                old(self)@.contains_key(*identity),
                GameError::CounterOverflow,
            ),
    {
        match self.find(identity) {
            None => Err(GameError::NotFound),
            Some(slot) => {
                let result = self.records[slot].apply_game_result(
                    score,
                    coal_collected,
                    ore_collected,
                    diamonds_collected,
                    enemies_defeated,
                    now,
                );
                proof {
                    Self::lemma_replaced(*old(self), *self, slot as int);
                }
                result
            },
        }
    }

    /// Records a game that `identity` finished at `now`, in the record and in the
    /// ranking.
    ///
    /// Fails with `NotFound` if `identity` has no record, and with `CounterOverflow` if
    /// one of its counters would pass the largest 64-bit number; then neither the store
    /// nor the ranking is changed. Otherwise the record takes the game in, a score above
    /// zero is offered to the ranking under the player's current name, and the notice of
    /// the game is returned.
    pub fn submit(
        &mut self,
        leaderboard: &mut Leaderboard,
        identity: &Pubkey,
        score: u64,
        coal_collected: u64,
        ore_collected: u64,
        diamonds_collected: u64,
        enemies_defeated: u8,
        now: i64,
    ) -> (result: Result<GameCompleted, GameError>)
        requires
            old(self).wf(),
            old(leaderboard).wf(),
        ensures
            final(self).wf(),
            final(leaderboard).wf(),
            result is Ok <==> old(self)@.contains_key(*identity) && after_game(
                old(self)@[*identity],
                score,
                coal_collected,
                ore_collected,
                diamonds_collected,
                enemies_defeated,
                now,
            ).counters_fit(),
            result is Ok ==> final(self)@ == old(self)@.insert(
                *identity,
                after_game(
                    old(self)@[*identity],
                    score,
                    coal_collected,
                    ore_collected,
                    diamonds_collected,
                    enemies_defeated,
                    now,
                ),
            ) && final(leaderboard)@ == with_score(
                old(leaderboard)@,
                entry_for(*identity, old(self)@[*identity].name, score, now),
            ) && result.unwrap() == (GameCompleted {
                player: *identity,
                score,
                coal_collected,
                ore_collected,
                diamonds_collected,
                enemies_defeated,
                timestamp: now,
            }),
            result is Err ==> final(self)@ == old(self)@,
            result is Err ==> *final(leaderboard) == *old(leaderboard),
            result is Err ==> result.unwrap_err() == refusal(
                old(self)@.contains_key(*identity),
                GameError::CounterOverflow,
            ),
            score == 0 ==> *final(leaderboard) == *old(leaderboard),
            forall|i: int|
                final(leaderboard).count <= i < CAPACITY ==> final(leaderboard).top_scores@[i]
                    == old(leaderboard).top_scores@[i],
            is_ranked(old(leaderboard)@) ==> is_ranked(final(leaderboard)@),
    {
        match self.find(identity) {
            None => Err(GameError::NotFound),
            Some(slot) => {
                let result = submit_game_result(
                    &mut self.records[slot],
                    leaderboard,
                    score,
                    coal_collected,
                    ore_collected,
                    diamonds_collected,
                    enemies_defeated,
                    now,
                );
                proof {
                    Self::lemma_replaced(*old(self), *self, slot as int);
                }
                result
            },
        }
    }

    /// Claims `amount` diamonds for `identity` and returns the order for the issuance
    /// service.
    ///
    /// Fails with `NotFound` if `identity` has no record, and with
    /// `InsufficientClaimable` if it has fewer than `amount` diamonds left to claim. A
    /// call that fails changes nothing.
    ///
    /// The token units of a claim that is granted must fit in 64 bits.
    pub fn claim(&mut self, identity: &Pubkey, amount: u64) -> (result: Result<
        IssuanceRequest,
        GameError,
    >)
        requires
            old(self).wf(),
            old(self)@.contains_key(*identity) && amount <= old(self)@[*identity].claimable()
                ==> amount * DIAMOND_UNIT_SCALE <= u64::MAX,
        ensures
            final(self).wf(),
            result is Ok <==> old(self)@.contains_key(*identity) && amount
                <= old(self)@[*identity].claimable(),
            result is Ok ==> final(self)@ == old(self)@.insert(
                *identity,
                after_claim(old(self)@[*identity], amount as nat),
            ) && result.unwrap() == (IssuanceRequest {
                recipient: *identity,
                unit_amount: (amount * DIAMOND_UNIT_SCALE) as u64,
            }),
            result is Err ==> final(self)@ == old(self)@,
            result is Err ==> result.unwrap_err() == refusal(
                old(self)@.contains_key(*identity),
                GameError::InsufficientClaimable,
            ),
    {
        match self.find(identity) {
            None => Err(GameError::NotFound),
            Some(slot) => {
                let result = mint_diamond_tokens(&mut self.records[slot], amount);
                proof {
                    Self::lemma_replaced(*old(self), *self, slot as int);
                }
                result
            },
        }
    }

    /// Closes a claim of `identity` once the issuance service has answered `request`.
    ///
    /// Fails with `NotFound`, and changes nothing, if `identity` has no record. If the
    /// tokens were issued, nothing changes either. If they were not, the diamonds of the
    /// request are taken off the claimed count of the record again, and the result is
    /// `IssuanceFailed`.
    ///
    /// A request can be taken back only from a record that counts its diamonds as
    /// claimed.
    pub fn settle(
        &mut self,
        identity: &Pubkey,
        request: &IssuanceRequest,
        issued: bool,
    ) -> (result: Result<(), GameError>)
        requires
            old(self).wf(),
            !issued && old(self)@.contains_key(*identity) ==> diamonds_of(*request)
                <= old(self)@[*identity].diamonds_claimed,
        ensures
            final(self).wf(),
            result is Ok <==> old(self)@.contains_key(*identity) && issued,
            result is Ok ==> final(self)@ == old(self)@,
            result is Err ==> result.unwrap_err() == refusal(
                old(self)@.contains_key(*identity),
                GameError::IssuanceFailed,
            ),
            !old(self)@.contains_key(*identity) ==> final(self)@ == old(self)@,
            !issued && old(self)@.contains_key(*identity) ==> final(self)@ == old(self)@.insert(
                *identity,
                after_refund(old(self)@[*identity], diamonds_of(*request)),
            ),
    {
        match self.find(identity) {
            None => Err(GameError::NotFound),
            Some(slot) => {
                let result = settle_issuance(&mut self.records[slot], request, issued);
                proof {
                    Self::lemma_replaced(*old(self), *self, slot as int);
                }
                result
            },
        }
    }
}

} // verus!
