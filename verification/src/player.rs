//! The record kept for each player: who they are, what they have collected over all
//! their games, and how much of it they have claimed.

use crate::error::GameError;
use anchor_lang::prelude::Pubkey;
use vstd::prelude::*;
use vstd::utf8::encode_utf8;

verus! {

/// Longest name, in bytes of UTF-8, that a record holds.
pub const MAX_NAME_BYTES: usize = 32;

/// A record as a mathematical value: counters are natural numbers, free of machine
/// limits, and the name is a sequence of characters.
pub struct PlayerAccountView {
    pub player: Pubkey,
    pub name: Seq<char>,
    pub games_played: nat,
    pub total_score: nat,
    pub high_score: nat,
    pub total_coal: nat,
    pub total_ore: nat,
    pub total_diamonds: nat,
    pub diamonds_claimed: nat,
    pub total_enemies_defeated: nat,
    pub joined_timestamp: int,
    pub last_game_timestamp: int,
}

/// The record of one player.
#[derive(Debug)]
pub struct PlayerAccount {
    pub player: Pubkey,
    pub name: String,
    pub games_played: u64,
    pub total_score: u64,
    pub high_score: u64,
    pub total_coal: u64,
    pub total_ore: u64,
    pub total_diamonds: u64,
    pub diamonds_claimed: u64,
    pub total_enemies_defeated: u64,
    pub joined_timestamp: i64,
    pub last_game_timestamp: i64,
}

impl View for PlayerAccount {
    type V = PlayerAccountView;

    open spec fn view(&self) -> PlayerAccountView {
        PlayerAccountView {
            player: self.player,
            name: self.name@,
            games_played: self.games_played as nat,
            total_score: self.total_score as nat,
            high_score: self.high_score as nat,
            total_coal: self.total_coal as nat,
            total_ore: self.total_ore as nat,
            total_diamonds: self.total_diamonds as nat,
            diamonds_claimed: self.diamonds_claimed as nat,
            total_enemies_defeated: self.total_enemies_defeated as nat,
            joined_timestamp: self.joined_timestamp as int,
            last_game_timestamp: self.last_game_timestamp as int,
        }
    }
}

impl PlayerAccountView {
    /// What holds of every record that the operations of this crate have made: no more
    /// is claimed than was collected, no single game scored more than all games
    /// together, and the name fits.
    pub open spec fn wf(self) -> bool {
        &&& self.diamonds_claimed <= self.total_diamonds
        &&& self.high_score <= self.total_score
        &&& encode_utf8(self.name).len() <= MAX_NAME_BYTES
    }

    /// Every counter can be held in 64 bits.
    pub open spec fn counters_fit(self) -> bool {
        &&& self.games_played <= u64::MAX
        &&& self.total_score <= u64::MAX
        &&& self.total_coal <= u64::MAX
        &&& self.total_ore <= u64::MAX
        &&& self.total_diamonds <= u64::MAX
        &&& self.total_enemies_defeated <= u64::MAX
    }

    /// Diamonds collected and not yet claimed.
    pub open spec fn claimable(self) -> nat {
        if self.total_diamonds >= self.diamonds_claimed {
            (self.total_diamonds - self.diamonds_claimed) as nat
        } else {
            0
        }
    }
}

/// The record of a player who registered at `now` and has not played yet.
pub open spec fn fresh_account(player: Pubkey, now: i64) -> PlayerAccountView {
    PlayerAccountView {
        player,
        name: Seq::empty(),
        games_played: 0,
        total_score: 0,
        high_score: 0,
        total_coal: 0,
        total_ore: 0,
        total_diamonds: 0,
        diamonds_claimed: 0,
        total_enemies_defeated: 0,
        joined_timestamp: now as int,
        last_game_timestamp: 0,
    }
}

/// The record after one more game, finished at `now`: one game more, each total raised
/// by what the game brought, and the best score raised to `score` if that is higher.
pub open spec fn after_game(
    account: PlayerAccountView,
    score: u64,
    coal_collected: u64,
    ore_collected: u64,
    diamonds_collected: u64,
    enemies_defeated: u8,
    now: i64,
) -> PlayerAccountView {
    PlayerAccountView {
        games_played: account.games_played + 1,
        total_score: (account.total_score + score) as nat,
        high_score: if score > account.high_score {
            score as nat
        } else {
            account.high_score
        },
        total_coal: (account.total_coal + coal_collected) as nat,
        total_ore: (account.total_ore + ore_collected) as nat,
        total_diamonds: (account.total_diamonds + diamonds_collected) as nat,
        total_enemies_defeated: (account.total_enemies_defeated + enemies_defeated) as nat,
        last_game_timestamp: now as int,
        ..account
    }
}

/// A game never lowers a counter, and it keeps a well-formed record well formed.
pub proof fn lemma_after_game_only_grows(
    account: PlayerAccountView,
    score: u64,
    coal_collected: u64,
    ore_collected: u64,
    diamonds_collected: u64,
    enemies_defeated: u8,
    now: i64,
)
    ensures
        ({
            let after = after_game(
                account,
                score,
                coal_collected,
                ore_collected,
                diamonds_collected,
                enemies_defeated,
                now,
            );
            &&& after.games_played == account.games_played + 1
            &&& after.total_score >= account.total_score
            &&& after.high_score >= account.high_score
            &&& after.high_score >= score
            &&& after.total_coal >= account.total_coal
            &&& after.total_ore >= account.total_ore
            &&& after.total_diamonds >= account.total_diamonds
            &&& after.total_enemies_defeated >= account.total_enemies_defeated
            &&& after.diamonds_claimed == account.diamonds_claimed
            &&& account.wf() ==> after.wf()
        }),
{
}

/// The record under another name.
pub open spec fn renamed(account: PlayerAccountView, name: Seq<char>) -> PlayerAccountView {
    PlayerAccountView { name, ..account }
}

impl PlayerAccount {
    /// Diamonds collected and not yet claimed; zero for a record that claims more than
    /// it collected.
    pub fn claimable_diamonds(&self) -> (claimable: u64)
        ensures
            claimable == self@.claimable(),
    {
        self.total_diamonds.saturating_sub(self.diamonds_claimed)
    }

    /// Adds the result of one game, finished at `now`, to the record.
    ///
    /// Fails with `CounterOverflow`, and changes nothing, if one of the counters would
    /// pass the largest 64-bit number.
    pub fn apply_game_result(
        &mut self,
        score: u64,
        coal_collected: u64,
        ore_collected: u64,
        diamonds_collected: u64,
        enemies_defeated: u8,
        now: i64,
    ) -> (result: Result<(), GameError>)
        ensures
            result is Ok <==> after_game(
                old(self)@,
                score,
                coal_collected,
                ore_collected,
                diamonds_collected,
                enemies_defeated,
                now,
            ).counters_fit(),
            result is Ok ==> final(self)@ == after_game(
                old(self)@,
                score,
                coal_collected,
                ore_collected,
                diamonds_collected,
                enemies_defeated,
                now,
            ),
            result is Err ==> result.unwrap_err() == GameError::CounterOverflow && *final(self)
                == *old(self),
            old(self)@.wf() ==> final(self)@.wf(),
    {
        let games_played = match self.games_played.checked_add(1) {
            Some(sum) => sum,
            None => { return Err(GameError::CounterOverflow); },
        };
        let total_score = match self.total_score.checked_add(score) {
            Some(sum) => sum,
            None => { return Err(GameError::CounterOverflow); },
        };
        let total_coal = match self.total_coal.checked_add(coal_collected) {
            Some(sum) => sum,
            None => { return Err(GameError::CounterOverflow); },
        };
        let total_ore = match self.total_ore.checked_add(ore_collected) {
            Some(sum) => sum,
            None => { return Err(GameError::CounterOverflow); },
        };
        let total_diamonds = match self.total_diamonds.checked_add(diamonds_collected) {
            Some(sum) => sum,
            None => { return Err(GameError::CounterOverflow); },
        };
        let total_enemies_defeated = match self.total_enemies_defeated.checked_add(
            enemies_defeated as u64,
        ) {
            Some(sum) => sum,
            None => { return Err(GameError::CounterOverflow); },
        };
        self.games_played = games_played;
        self.total_score = total_score;
        self.total_coal = total_coal;
        self.total_ore = total_ore;
        self.total_diamonds = total_diamonds;
        self.total_enemies_defeated = total_enemies_defeated;
        if score > self.high_score {
            self.high_score = score;
        }
        self.last_game_timestamp = now;
        Ok(())
    }
}

/// The record of a player who registers at `now`: no name, no game, nothing collected.
pub fn initialize_player(player: Pubkey, now: i64) -> (account: PlayerAccount)
    ensures
        account@ == fresh_account(player, now),
        account@.wf(),
{
    let account = PlayerAccount {
        player,
        name: String::new(),
        games_played: 0,
        total_score: 0,
        high_score: 0,
        total_coal: 0,
        total_ore: 0,
        total_diamonds: 0,
        diamonds_claimed: 0,
        total_enemies_defeated: 0,
        joined_timestamp: now,
        last_game_timestamp: 0,
    };
    proof {
        assert(encode_utf8(Seq::<char>::empty()).len() == 0) by {
            reveal_with_fuel(encode_utf8, 1);
        }
    }
    account
}

/// Gives the record the name `name`.
///
/// Fails with `NameTooLong`, and keeps the old name, if `name` takes more than
/// `MAX_NAME_BYTES` bytes of UTF-8.
pub fn set_player_name(player_account: &mut PlayerAccount, name: String) -> (result: Result<
    (),
    GameError,
>)
    ensures
        result is Ok <==> encode_utf8(name@).len() <= MAX_NAME_BYTES,
        result is Ok ==> final(player_account)@ == renamed(old(player_account)@, name@),
        result is Err ==> result.unwrap_err() == GameError::NameTooLong && *final(player_account)
            == *old(player_account),
        old(player_account)@.wf() ==> final(player_account)@.wf(),
{
    if name.as_str().as_bytes().len() > MAX_NAME_BYTES {
        return Err(GameError::NameTooLong);
    }
    player_account.name = name;
    Ok(())
}

} // verus!
