//! What happens when a game ends: the player's record and the ranking are brought up to
//! date together, or not at all.

use crate::error::GameError;
use crate::leaderboard::{
    is_ranked, padded_name, with_score, Leaderboard, ScoreEntryView, CAPACITY,
};
use crate::player::{after_game, PlayerAccount};
use anchor_lang::prelude::Pubkey;
use vstd::prelude::*;
use vstd::utf8::encode_utf8;

verus! {

/// The notice that a game was recorded, for whoever listens.
#[derive(Clone, Copy, Debug)]
pub struct GameCompleted {
    pub player: Pubkey,
    pub score: u64,
    pub coal_collected: u64,
    pub ore_collected: u64,
    pub diamonds_collected: u64,
    pub enemies_defeated: u8,
    pub timestamp: i64,
}

/// The entry that a game leaves in the ranking: the player's key and current name,
/// the score and the time.
pub open spec fn entry_for(player: Pubkey, name: Seq<char>, score: u64, now: i64) -> ScoreEntryView
{
    ScoreEntryView { player, score, timestamp: now, player_name: padded_name(encode_utf8(name)) }
}

/// Records a game that the player of `player_account` finished at `now`.
///
/// Fails with `CounterOverflow` if a counter of the record would pass the largest
/// 64-bit number; then neither the record nor the ranking is changed. Otherwise the
/// record takes the game in, a score above zero is offered to the ranking under the
/// player's current name, and the notice of the game is returned.
pub fn submit_game_result(
    player_account: &mut PlayerAccount,
    leaderboard: &mut Leaderboard,
    score: u64,
    coal_collected: u64,
    ore_collected: u64,
    diamonds_collected: u64,
    enemies_defeated: u8,
    now: i64,
) -> (result: Result<GameCompleted, GameError>)
    requires
        old(leaderboard).wf(),
    ensures
        result is Ok <==> after_game(
            old(player_account)@,
            score,
            coal_collected,
            ore_collected,
            diamonds_collected,
            enemies_defeated,
            now,
        ).counters_fit(),
        result is Ok ==> final(player_account)@ == after_game(
            old(player_account)@,
            score,
            coal_collected,
            ore_collected,
            diamonds_collected,
            enemies_defeated,
            now,
        ) && final(leaderboard)@ == with_score(
            old(leaderboard)@,
            entry_for(old(player_account).player, old(player_account)@.name, score, now),
        ) && result.unwrap() == (GameCompleted {
            player: old(player_account).player,
            score,
            coal_collected,
            ore_collected,
            diamonds_collected,
            enemies_defeated,
            timestamp: now,
        }),
        result is Err ==> result.unwrap_err() == GameError::CounterOverflow,
        result is Err ==> *final(player_account) == *old(player_account),
        result is Err ==> *final(leaderboard) == *old(leaderboard),
        score == 0 ==> *final(leaderboard) == *old(leaderboard),
        final(leaderboard).wf(),
        forall|i: int|
            final(leaderboard).count <= i < CAPACITY ==> final(leaderboard).top_scores@[i]
                == old(leaderboard).top_scores@[i],
        is_ranked(old(leaderboard)@) ==> is_ranked(final(leaderboard)@),
        old(player_account)@.wf() ==> final(player_account)@.wf(),
{
    match player_account.apply_game_result(
        score,
        coal_collected,
        ore_collected,
        diamonds_collected,
        enemies_defeated,
        now,
    ) {
        Ok(()) => {},
        Err(error) => { return Err(error); },
    }
    if score > 0 {
        leaderboard.add_score(player_account.player, score, player_account.name.clone(), now);
    }
    Ok(
        GameCompleted {
            player: player_account.player,
            score,
            coal_collected,
            ore_collected,
            diamonds_collected,
            enemies_defeated,
            timestamp: now,
        },
    )
}

} // verus!
