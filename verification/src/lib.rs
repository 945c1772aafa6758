//! Player statistics, a bounded high-score ranking and reward claims for a mining
//! game.
//!
//! Each player has a record of counters that only grow. The ranking keeps the best
//! scores in a table of fixed size, best first. A claim lets a player turn
//! collected diamonds into reward tokens, never more than were collected. Time, storage
//! and the token mint belong to the host: it hands in the time and the identities, and
//! carries out the orders that come back.

pub mod error;
pub mod game;
pub mod identity;
pub mod leaderboard;
pub mod player;
pub mod rewards;
pub mod store;

pub use error::GameError;
pub use game::{submit_game_result, GameCompleted};
pub use leaderboard::{initialize_leaderboard, Leaderboard, ScoreEntry, CAPACITY, NAME_WIDTH};
pub use player::{initialize_player, set_player_name, PlayerAccount, MAX_NAME_BYTES};
pub use rewards::{mint_diamond_tokens, settle_issuance, IssuanceRequest, DIAMOND_UNIT_SCALE};
pub use store::PlayerRecordStore;
