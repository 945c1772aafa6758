//! The ways in which an operation can be turned down.

use vstd::prelude::*;

verus! {

/// Why an operation was turned down. Nothing is changed by an operation that returns
/// one of these, with one exception that `settle_issuance` documents.
#[derive(Clone, Copy, Debug, PartialEq, Eq, Structural)]
pub enum GameError {
    /// A record for this player exists already.
    AlreadyExists,
    /// There is no record for this player.
    NotFound,
    /// The name is longer than a record can hold.
    NameTooLong,
    /// A counter of the record would pass the largest 64-bit number.
    CounterOverflow,
    /// More diamonds were asked for than the player has left to claim.
    InsufficientClaimable,
    /// The issuance service did not issue the tokens.
    IssuanceFailed,
}

} // verus!
