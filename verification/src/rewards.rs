//! Reward claims: how many reward tokens may be issued to a player, and the count of what
//! was claimed. Nothing is issued here; the token mint belongs to the host.

use crate::error::GameError;
use crate::player::{PlayerAccount, PlayerAccountView};
use anchor_lang::prelude::Pubkey;
use vstd::prelude::*;

verus! {

/// Token units issued for one diamond: the token has nine decimal places.
pub const DIAMOND_UNIT_SCALE: u64 = 1_000_000_000;

/// An order to the issuance service: issue `unit_amount` token units to `recipient`.
#[derive(Clone, Copy, Debug)]
pub struct IssuanceRequest {
    pub recipient: Pubkey,
    pub unit_amount: u64,
}

/// The record after `amount` more diamonds were claimed.
pub open spec fn after_claim(account: PlayerAccountView, amount: nat) -> PlayerAccountView {
    PlayerAccountView { diamonds_claimed: account.diamonds_claimed + amount, ..account }
}

/// The record after a claim of `amount` diamonds was taken back.
pub open spec fn after_refund(account: PlayerAccountView, amount: nat) -> PlayerAccountView {
    PlayerAccountView {
        diamonds_claimed: (account.diamonds_claimed - amount) as nat,
        ..account
    }
}

/// The diamonds that a request stands for.
pub open spec fn diamonds_of(request: IssuanceRequest) -> nat {
    (request.unit_amount / DIAMOND_UNIT_SCALE) as nat
}

/// Claims `amount` diamonds for the player of `player_account` and returns the order
/// for the issuance service.
///
/// Fails with `InsufficientClaimable`, and changes nothing, if the player has fewer
/// than `amount` diamonds left to claim. Otherwise the diamonds count as claimed from
/// now on; if the service then fails to issue, hand the request to `settle_issuance`.
///
/// The token units of a claim that is granted must fit in 64 bits.
pub fn mint_diamond_tokens(player_account: &mut PlayerAccount, amount: u64) -> (result: Result<
    IssuanceRequest,
    GameError,
>)
    requires
        amount <= old(player_account)@.claimable() ==> amount * DIAMOND_UNIT_SCALE <= u64::MAX,
    ensures
        result is Ok <==> amount <= old(player_account)@.claimable(),
        result is Ok ==> final(player_account)@ == after_claim(
            old(player_account)@,
            amount as nat,
        ) && result.unwrap() == (IssuanceRequest {
            recipient: old(player_account).player,
            unit_amount: (amount * DIAMOND_UNIT_SCALE) as u64,
        }),
        result is Err ==> result.unwrap_err() == GameError::InsufficientClaimable,
        result is Err ==> *final(player_account) == *old(player_account),
        old(player_account)@.wf() ==> final(player_account)@.wf(),
{
    if amount > player_account.claimable_diamonds() {
        return Err(GameError::InsufficientClaimable);
    }
    let unit_amount = amount * DIAMOND_UNIT_SCALE;
    player_account.diamonds_claimed = player_account.diamonds_claimed + amount;
    Ok(IssuanceRequest { recipient: player_account.player, unit_amount })
}

/// Closes a claim once the issuance service has answered `request`.
///
/// If the tokens were issued, the record stays as the claim left it. If they were not,
/// the diamonds of the request are taken off the claimed count again, so that they can
/// be claimed anew, and the result is `IssuanceFailed`.
///
/// A request can be taken back only from a record that counts its diamonds as claimed.
pub fn settle_issuance(
    player_account: &mut PlayerAccount,
    request: &IssuanceRequest,
    issued: bool,
) -> (result: Result<(), GameError>)
    requires
        !issued ==> diamonds_of(*request) <= old(player_account)@.diamonds_claimed,
    ensures
        result is Ok <==> issued,
        issued ==> *final(player_account) == *old(player_account),
        !issued ==> result.unwrap_err() == GameError::IssuanceFailed && final(player_account)@
            == after_refund(old(player_account)@, diamonds_of(*request)),
        old(player_account)@.wf() ==> final(player_account)@.wf(),
{
    if issued {
        return Ok(());
    }
    let diamonds = request.unit_amount / DIAMOND_UNIT_SCALE;
    player_account.diamonds_claimed = player_account.diamonds_claimed - diamonds;
    Err(GameError::IssuanceFailed)
}

/// Two claims in a row: the second is granted after the first exactly if both together
/// fit in what was left to claim, and then both are counted.
pub proof fn lemma_two_claims(account: PlayerAccountView, first: nat, second: nat)
    requires
        account.diamonds_claimed <= account.total_diamonds,
    ensures
        (first <= account.claimable() && second <= after_claim(account, first).claimable())
            <==> first + second <= account.total_diamonds - account.diamonds_claimed,
        after_claim(after_claim(account, first), second).diamonds_claimed
            == account.diamonds_claimed + first + second,
{
}

/// A claim never lets the claimed count pass what was collected.
pub proof fn lemma_claim_is_bounded(account: PlayerAccountView, amount: nat)
    requires
        account.diamonds_claimed <= account.total_diamonds,
        amount <= account.claimable(),
    ensures
        after_claim(account, amount).diamonds_claimed <= account.total_diamonds,
        after_claim(account, amount).claimable() == account.claimable() - amount,
{
}

/// A claim that is taken back leaves the record as it was before the claim.
pub proof fn lemma_refund_undoes_claim(account: PlayerAccountView, amount: nat)
    ensures
        after_refund(after_claim(account, amount), amount) == account,
{
}

} // verus!
