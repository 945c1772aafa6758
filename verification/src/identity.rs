//! Player identities.
//!
//! A player is named by a `Pubkey`, a 32-byte key that the host hands in already
//! authenticated. The rules of the game never look inside a key: they store it,
//! copy it and compare it.
//!
//! The type is not defined here, and what this module says of it is believed, not
//! proved: that the default key is the key of 32 zero bytes, and that `==` on keys tells
//! whether two keys are the same.

use anchor_lang::prelude::Pubkey;
use vstd::prelude::*;

verus! {

/// Number of bytes in a key.
pub const KEY_BYTES: usize = 32;

/// Trusted: makes `anchor_lang::prelude::Pubkey` known to the verifier as a type whose
/// inside it does not see.
#[verifier::external_type_specification]
#[verifier::external_body]
pub struct ExPubkey(Pubkey);

/// The key whose bytes are `bytes`: what `Pubkey::new_from_array` returns for an array
/// that holds them. A key is its bytes and nothing else, so there is one such key.
pub uninterp spec fn key_of(bytes: Seq<u8>) -> Pubkey;

/// `KEY_BYTES` zero bytes.
pub open spec fn zero_bytes() -> Seq<u8> {
    Seq::new(KEY_BYTES as nat, |i: int| 0u8)
}

/// Trusted: `Pubkey::default()`. The type derives `Default` and has one field, an array
/// of 32 bytes, so the result is the key of 32 zero bytes.
#[verifier::external_body]
pub(crate) fn default_key() -> (key: Pubkey)
    ensures
        key == key_of(zero_bytes()),
{
    Pubkey::default()
}

/// Trusted: `==` on `Pubkey`. The type derives `PartialEq` and `Eq` and has one field,
/// its bytes, so two keys compare equal exactly when they are the same key.
#[verifier::external_body]
pub(crate) fn same_key(a: &Pubkey, b: &Pubkey) -> (same: bool)
    ensures
        same == (*a == *b),
{
    a == b
}

} // verus!
