//! The plain values that the ledger works on.

use vstd::prelude::*;

verus! {

/// Identifier of a kitty: an opaque fixed-width value.
pub type KittyId = u128;

/// Identifier of an owner.
pub type AccountId = u64;

/// A monetary amount. Zero as a price means "not for sale".
pub type Balance = u128;

/// The record of one kitty.
///
/// `id` and `dna` are fixed when the kitty is created, `gen` is carried
/// through unchanged, and `price` is the only field that operations rewrite.
#[derive(Debug, PartialEq, Eq, Default)]
pub struct Kitty<Hash, Balance> {
    pub id: Hash,
    pub dna: Hash,
    pub price: Balance,
    pub gen: u64,
}

impl<Hash: Copy, Balance: Copy> Clone for Kitty<Hash, Balance> {
    fn clone(&self) -> (r: Self)
        ensures
            r == *self,
    {
        Kitty { id: self.id, dna: self.dna, price: self.price, gen: self.gen }
    }
}

impl<Hash: Copy, Balance: Copy> Copy for Kitty<Hash, Balance> {

}

/// A purchase that the ledger has agreed to and that waits for its payment:
/// `buyer` is to pay `price` to `seller` for `kitty`.
#[derive(Clone, Copy, Debug, PartialEq, Eq, Structural)]
pub struct Purchase {
    pub buyer: AccountId,
    pub seller: AccountId,
    pub kitty: KittyId,
    pub price: Balance,
}

/// Why an operation was refused.
#[derive(Clone, Copy, Debug, PartialEq, Eq, Structural)]
pub enum Error {
    /// No kitty has this identifier.
    NotFound,
    /// A kitty with this identifier was minted before.
    AlreadyExists,
    /// The caller does not own the kitty.
    NotOwner,
    /// The caller already owns the kitty.
    AlreadyOwner,
    /// A count is at the largest value it can hold.
    Overflow,
    /// A count is zero and cannot be lowered.
    Underflow,
    /// The price of the kitty is zero.
    NotForSale,
    /// The price of the kitty is above the limit that the buyer set.
    PriceExceedsLimit,
    /// The payment for a purchase did not go through.
    PaymentFailed,
    /// The ledger no longer matches the purchase that was paid for.
    InvariantViolation,
}

/// What happened, for the host to announce.
#[derive(Clone, Copy, Debug, PartialEq, Eq, Structural)]
pub enum Event {
    /// A kitty was minted: its owner and its identifier.
    Created(AccountId, KittyId),
    /// A price was set: the owner, the kitty and the new price.
    PriceSet(AccountId, KittyId, Balance),
    /// A kitty changed hands: the former owner, the new owner and the kitty.
    Transferred(AccountId, AccountId, KittyId),
    /// A kitty was bought: the buyer, the seller, the kitty and the price paid.
    Bought(AccountId, AccountId, KittyId, Balance),
}

} // verus!
