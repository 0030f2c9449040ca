//! The two keyed records of the ledger: the kitties, and who owns each.

use vstd::prelude::*;
use std::collections::HashMap;
use crate::types::{AccountId, Balance, Kitty, KittyId};

verus! {

broadcast use vstd::std_specs::hash::group_hash_axioms;

/// The record of every kitty, keyed by identifier.
///
/// Its view is the map from identifier to record.
pub struct AssetStore {
    records: HashMap<KittyId, Kitty<KittyId, Balance>>,
}

impl View for AssetStore {
    type V = Map<KittyId, Kitty<KittyId, Balance>>;

    closed spec fn view(&self) -> Map<KittyId, Kitty<KittyId, Balance>> {
        self.records@
    }
}

impl AssetStore {
    /// A store with no record in it.
    pub fn new() -> (r: Self)
        ensures
            r@ == Map::<KittyId, Kitty<KittyId, Balance>>::empty(),
    {
        AssetStore { records: HashMap::new() }
    }

    /// Whether a record is kept under `id`.
    pub fn contains(&self, id: KittyId) -> (b: bool)
        ensures
            b == self@.contains_key(id),
    {
        self.records.contains_key(&id)
    }

    /// The record kept under `id`, if there is one.
    pub fn get(&self, id: KittyId) -> (r: Option<Kitty<KittyId, Balance>>)
        ensures
            r == (if self@.contains_key(id) {
                Some(self@[id])
            } else {
                None
            }),
    {
        match self.records.get(&id) {
            Some(kitty) => Some(*kitty),
            None => None,
        }
    }

    /// Keeps `kitty` under `id`, in place of what was kept there before.
    pub fn put(&mut self, id: KittyId, kitty: Kitty<KittyId, Balance>)
        ensures
            final(self)@ == old(self)@.insert(id, kitty),
    {
        self.records.insert(id, kitty);
    }
}

/// The owner of every kitty, keyed by the kitty's identifier.
///
/// Its view is the map from identifier to owner; a kitty that is not a key
/// has no owner.
pub struct OwnershipIndex {
    owners: HashMap<KittyId, AccountId>,
}

impl View for OwnershipIndex {
    type V = Map<KittyId, AccountId>;

    closed spec fn view(&self) -> Map<KittyId, AccountId> {
        self.owners@
    }
}

impl OwnershipIndex {
    /// An index in which no kitty has an owner.
    pub fn new() -> (r: Self)
        ensures
            r@ == Map::<KittyId, AccountId>::empty(),
    {
        OwnershipIndex { owners: HashMap::new() }
    }

    /// The owner of `id`, if it has one.
    pub fn owner_of(&self, id: KittyId) -> (r: Option<AccountId>)
        ensures
            r == (if self@.contains_key(id) {
                Some(self@[id])
            } else {
                None
            }),
    {
        match self.owners.get(&id) {
            Some(owner) => Some(*owner),
            None => None,
        }
    }

    /// Makes `owner` the owner of `id`.
    pub fn set_owner(&mut self, id: KittyId, owner: AccountId)
        ensures
            final(self)@ == old(self)@.insert(id, owner),
    {
        self.owners.insert(id, owner);
    }
}

} // verus!
