//! The ledger as a mathematical value, and what each operation makes of it.

use vstd::prelude::*;
use crate::enumeration::swap_removed;
use crate::types::{AccountId, Balance, Error, Kitty, KittyId, Purchase};

verus! {

/// What a ledger holds: the record of each kitty, the owner of each kitty,
/// the enumeration of all kitties, and for every owner the enumeration of
/// the kitties that the owner holds (empty for an owner that holds none).
#[verifier::ext_equal]
pub struct LedgerView {
    pub kitties: Map<KittyId, Kitty<KittyId, Balance>>,
    pub owners: Map<KittyId, AccountId>,
    pub all: Seq<KittyId>,
    pub owned: Map<AccountId, Seq<KittyId>>,
}

impl LedgerView {
    /// The ledger in which nothing has been minted.
    pub open spec fn empty() -> LedgerView {
        LedgerView {
            kitties: Map::empty(),
            owners: Map::empty(),
            all: Seq::empty(),
            owned: Map::new(|who: AccountId| true, |who: AccountId| Seq::empty()),
        }
    }

    /// The owner of `id`, if it has been minted.
    pub open spec fn owner_of(self, id: KittyId) -> Option<AccountId> {
        if self.owners.contains_key(id) {
            Some(self.owners[id])
        } else {
            None
        }
    }

    /// The four parts agree: a kitty has a record exactly if it has an owner
    /// and exactly if it is enumerated, each record is kept under its own
    /// identifier, no enumeration lists a kitty twice or outgrows a `u64`
    /// count, and an owner's enumeration lists exactly the kitties whose
    /// recorded owner it is.
    pub open spec fn consistent(self) -> bool {
        &&& forall|who: AccountId| #[trigger] self.owned.contains_key(who)
        &&& self.all.no_duplicates()
        &&& self.all.len() <= u64::MAX
        &&& forall|id: KittyId|
            #![trigger self.kitties.contains_key(id)]
            #![trigger self.all.contains(id)]
            self.kitties.contains_key(id) <==> self.all.contains(id)
        &&& forall|id: KittyId|
            #![trigger self.owners.contains_key(id)]
            self.owners.contains_key(id) <==> self.all.contains(id)
        &&& forall|id: KittyId| #[trigger]
            self.kitties.contains_key(id) ==> self.kitties[id].id == id
        &&& forall|who: AccountId|
            (#[trigger] self.owned[who]).no_duplicates() && self.owned[who].len() <= u64::MAX
        &&& forall|who: AccountId, id: KittyId| #[trigger]
            self.owned[who].contains(id) <==> self.owners.contains_key(id) && self.owners[id]
                == who
    }

    /// Why minting `kitty` to `to` is refused, if it is.
    pub open spec fn mint_error(self, to: AccountId, kitty: Kitty<KittyId, Balance>) -> Option<
        Error,
    > {
        if self.kitties.contains_key(kitty.id) {
            Some(Error::AlreadyExists)
        } else if self.owned[to].len() >= u64::MAX {
            Some(Error::Overflow)
        } else if self.all.len() >= u64::MAX {
            Some(Error::Overflow)
        } else {
            None
        }
    }

    /// The ledger after `kitty` has been minted to `to`.
    pub open spec fn minted(self, to: AccountId, kitty: Kitty<KittyId, Balance>) -> LedgerView {
        LedgerView {
            kitties: self.kitties.insert(kitty.id, kitty),
            owners: self.owners.insert(kitty.id, to),
            all: self.all.push(kitty.id),
            owned: self.owned.insert(to, self.owned[to].push(kitty.id)),
        }
    }

    /// The ledger after the mints in `mints` have been asked for in order:
    /// each one that is not refused is carried out, a refused one changes
    /// nothing.
    pub open spec fn mint_each(self, mints: Seq<(AccountId, Kitty<KittyId, Balance>)>) -> LedgerView
        decreases mints.len(),
    {
        if mints.len() == 0 {
            self
        } else {
            let before = self.mint_each(mints.drop_last());
            let (to, kitty) = mints.last();
            if before.mint_error(to, kitty) is None {
                before.minted(to, kitty)
            } else {
                before
            }
        }
    }

    /// Why `caller` may not set the price of `id`, if that is so.
    pub open spec fn set_price_error(self, caller: AccountId, id: KittyId) -> Option<Error> {
        if !self.kitties.contains_key(id) {
            Some(Error::NotFound)
        } else if self.owner_of(id) != Some(caller) {
            Some(Error::NotOwner)
        } else {
            None
        }
    }

    /// The ledger after the price of `id` has been set to `price`.
    pub open spec fn priced(self, id: KittyId, price: Balance) -> LedgerView {
        let kitty = self.kitties[id];
        LedgerView {
            kitties: self.kitties.insert(
                kitty.id,
                Kitty { id: kitty.id, dna: kitty.dna, price: price, gen: kitty.gen },
            ),
            ..self
        }
    }

    /// Why `id` cannot pass from `from` to `to`, if that is so.
    pub open spec fn transfer_error(self, from: AccountId, to: AccountId, id: KittyId) -> Option<
        Error,
    > {
        if !self.owners.contains_key(id) {
            Some(Error::NotFound)
        } else if self.owners[id] != from {
            Some(Error::NotOwner)
        } else if self.owned[to].len() >= u64::MAX {
            Some(Error::Overflow)
        } else if self.owned[from].len() == 0 {
            Some(Error::Underflow)
        } else {
            None
        }
    }

    /// The ledger after `id` has passed from `from` to `to`: it leaves the
    /// enumeration of `from` by swap-and-pop and joins that of `to` at the
    /// end. The records and the enumeration of all kitties stay as they are.
    pub open spec fn transferred(self, from: AccountId, to: AccountId, id: KittyId) -> LedgerView {
        let left = self.owned.insert(from, swap_removed(self.owned[from], id));
        LedgerView {
            owners: self.owners.insert(id, to),
            owned: left.insert(to, left[to].push(id)),
            ..self
        }
    }

    /// Why `buyer` cannot buy `id` for at most `max_price`, if that is so.
    pub open spec fn buy_error(self, buyer: AccountId, id: KittyId, max_price: Balance) -> Option<
        Error,
    > {
        if !self.kitties.contains_key(id) {
            Some(Error::NotFound)
        } else if !self.owners.contains_key(id) {
            Some(Error::NotFound)
        } else if self.owners[id] == buyer {
            Some(Error::AlreadyOwner)
        } else if self.kitties[id].price == 0 {
            Some(Error::NotForSale)
        } else if self.kitties[id].price > max_price {
            Some(Error::PriceExceedsLimit)
        } else {
            None
        }
    }

    /// The purchase that `buyer` makes of `id`: the current owner sells, at
    /// the current price.
    pub open spec fn purchase(self, buyer: AccountId, id: KittyId) -> Purchase {
        Purchase { buyer: buyer, seller: self.owners[id], kitty: id, price: self.kitties[id].price }
    }

    /// `deal` is still the purchase that its buyer would make now.
    pub open spec fn stands(self, deal: Purchase) -> bool {
        &&& self.buy_error(deal.buyer, deal.kitty, deal.price) is None
        &&& self.purchase(deal.buyer, deal.kitty) == deal
    }

    /// The ledger after `deal` has been paid for: the kitty passes to the
    /// buyer and is no longer for sale.
    pub open spec fn bought(self, deal: Purchase) -> LedgerView {
        self.transferred(deal.seller, deal.buyer, deal.kitty).priced(deal.kitty, 0)
    }
}

} // verus!
