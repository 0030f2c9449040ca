//! The ledger itself: minting, pricing, transfer and purchase.

use vstd::prelude::*;
use std::collections::HashMap;
use crate::enumeration::EnumerationIndex;
use crate::laws::{
    lemma_minted_consistent, lemma_priced_consistent, lemma_standing_purchase_transfers,
    lemma_transferred_consistent,
};
use crate::model::LedgerView;
use crate::store::{AssetStore, OwnershipIndex};
use crate::types::{AccountId, Balance, Error, Event, Kitty, KittyId, Purchase};

verus! {

broadcast use vstd::std_specs::hash::group_hash_axioms;

/// The state of the ledger. It is made once, empty, and changed only by the
/// operations below.
pub struct Ledger {
    kitties: AssetStore,
    owners: OwnershipIndex,
    all: EnumerationIndex,
    owned: HashMap<AccountId, EnumerationIndex>,
}

/// The enumeration kept for `who`, or the empty one where none is kept yet.
spec fn listed(owned: Map<AccountId, EnumerationIndex>, who: AccountId) -> Seq<KittyId> {
    if owned.contains_key(who) {
        owned[who]@
    } else {
        Seq::empty()
    }
}

/// Every enumeration that is kept is well formed.
spec fn all_wf(owned: Map<AccountId, EnumerationIndex>) -> bool {
    forall|who: AccountId| #[trigger] owned.contains_key(who) ==> owned[who].wf()
}

/// Takes the enumeration of `who` out of `owned`, making one if none is kept.
fn take_index(owned: &mut HashMap<AccountId, EnumerationIndex>, who: AccountId) -> (index:
    EnumerationIndex)
    requires
        all_wf(old(owned)@),
    ensures
        index.wf(),
        index@ == listed(old(owned)@, who),
        final(owned)@ == old(owned)@.remove(who),
{
    match owned.remove(&who) {
        Some(index) => index,
        None => EnumerationIndex::new(),
    }
}

impl View for Ledger {
    type V = LedgerView;

    closed spec fn view(&self) -> LedgerView {
        LedgerView {
            kitties: self.kitties@,
            owners: self.owners@,
            all: self.all@,
            owned: Map::new(|who: AccountId| true, |who: AccountId| listed(self.owned@, who)),
        }
    }
}

impl Ledger {
    /// The enumerations inside the ledger are well formed.
    pub closed spec fn indexed(&self) -> bool {
        &&& self.all.wf()
        &&& all_wf(self.owned@)
    }

    /// The ledger is in order: its enumerations are well formed and its
    /// parts agree with each other.
    pub open spec fn wf(&self) -> bool {
        &&& self.indexed()
        &&& self@.consistent()
    }

    /// A ledger in which nothing has been minted.
    pub fn new() -> (r: Self)
        ensures
            r.wf(),
            r@ == LedgerView::empty(),
    {
        let r = Ledger {
            kitties: AssetStore::new(),
            owners: OwnershipIndex::new(),
            all: EnumerationIndex::new(),
            owned: HashMap::new(),
        };
        assert(r@ =~~= LedgerView::empty());
        r
    }

    /// The record of `id`, if it has been minted.
    pub fn kitty(&self, id: KittyId) -> (r: Option<Kitty<KittyId, Balance>>)
        ensures
            r == (if self@.kitties.contains_key(id) {
                Some(self@.kitties[id])
            } else {
                None
            }),
    {
        self.kitties.get(id)
    }

    /// The owner of `id`, if it has been minted.
    pub fn owner_of(&self, id: KittyId) -> (r: Option<AccountId>)
        ensures
            r == self@.owner_of(id),
    {
        self.owners.owner_of(id)
    }

    /// How many kitties have been minted.
    pub fn all_kitties_count(&self) -> (n: u64)
        requires
            self.wf(),
        ensures
            n == self@.all.len(),
    {
        self.all.count()
    }

    /// The kitty at `index` in the enumeration of all kitties, if there are
    /// that many.
    pub fn kitty_by_index(&self, index: u64) -> (r: Option<KittyId>)
        requires
            self.wf(),
        ensures
            r == (if index < self@.all.len() {
                Some(self@.all[index as int])
            } else {
                None
            }),
    {
        self.all.at(index)
    }

    /// How many kitties `who` owns.
    pub fn owned_kitty_count(&self, who: AccountId) -> (n: u64)
        requires
            self.wf(),
        ensures
            n == self@.owned[who].len(),
    {
        match self.owned.get(&who) {
            Some(index) => index.count(),
            None => 0,
        }
    }

    /// The kitty at `index` in the enumeration of those that `who` owns, if
    /// `who` owns that many.
    pub fn kitty_of_owner_by_index(&self, who: AccountId, index: u64) -> (r: Option<KittyId>)
        requires
            self.wf(),
        ensures
            r == (if index < self@.owned[who].len() {
                Some(self@.owned[who][index as int])
            } else {
                None
            }),
    {
        match self.owned.get(&who) {
            Some(list) => list.at(index),
            None => None,
        }
    }

    /// Mints `kitty` to `to`: records it, makes `to` its owner and lists it
    /// in both enumerations. Refused, with nothing changed, if a kitty with
    /// that identifier exists or a count is at its largest value.
    pub fn mint(&mut self, to: AccountId, kitty: Kitty<KittyId, Balance>) -> (r: Result<
        Event,
        Error,
    >)
        requires
            old(self).wf(),
        ensures
            final(self).wf(),
            match r {
                Ok(event) => old(self)@.mint_error(to, kitty) is None && final(self)@ == old(
                    self,
                )@.minted(to, kitty) && event == Event::Created(to, kitty.id),
                Err(e) => old(self)@.mint_error(to, kitty) == Some(e) && final(self)@ == old(
                    self,
                )@,
            },
            old(self)@.kitties.contains_key(kitty.id) ==> r == Err::<Event, Error>(
                Error::AlreadyExists,
            ) && final(self)@ == old(self)@,
    {
        if self.kitties.contains(kitty.id) {
            return Err(Error::AlreadyExists);
        }
        let owned_count: u64 = self.owned_kitty_count(to);
        if owned_count.checked_add(1).is_none() {
            return Err(Error::Overflow);
        }
        let all_count: u64 = self.all_kitties_count();
        if all_count.checked_add(1).is_none() {
            return Err(Error::Overflow);
        }
        self.kitties.put(kitty.id, kitty);
        self.owners.set_owner(kitty.id, to);
        let listed_in_all = self.all.append(kitty.id);
        let mut list = take_index(&mut self.owned, to);
        let listed_in_owned = list.append(kitty.id);
        self.owned.insert(to, list);
        proof {
            assert(listed_in_all is Ok && listed_in_owned is Ok);
            let before = old(self)@;
            let after = self@;
            let goal = before.minted(to, kitty);
            assert forall|who: AccountId| after.owned[who] == goal.owned[who] by {}
            assert(after.owned =~= goal.owned);
            assert(after =~~= goal);
            lemma_minted_consistent(before, to, kitty);
        }
        Ok(Event::Created(to, kitty.id))
    }

    /// Sets the price of `id` to `new_price`, for its owner only. A price of
    /// zero takes the kitty off sale.
    pub fn set_price(&mut self, caller: AccountId, id: KittyId, new_price: Balance) -> (r: Result<
        Event,
        Error,
    >)
        requires
            old(self).wf(),
        ensures
            final(self).wf(),
            match r {
                Ok(event) => old(self)@.set_price_error(caller, id) is None && final(self)@ == old(
                    self,
                )@.priced(id, new_price) && event == Event::PriceSet(caller, id, new_price),
                Err(e) => old(self)@.set_price_error(caller, id) == Some(e) && final(self)@ == old(
                    self,
                )@,
            },
    {
        let kitty = match self.kitties.get(id) {
            Some(kitty) => kitty,
            None => { return Err(Error::NotFound); },
        };
        if self.owners.owner_of(id) != Some(caller) {
            return Err(Error::NotOwner);
        }
        let priced = Kitty { id: kitty.id, dna: kitty.dna, price: new_price, gen: kitty.gen };
        self.kitties.put(priced.id, priced);
        proof {
            assert(self@ =~~= old(self)@.priced(id, new_price));
            lemma_priced_consistent(old(self)@, id, new_price);
        }
        Ok(Event::PriceSet(caller, id, new_price))
    }

    /// Passes `id` from `from` to `to`: it leaves the enumeration of `from`
    /// by swap-and-pop and joins that of `to` at the end. The enumeration of
    /// all kitties is not touched. Refused, with nothing changed, unless
    /// `from` owns `id` and the counts allow it.
    pub fn transfer_from(&mut self, from: AccountId, to: AccountId, id: KittyId) -> (r: Result<
        Event,
        Error,
    >)
        requires
            old(self).wf(),
        ensures
            final(self).wf(),
            match r {
                Ok(event) => old(self)@.transfer_error(from, to, id) is None && final(self)@
                    == old(self)@.transferred(from, to, id) && event == Event::Transferred(
                    from,
                    to,
                    id,
                ),
                Err(e) => old(self)@.transfer_error(from, to, id) == Some(e) && final(self)@
                    == old(self)@,
            },
            final(self)@.all == old(self)@.all,
            final(self)@.kitties == old(self)@.kitties,
    {
        let owner = match self.owners.owner_of(id) {
            Some(owner) => owner,
            None => { return Err(Error::NotFound); },
        };
        if owner != from {
            return Err(Error::NotOwner);
        }
        let count_from: u64 = self.owned_kitty_count(from);
        let count_to: u64 = self.owned_kitty_count(to);
        if count_to.checked_add(1).is_none() {
            return Err(Error::Overflow);
        }
        if count_from.checked_sub(1).is_none() {
            return Err(Error::Underflow);
        }
        let mut list_from = take_index(&mut self.owned, from);
        list_from.remove(id);
        self.owned.insert(from, list_from);
        self.owners.set_owner(id, to);
        let mut list_to = take_index(&mut self.owned, to);
        let listed_in_owned = list_to.append(id);
        self.owned.insert(to, list_to);
        proof {
            assert(listed_in_owned is Ok);
            let before = old(self)@;
            let after = self@;
            let goal = before.transferred(from, to, id);
            assert forall|who: AccountId| after.owned[who] == goal.owned[who] by {}
            assert(after.owned =~= goal.owned);
            assert(after =~~= goal);
            lemma_transferred_consistent(before, from, to, id);
        }
        Ok(Event::Transferred(from, to, id))
    }

    /// Passes `id` from `caller`, who must own it, to `to`.
    pub fn transfer(&mut self, caller: AccountId, to: AccountId, id: KittyId) -> (r: Result<
        Event,
        Error,
    >)
        requires
            old(self).wf(),
        ensures
            final(self).wf(),
            match r {
                Ok(event) => old(self)@.transfer_error(caller, to, id) is None && final(self)@
                    == old(self)@.transferred(caller, to, id) && event == Event::Transferred(
                    caller,
                    to,
                    id,
                ),
                Err(e) => old(self)@.transfer_error(caller, to, id) == Some(e) && final(self)@
                    == old(self)@,
            },
    {
        let owner = match self.owners.owner_of(id) {
            Some(owner) => owner,
            None => { return Err(Error::NotFound); },
        };
        if owner != caller {
            return Err(Error::NotOwner);
        }
        self.transfer_from(caller, to, id)
    }

    /// Creates a kitty for `owner` under the identifier `id`, which the host
    /// has generated: its `dna` is the identifier, it is of generation zero
    /// and not for sale.
    pub fn create_kitty(&mut self, owner: AccountId, id: KittyId) -> (r: Result<Event, Error>)
        requires
            old(self).wf(),
        ensures
            final(self).wf(),
            ({
                let kitty = Kitty { id: id, dna: id, price: 0u128, gen: 0u64 };
                match r {
                    Ok(event) => old(self)@.mint_error(owner, kitty) is None && final(self)@
                        == old(self)@.minted(owner, kitty) && event == Event::Created(owner, id),
                    Err(e) => old(self)@.mint_error(owner, kitty) == Some(e) && final(self)@
                        == old(self)@,
                }
            }),
    {
        self.mint(owner, Kitty { id: id, dna: id, price: 0, gen: 0 })
    }

    /// Agrees to the purchase of `id` by `buyer` for at most `max_price`,
    /// and says what is to be paid to whom. Nothing changes yet: the host
    /// moves the funds and then reports to `settle_purchase`.
    ///
    /// Refused if the kitty does not exist, if `buyer` owns it already, if
    /// its price is zero, or if its price is above `max_price`.
    pub fn buy_kitty(&self, buyer: AccountId, id: KittyId, max_price: Balance) -> (r: Result<
        Purchase,
        Error,
    >)
        requires
            self.wf(),
        ensures
            match r {
                Ok(deal) => self@.buy_error(buyer, id, max_price) is None && deal
                    == self@.purchase(buyer, id) && self@.stands(deal),
                Err(e) => self@.buy_error(buyer, id, max_price) == Some(e),
            },
            self@.kitties.contains_key(id) && self@.owner_of(id) != Some(buyer)
                && self@.kitties[id].price == 0 ==> r == Err::<Purchase, Error>(
                Error::NotForSale,
            ),
            self@.kitties.contains_key(id) && self@.owner_of(id) != Some(buyer)
                && self@.kitties[id].price != 0 && max_price < self@.kitties[id].price ==> r
                == Err::<Purchase, Error>(Error::PriceExceedsLimit),
            r is Ok ==> r->Ok_0.buyer == buyer && r->Ok_0.seller != buyer && r->Ok_0.price
                == self@.kitties[id].price && 0 < r->Ok_0.price <= max_price,
    {
        let kitty = match self.kitties.get(id) {
            Some(kitty) => kitty,
            None => { return Err(Error::NotFound); },
        };
        let owner = match self.owners.owner_of(id) {
            Some(owner) => owner,
            None => { return Err(Error::NotFound); },
        };
        if owner == buyer {
            return Err(Error::AlreadyOwner);
        }
        let price = kitty.price;
        if price == 0 {
            return Err(Error::NotForSale);
        }
        if price > max_price {
            return Err(Error::PriceExceedsLimit);
        }
        Ok(Purchase { buyer: buyer, seller: owner, kitty: id, price: price })
    }

    /// Carries out `deal` once the host has tried to move the funds.
    ///
    /// If the payment failed (`paid` is false) nothing changes. If it went
    /// through, the kitty passes from the seller to the buyer and its price
    /// is reset to zero. The funds have moved by then, so a ledger that no
    /// longer agrees to `deal` (the kitty has another owner or another price
    /// than when `buy_kitty` agreed) is reported as `InvariantViolation`,
    /// apart from every ordinary refusal, and is left as it is.
    pub fn settle_purchase(&mut self, deal: Purchase, paid: bool) -> (r: Result<
        (Event, Event),
        Error,
    >)
        requires
            old(self).wf(),
        ensures
            final(self).wf(),
            match r {
                Ok(events) => paid && old(self)@.stands(deal) && final(self)@ == old(
                    self,
                )@.bought(deal) && events == (
                    Event::Transferred(deal.seller, deal.buyer, deal.kitty),
                    Event::Bought(deal.buyer, deal.seller, deal.kitty, deal.price),
                ),
                Err(e) => final(self)@ == old(self)@ && (if !paid {
                    e == Error::PaymentFailed
                } else {
                    e == Error::InvariantViolation && !old(self)@.stands(deal)
                }),
            },
            r is Ok ==> final(self)@.owner_of(deal.kitty) == Some(deal.buyer)
                && final(self)@.kitties[deal.kitty].price == 0,
    {
        if !paid {
            return Err(Error::PaymentFailed);
        }
        match self.buy_kitty(deal.buyer, deal.kitty, deal.price) {
            Ok(current) => {
                if current != deal {
                    return Err(Error::InvariantViolation);
                }
            },
            Err(_) => {
                return Err(Error::InvariantViolation);
            },
        }
        proof {
            lemma_standing_purchase_transfers(self@, deal);
        }
        let transferred = match self.transfer_from(deal.seller, deal.buyer, deal.kitty) {
            Ok(event) => event,
            Err(_) => {
                return Err(Error::InvariantViolation);
            },
        };
        let kitty = match self.kitties.get(deal.kitty) {
            Some(kitty) => kitty,
            None => {
                return Err(Error::InvariantViolation);
            },
        };
        let sold = Kitty { id: kitty.id, dna: kitty.dna, price: 0, gen: kitty.gen };
        self.kitties.put(sold.id, sold);
        proof {
            let moved = old(self)@.transferred(deal.seller, deal.buyer, deal.kitty);
            assert(self@ =~~= moved.priced(deal.kitty, 0));
            lemma_priced_consistent(moved, deal.kitty, 0);
        }
        Ok((transferred, Event::Bought(deal.buyer, deal.seller, deal.kitty, deal.price)))
    }
}

} // verus!
