//! What holds of the ledger's model, whatever its state.

use vstd::prelude::*;
use vstd::seq_lib::seq_to_set_is_finite;
use vstd::set_lib::lemma_len_subset;
use crate::enumeration::{lemma_push_contains, lemma_push_distinct, lemma_swap_removed, swap_removed};
use crate::model::LedgerView;
use crate::types::{AccountId, Balance, Error, Kitty, KittyId, Purchase};

verus! {

/// Minting what can be minted keeps the ledger's parts in agreement.
pub proof fn lemma_minted_consistent(v: LedgerView, to: AccountId, kitty: Kitty<KittyId, Balance>)
    requires
        v.consistent(),
        v.mint_error(to, kitty) is None,
    ensures
        v.minted(to, kitty).consistent(),
{
    let id = kitty.id;
    let w = v.minted(to, kitty);
    assert(!v.all.contains(id));
    assert(!v.owners.contains_key(id));
    assert forall|who: AccountId| !(#[trigger] v.owned[who]).contains(id) by {
        if v.owned[who].contains(id) {
            assert(v.owners.contains_key(id));
        }
    }
    assert forall|x: KittyId| w.all.contains(x) <==> (x == id || v.all.contains(x)) by {
        lemma_push_contains(v.all, id, x);
    }
    assert forall|who: AccountId, x: KittyId| #[trigger]
        w.owned[who].contains(x) <==> w.owners.contains_key(x) && w.owners[x] == who by {
        if who == to {
            lemma_push_contains(v.owned[to], id, x);
        }
    }
    assert forall|who: AccountId|
        (#[trigger] w.owned[who]).no_duplicates() && w.owned[who].len() <= u64::MAX by {
        if who == to {
            lemma_push_distinct(v.owned[to], id);
        }
    }
    lemma_push_distinct(v.all, id);
}

/// Setting the price of a minted kitty keeps the ledger's parts in agreement.
pub proof fn lemma_priced_consistent(v: LedgerView, id: KittyId, price: Balance)
    requires
        v.consistent(),
        v.kitties.contains_key(id),
    ensures
        v.priced(id, price).consistent(),
{
    let w = v.priced(id, price);
    assert(v.kitties[id].id == id);
    assert forall|x: KittyId| w.kitties.contains_key(x) <==> v.kitties.contains_key(x) by {}
}

/// A transfer that is not refused keeps the ledger's parts in agreement.
pub proof fn lemma_transferred_consistent(
    v: LedgerView,
    from: AccountId,
    to: AccountId,
    id: KittyId,
)
    requires
        v.consistent(),
        v.transfer_error(from, to, id) is None,
    ensures
        v.transferred(from, to, id).consistent(),
{
    let w = v.transferred(from, to, id);
    let gone = swap_removed(v.owned[from], id);
    let left = v.owned.insert(from, gone);
    assert(v.owned[from].contains(id));
    lemma_swap_removed(v.owned[from], id);
    assert forall|who: AccountId| !(#[trigger] left[who]).contains(id) by {
        if who != from && v.owned[who].contains(id) {
            assert(v.owners[id] == who);
        }
    }
    lemma_push_distinct(left[to], id);
    assert forall|who: AccountId, x: KittyId| #[trigger]
        w.owned[who].contains(x) <==> w.owners.contains_key(x) && w.owners[x] == who by {
        if who == to {
            lemma_push_contains(left[to], id, x);
        }
        if x != id {
            assert(v.owned[who].contains(x) <==> v.owners.contains_key(x) && v.owners[x] == who);
        }
    }
    assert forall|who: AccountId|
        (#[trigger] w.owned[who]).no_duplicates() && w.owned[who].len() <= u64::MAX by {
        assert(v.owned[who].no_duplicates());
    }
}

/// An owner holds no more kitties than there are, and fewer if some kitty is
/// another's.
pub proof fn lemma_owned_below_all(v: LedgerView, who: AccountId, other: KittyId)
    requires
        v.consistent(),
        v.owners.contains_key(other),
        v.owners[other] != who,
    ensures
        v.owned[who].len() < v.all.len(),
{
    broadcast use {vstd::set::group_set_axioms, seq_to_set_is_finite};

    let mine = v.owned[who].to_set();
    let rest = v.all.to_set().remove(other);
    assert(v.owned[who].no_duplicates());
    v.owned[who].unique_seq_to_set();
    v.all.unique_seq_to_set();
    assert(v.all.contains(other));
    assert(v.all.to_set().contains(other));
    assert forall|x: KittyId| mine.contains(x) implies rest.contains(x) by {
        assert(v.owned[who].contains(x));
        assert(v.owners.contains_key(x) && v.owners[x] == who);
        assert(v.all.contains(x));
    }
    assert(mine.subset_of(rest));
    lemma_len_subset(mine, rest);
}

/// A purchase that stands can always be carried out: once it is paid for,
/// the transfer from the seller to the buyer is not refused.
pub proof fn lemma_standing_purchase_transfers(v: LedgerView, deal: Purchase)
    requires
        v.consistent(),
        v.stands(deal),
    ensures
        v.transfer_error(deal.seller, deal.buyer, deal.kitty) is None,
{
    assert(v.owners[deal.kitty] == deal.seller);
    assert(v.owned[deal.seller].contains(deal.kitty));
    lemma_owned_below_all(v, deal.buyer, deal.kitty);
}

/// An owner holds no more kitties than there are.
pub proof fn lemma_owned_within_all(v: LedgerView, who: AccountId)
    requires
        v.consistent(),
    ensures
        v.owned[who].len() <= v.all.len(),
{
    broadcast use {vstd::set::group_set_axioms, seq_to_set_is_finite};

    let mine = v.owned[who].to_set();
    assert(v.owned[who].no_duplicates());
    v.owned[who].unique_seq_to_set();
    v.all.unique_seq_to_set();
    assert forall|x: KittyId| mine.contains(x) implies v.all.to_set().contains(x) by {
        assert(v.owned[who].contains(x));
        assert(v.owners.contains_key(x) && v.owners[x] == who);
        assert(v.all.contains(x));
    }
    assert(mine.subset_of(v.all.to_set()));
    lemma_len_subset(mine, v.all.to_set());
}

/// No two of `mints` are of the same identifier.
pub open spec fn distinct_ids(mints: Seq<(AccountId, Kitty<KittyId, Balance>)>) -> bool {
    forall|i: int, j: int|
        0 <= i < mints.len() && 0 <= j < mints.len() && i != j ==> (#[trigger] mints[i]).1.id != (
        #[trigger] mints[j]).1.id
}

/// The empty ledger's parts agree.
pub proof fn lemma_empty_consistent()
    ensures
        LedgerView::empty().consistent(),
{
    let v = LedgerView::empty();
    assert forall|who: AccountId, id: KittyId| !(#[trigger] v.owned[who].contains(id)) by {}
}

/// Mints with distinct identifiers, asked of an empty ledger in order, leave
/// a ledger whose enumeration of all kitties lists exactly their
/// identifiers, in that order: there are as many kitties as mints, and the
/// kitty of the mint number `i` stands at position `i`.
pub proof fn lemma_mints_enumerated(mints: Seq<(AccountId, Kitty<KittyId, Balance>)>)
    requires
        mints.len() <= u64::MAX,
        distinct_ids(mints),
    ensures
        LedgerView::empty().mint_each(mints).consistent(),
        LedgerView::empty().mint_each(mints).all.len() == mints.len(),
        forall|i: int|
            0 <= i < mints.len() ==> LedgerView::empty().mint_each(mints).all[i] == mints[i].1.id,
    decreases mints.len(),
{
    let start = LedgerView::empty();
    if mints.len() == 0 {
        lemma_empty_consistent();
    } else {
        let n = mints.len() - 1;
        let earlier = mints.drop_last();
        let to = mints.last().0;
        let kitty = mints.last().1;
        assert(distinct_ids(earlier)) by {
            assert forall|i: int, j: int|
                0 <= i < earlier.len() && 0 <= j < earlier.len() && i != j implies (
            #[trigger] earlier[i]).1.id != (#[trigger] earlier[j]).1.id by {
                assert(earlier[i] == mints[i] && earlier[j] == mints[j]);
            }
        }
        lemma_mints_enumerated(earlier);
        let before = start.mint_each(earlier);
        assert(!before.all.contains(kitty.id)) by {
            if before.all.contains(kitty.id) {
                let i = before.all.index_of(kitty.id);
                assert(before.all[i] == earlier[i].1.id);
                assert(earlier[i] == mints[i]);
                assert(mints[i].1.id == mints[n].1.id);
            }
        }
        lemma_mint_accepted(before, to, kitty);
        lemma_minted_consistent(before, to, kitty);
        let after = start.mint_each(mints);
        assert(after == before.minted(to, kitty));
        assert forall|i: int| 0 <= i < mints.len() implies after.all[i] == mints[i].1.id by {
            if i < n {
                assert(after.all[i] == before.all[i]);
                assert(earlier[i] == mints[i]);
            }
        }
    }
}

/// A kitty that is not enumerated yet can be minted to anyone, as long as
/// the count of all kitties is below its largest value.
pub proof fn lemma_mint_accepted(v: LedgerView, to: AccountId, kitty: Kitty<KittyId, Balance>)
    requires
        v.consistent(),
        !v.all.contains(kitty.id),
        v.all.len() < u64::MAX,
    ensures
        v.mint_error(to, kitty) is None,
{
    lemma_owned_within_all(v, to);
}

/// While mints with distinct identifiers are asked of an empty ledger in
/// order, none is refused: the mint number `i` is accepted by the ledger
/// that the mints before it have left.
pub proof fn lemma_mints_accepted(mints: Seq<(AccountId, Kitty<KittyId, Balance>)>, i: int)
    requires
        mints.len() <= u64::MAX,
        distinct_ids(mints),
        0 <= i < mints.len(),
    ensures
        LedgerView::empty().mint_each(mints.take(i)).mint_error(mints[i].0, mints[i].1) is None,
{
    let earlier = mints.take(i);
    assert(distinct_ids(earlier)) by {
        assert forall|a: int, b: int|
            0 <= a < earlier.len() && 0 <= b < earlier.len() && a != b implies (
        #[trigger] earlier[a]).1.id != (#[trigger] earlier[b]).1.id by {
            assert(earlier[a] == mints[a] && earlier[b] == mints[b]);
        }
    }
    lemma_mints_enumerated(earlier);
    let before = LedgerView::empty().mint_each(earlier);
    assert(!before.all.contains(mints[i].1.id)) by {
        if before.all.contains(mints[i].1.id) {
            let a = before.all.index_of(mints[i].1.id);
            assert(before.all[a] == earlier[a].1.id);
            assert(earlier[a] == mints[a]);
        }
    }
    lemma_mint_accepted(before, mints[i].0, mints[i].1);
}

/// After a kitty has been minted to an owner, that owner is its recorded
/// owner, and the owner's enumeration lists it exactly once, at the end.
pub proof fn lemma_minted_owned_once(v: LedgerView, to: AccountId, kitty: Kitty<KittyId, Balance>)
    requires
        v.consistent(),
        v.mint_error(to, kitty) is None,
    ensures
        v.minted(to, kitty).owner_of(kitty.id) == Some(to),
        v.minted(to, kitty).owned[to].contains(kitty.id),
        forall|i: int|
            0 <= i < v.minted(to, kitty).owned[to].len() ==> (v.minted(to, kitty).owned[to][i]
                == kitty.id <==> i == v.owned[to].len()),
{
    let w = v.minted(to, kitty);
    let last = v.owned[to].len() as int;
    assert(w.owned[to][last] == kitty.id);
    assert forall|i: int| 0 <= i < w.owned[to].len() && w.owned[to][i] == kitty.id implies i
        == last by {
        if i != last {
            assert(v.owned[to][i] == kitty.id);
            assert(v.owned[to].contains(kitty.id));
            assert(v.owners.contains_key(kitty.id));
        }
    }
}

/// In a ledger whose parts agree no transfer is refused for underflow: who
/// owns a kitty holds at least one.
pub proof fn lemma_transfer_never_underflows(
    v: LedgerView,
    from: AccountId,
    to: AccountId,
    id: KittyId,
)
    requires
        v.consistent(),
    ensures
        v.transfer_error(from, to, id) != Some(Error::Underflow),
{
    if v.owners.contains_key(id) && v.owners[id] == from {
        assert(v.owned[from].contains(id));
    }
}

/// A transfer from one owner to another can always be undone by the transfer
/// back, and after both the kitty has its first owner again and each of the
/// two owners holds as many kitties as before.
pub proof fn lemma_transfer_round_trip(v: LedgerView, a: AccountId, b: AccountId, id: KittyId)
    requires
        v.consistent(),
        v.transfer_error(a, b, id) is None,
    ensures
        v.transferred(a, b, id).transfer_error(b, a, id) is None,
        v.transferred(a, b, id).transferred(b, a, id).owner_of(id) == Some(a),
        v.transferred(a, b, id).transferred(b, a, id).owned[a].len() == v.owned[a].len(),
        v.transferred(a, b, id).transferred(b, a, id).owned[b].len() == v.owned[b].len(),
        v.transferred(a, b, id).transferred(b, a, id).kitties == v.kitties,
        v.transferred(a, b, id).transferred(b, a, id).all == v.all,
{
    let there = v.transferred(a, b, id);
    lemma_transferred_consistent(v, a, b, id);
    assert(v.owned[a].contains(id));
    lemma_swap_removed(v.owned[a], id);
    assert(there.owned[b].contains(id)) by {
        assert(there.owners[id] == b);
    }
    lemma_swap_removed(there.owned[b], id);
}

} // verus!
