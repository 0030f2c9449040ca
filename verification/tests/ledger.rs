use substratekitties::{Error, Event, Kitty, Ledger};

const ALICE: u64 = 1;
const BOB: u64 = 2;
const CAROL: u64 = 3;

fn all_kitties(ledger: &Ledger) -> Vec<u128> {
    (0..ledger.all_kitties_count()).map(|i| ledger.kitty_by_index(i).unwrap()).collect()
}

fn kitties_of(ledger: &Ledger, who: u64) -> Vec<u128> {
    (0..ledger.owned_kitty_count(who))
        .map(|i| ledger.kitty_of_owner_by_index(who, i).unwrap())
        .collect()
}

#[test]
fn new_ledger_holds_nothing() {
    let ledger = Ledger::new();
    assert_eq!(ledger.all_kitties_count(), 0);
    assert_eq!(ledger.kitty_by_index(0), None);
    assert_eq!(ledger.owned_kitty_count(ALICE), 0);
    assert_eq!(ledger.kitty_of_owner_by_index(ALICE, 0), None);
    assert_eq!(ledger.kitty(1), None);
    assert_eq!(ledger.owner_of(1), None);
}

#[test]
fn mints_with_distinct_ids_are_all_enumerated() {
    let mut ledger = Ledger::new();
    let ids = [50u128, 7, 900, 3, 12];
    for (n, id) in ids.iter().enumerate() {
        let owner = if n % 2 == 0 { ALICE } else { BOB };
        assert_eq!(ledger.create_kitty(owner, *id), Ok(Event::Created(owner, *id)));
    }
    assert_eq!(ledger.all_kitties_count(), 5);
    assert_eq!(all_kitties(&ledger), vec![50, 7, 900, 3, 12]);
    assert_eq!(kitties_of(&ledger, ALICE), vec![50, 900, 12]);
    assert_eq!(kitties_of(&ledger, BOB), vec![7, 3]);
    assert_eq!(ledger.kitty_by_index(5), None);
}

#[test]
fn minted_kitty_belongs_to_its_owner_once() {
    let mut ledger = Ledger::new();
    let kitty = Kitty { id: 9u128, dna: 77u128, price: 5u128, gen: 4 };
    assert_eq!(ledger.mint(ALICE, kitty), Ok(Event::Created(ALICE, 9)));
    assert_eq!(ledger.owner_of(9), Some(ALICE));
    assert_eq!(ledger.kitty(9), Some(kitty));
    assert_eq!(kitties_of(&ledger, ALICE).iter().filter(|id| **id == 9).count(), 1);
    assert_eq!(ledger.owned_kitty_count(BOB), 0);
}

#[test]
fn created_kitty_is_of_generation_zero_and_not_for_sale() {
    let mut ledger = Ledger::new();
    assert_eq!(ledger.create_kitty(BOB, 31), Ok(Event::Created(BOB, 31)));
    assert_eq!(ledger.kitty(31), Some(Kitty { id: 31, dna: 31, price: 0, gen: 0 }));
}

#[test]
fn duplicate_mint_is_refused_and_changes_nothing() {
    let mut ledger = Ledger::new();
    assert!(ledger.create_kitty(ALICE, 1).is_ok());
    assert!(ledger.create_kitty(BOB, 2).is_ok());
    assert!(ledger.set_price(ALICE, 1, 10).is_ok());
    let all_before = all_kitties(&ledger);
    let alice_before = kitties_of(&ledger, ALICE);
    let bob_before = kitties_of(&ledger, BOB);
    let record_before = ledger.kitty(1);

    let again = Kitty { id: 1u128, dna: 5u128, price: 99u128, gen: 3 };
    assert_eq!(ledger.mint(BOB, again), Err(Error::AlreadyExists));
    assert_eq!(ledger.create_kitty(ALICE, 2), Err(Error::AlreadyExists));

    assert_eq!(ledger.all_kitties_count(), 2);
    assert_eq!(all_kitties(&ledger), all_before);
    assert_eq!(kitties_of(&ledger, ALICE), alice_before);
    assert_eq!(kitties_of(&ledger, BOB), bob_before);
    assert_eq!(ledger.kitty(1), record_before);
    assert_eq!(ledger.owner_of(1), Some(ALICE));
    assert_eq!(ledger.owner_of(2), Some(BOB));
}

#[test]
fn set_price_is_for_the_owner_of_an_existing_kitty() {
    let mut ledger = Ledger::new();
    assert!(ledger.create_kitty(ALICE, 1).is_ok());
    assert_eq!(ledger.set_price(ALICE, 2, 10), Err(Error::NotFound));
    assert_eq!(ledger.set_price(BOB, 1, 10), Err(Error::NotOwner));
    assert_eq!(ledger.kitty(1).unwrap().price, 0);
    assert_eq!(ledger.set_price(ALICE, 1, 10), Ok(Event::PriceSet(ALICE, 1, 10)));
    assert_eq!(ledger.kitty(1), Some(Kitty { id: 1, dna: 1, price: 10, gen: 0 }));
    assert_eq!(ledger.set_price(ALICE, 1, 0), Ok(Event::PriceSet(ALICE, 1, 0)));
    assert_eq!(ledger.kitty(1).unwrap().price, 0);
}

#[test]
fn transfer_is_refused_unless_the_caller_owns_the_kitty() {
    let mut ledger = Ledger::new();
    assert!(ledger.create_kitty(ALICE, 1).is_ok());
    assert_eq!(ledger.transfer(ALICE, BOB, 2), Err(Error::NotFound));
    assert_eq!(ledger.transfer(BOB, CAROL, 1), Err(Error::NotOwner));
    assert_eq!(ledger.transfer_from(BOB, CAROL, 1), Err(Error::NotOwner));
    assert_eq!(ledger.transfer_from(BOB, CAROL, 2), Err(Error::NotFound));
    assert_eq!(ledger.owner_of(1), Some(ALICE));
    assert_eq!(kitties_of(&ledger, ALICE), vec![1]);
    assert_eq!(ledger.owned_kitty_count(BOB), 0);
    assert_eq!(ledger.owned_kitty_count(CAROL), 0);
}

#[test]
fn transfer_moves_the_kitty_and_leaves_the_global_list_alone() {
    let mut ledger = Ledger::new();
    for id in [1u128, 2, 3] {
        assert!(ledger.create_kitty(ALICE, id).is_ok());
    }
    assert!(ledger.create_kitty(BOB, 4).is_ok());
    assert_eq!(ledger.transfer(ALICE, BOB, 1), Ok(Event::Transferred(ALICE, BOB, 1)));
    assert_eq!(ledger.owner_of(1), Some(BOB));
    assert_eq!(kitties_of(&ledger, ALICE), vec![3, 2]);
    assert_eq!(kitties_of(&ledger, BOB), vec![4, 1]);
    assert_eq!(all_kitties(&ledger), vec![1, 2, 3, 4]);
    assert_eq!(ledger.kitty(1), Some(Kitty { id: 1, dna: 1, price: 0, gen: 0 }));
}

#[test]
fn transfer_there_and_back_restores_owner_and_counts() {
    let mut ledger = Ledger::new();
    for id in [1u128, 2, 3] {
        assert!(ledger.create_kitty(ALICE, id).is_ok());
    }
    assert!(ledger.create_kitty(BOB, 4).is_ok());
    assert_eq!(ledger.transfer_from(ALICE, BOB, 2), Ok(Event::Transferred(ALICE, BOB, 2)));
    assert_eq!(ledger.owned_kitty_count(ALICE), 2);
    assert_eq!(ledger.owned_kitty_count(BOB), 2);
    assert_eq!(ledger.transfer_from(BOB, ALICE, 2), Ok(Event::Transferred(BOB, ALICE, 2)));
    assert_eq!(ledger.owner_of(2), Some(ALICE));
    assert_eq!(ledger.owned_kitty_count(ALICE), 3);
    assert_eq!(ledger.owned_kitty_count(BOB), 1);
    let mut alice = kitties_of(&ledger, ALICE);
    alice.sort();
    assert_eq!(alice, vec![1, 2, 3]);
    assert_eq!(kitties_of(&ledger, BOB), vec![4]);
}

#[test]
fn transfer_to_oneself_moves_the_kitty_to_the_end() {
    let mut ledger = Ledger::new();
    for id in [1u128, 2, 3] {
        assert!(ledger.create_kitty(ALICE, id).is_ok());
    }
    assert_eq!(ledger.transfer(ALICE, ALICE, 1), Ok(Event::Transferred(ALICE, ALICE, 1)));
    assert_eq!(ledger.owner_of(1), Some(ALICE));
    assert_eq!(kitties_of(&ledger, ALICE), vec![3, 2, 1]);
}

#[test]
fn owner_left_with_nothing_can_receive_again() {
    let mut ledger = Ledger::new();
    assert!(ledger.create_kitty(ALICE, 1).is_ok());
    assert!(ledger.transfer(ALICE, BOB, 1).is_ok());
    assert_eq!(ledger.owned_kitty_count(ALICE), 0);
    assert_eq!(ledger.kitty_of_owner_by_index(ALICE, 0), None);
    assert!(ledger.create_kitty(ALICE, 2).is_ok());
    assert_eq!(kitties_of(&ledger, ALICE), vec![2]);
    assert_eq!(kitties_of(&ledger, BOB), vec![1]);
}
