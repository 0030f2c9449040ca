use substratekitties::{EnumerationIndex, Error};

fn listed(index: &EnumerationIndex) -> Vec<u128> {
    let mut ids = Vec::new();
    let mut position = 0u64;
    while let Some(id) = index.at(position) {
        ids.push(id);
        position += 1;
    }
    ids
}

#[test]
fn new_enumeration_is_empty() {
    let index = EnumerationIndex::new();
    assert_eq!(index.count(), 0);
    assert_eq!(index.at(0), None);
    assert_eq!(index.position_of(7), None);
    assert!(!index.contains(7));
}

#[test]
fn append_lists_in_order_of_arrival() {
    let mut index = EnumerationIndex::new();
    assert_eq!(index.append(30), Ok(()));
    assert_eq!(index.append(10), Ok(()));
    assert_eq!(index.append(20), Ok(()));
    assert_eq!(index.count(), 3);
    assert_eq!(listed(&index), vec![30, 10, 20]);
    assert_eq!(index.position_of(30), Some(0));
    assert_eq!(index.position_of(10), Some(1));
    assert_eq!(index.position_of(20), Some(2));
    assert!(index.contains(10));
    assert!(!index.contains(11));
}

#[test]
fn append_then_remove_swaps_the_last_into_place() {
    let mut index = EnumerationIndex::new();
    assert_eq!(index.append(10), Ok(()));
    assert_eq!(index.append(20), Ok(()));
    assert_eq!(index.append(30), Ok(()));
    assert_eq!(index.count(), 3);
    index.remove(10);
    assert_eq!(index.count(), 2);
    assert_eq!(index.at(0), Some(30));
    assert_eq!(index.at(1), Some(20));
    assert_eq!(index.at(2), None);
    assert_eq!(index.position_of(30), Some(0));
    assert_eq!(index.position_of(20), Some(1));
    assert_eq!(index.position_of(10), None);
    assert_ne!(index.append(10), Err(Error::Overflow));
}

#[test]
fn remove_of_the_last_entry_moves_nothing() {
    let mut index = EnumerationIndex::new();
    assert_eq!(index.append(10), Ok(()));
    assert_eq!(index.append(20), Ok(()));
    assert_eq!(index.append(30), Ok(()));
    index.remove(30);
    assert_eq!(listed(&index), vec![10, 20]);
    assert_eq!(index.position_of(10), Some(0));
    assert_eq!(index.position_of(20), Some(1));
    assert_eq!(index.position_of(30), None);
}

#[test]
fn remove_of_the_only_entry_leaves_a_usable_enumeration() {
    let mut index = EnumerationIndex::new();
    assert_eq!(index.append(5), Ok(()));
    index.remove(5);
    assert_eq!(index.count(), 0);
    assert_eq!(index.at(0), None);
    assert!(!index.contains(5));
    assert_eq!(index.append(6), Ok(()));
    assert_eq!(index.append(5), Ok(()));
    assert_eq!(listed(&index), vec![6, 5]);
}

#[test]
fn remove_keeps_every_other_entry_exactly_once() {
    let mut index = EnumerationIndex::new();
    for id in 1..=9u128 {
        assert_eq!(index.append(id), Ok(()));
    }
    index.remove(4);
    index.remove(1);
    index.remove(9);
    assert_eq!(index.count(), 6);
    let mut ids = listed(&index);
    for (position, id) in ids.iter().enumerate() {
        assert_eq!(index.position_of(*id), Some(position as u64));
    }
    ids.sort();
    assert_eq!(ids, vec![2, 3, 5, 6, 7, 8]);
}

#[test]
fn at_past_the_end_gives_nothing() {
    let mut index = EnumerationIndex::new();
    assert_eq!(index.append(1), Ok(()));
    assert_eq!(index.at(0), Some(1));
    assert_eq!(index.at(1), None);
    assert_eq!(index.at(u64::MAX), None);
}
