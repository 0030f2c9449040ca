use substratekitties::{kitty_id_preimage, AssetStore, Kitty, OwnershipIndex};

#[test]
fn asset_store_keeps_the_latest_record_under_an_id() {
    let mut store = AssetStore::new();
    assert!(!store.contains(1));
    assert_eq!(store.get(1), None);
    let first = Kitty { id: 1u128, dna: 11u128, price: 0u128, gen: 0 };
    store.put(1, first);
    assert!(store.contains(1));
    assert_eq!(store.get(1), Some(first));
    let second = Kitty { id: 1u128, dna: 11u128, price: 40u128, gen: 0 };
    store.put(1, second);
    assert_eq!(store.get(1), Some(second));
    assert!(!store.contains(2));
}

#[test]
fn ownership_index_has_no_owner_until_one_is_set() {
    let mut owners = OwnershipIndex::new();
    assert_eq!(owners.owner_of(1), None);
    owners.set_owner(1, 7);
    assert_eq!(owners.owner_of(1), Some(7));
    owners.set_owner(1, 8);
    assert_eq!(owners.owner_of(1), Some(8));
    assert_eq!(owners.owner_of(2), None);
}

#[test]
fn kitty_clone_is_the_same_record() {
    let kitty = Kitty { id: 3u128, dna: 4u128, price: 5u128, gen: 6 };
    assert_eq!(kitty.clone(), kitty);
    assert_eq!(Kitty::<u128, u128>::default(), Kitty { id: 0, dna: 0, price: 0, gen: 0 });
}

#[test]
fn preimage_holds_seed_sender_and_nonce_in_little_endian() {
    let mut seed = [0u8; 32];
    for (i, byte) in seed.iter_mut().enumerate() {
        *byte = 0xa0 + i as u8;
    }
    let bytes = kitty_id_preimage(&seed, 0x0102_0304_0506_0708, 1);
    assert_eq!(bytes.len(), 48);
    assert_eq!(&bytes[..32], &seed[..]);
    assert_eq!(&bytes[32..40], &[8u8, 7, 6, 5, 4, 3, 2, 1][..]);
    assert_eq!(&bytes[40..], &[1u8, 0, 0, 0, 0, 0, 0, 0][..]);
}

#[test]
fn preimages_of_successive_nonces_differ() {
    let seed = [7u8; 32];
    let first = kitty_id_preimage(&seed, 5, 0);
    let second = kitty_id_preimage(&seed, 5, 1);
    let other_sender = kitty_id_preimage(&seed, 6, 0);
    assert_ne!(first, second);
    assert_ne!(first, other_sender);
    assert_eq!(first, kitty_id_preimage(&seed, 5, 0));
    assert_eq!(kitty_id_preimage(&seed, u64::MAX, u64::MAX)[32..], [0xffu8; 16][..]);
}
