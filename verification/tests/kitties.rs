use kitties::{Error, Event, Kitty, Ledger};

const SEED: [u8; 32] = [0u8; 32];

#[test]
fn create_kitty_works() {
    let mut ledger = Ledger::new();

    assert_eq!(ledger.kitties_count(), 0);

    assert!(ledger.create(1, &SEED, 0).is_ok());
    assert_eq!(ledger.kitties_count(), 1);
    assert_eq!(ledger.kitty_owner(0), Some(1));

    assert_eq!(ledger.user_kitties_of(1), vec![0]);

    assert_eq!(ledger.events(), &vec![Event::KittyCreated(1, 0)]);
}

#[test]
fn create_kitty_exceed_maximun() {
    let mut ledger = Ledger::new();

    ledger.put_kitties_count(u32::MAX);
    assert_eq!(ledger.create(1, &SEED, 0), Err(Error::CountOverflow));

    // a failed operation leaves the state exactly as it was
    assert_eq!(ledger.kitties_count(), u32::MAX);
    assert_eq!(ledger.events(), &Vec::new());
}

#[test]
fn transfer_kitty_works() {
    let mut ledger = Ledger::new();

    assert_eq!(ledger.kitties_count(), 0);

    assert!(ledger.create(1, &SEED, 0).is_ok());
    assert_eq!(ledger.kitties_count(), 1);

    assert_eq!(ledger.transfer(1, 2, 0), Ok(()));
    assert_eq!(ledger.kitties_count(), 1);

    assert_eq!(ledger.kitty_owner(0), Some(2));

    assert_eq!(
        ledger.events(),
        &vec![Event::KittyCreated(1, 0), Event::Transferred(1, 2, 0)]
    );
}

#[test]
fn transfer_kitty_with_nonexist_kitty() {
    let mut ledger = Ledger::new();
    assert_eq!(ledger.transfer(1, 2, 0), Err(Error::InvalidTokenId));

    // a failed operation leaves the state exactly as it was
    assert_eq!(ledger.kitties_count(), 0);
    assert_eq!(ledger.events(), &Vec::new());
}

#[test]
fn breed_works() {
    let mut ledger = Ledger::new();
    assert!(ledger.create(1, &SEED, 0).is_ok());
    assert!(ledger.create(1, &SEED, 1).is_ok());

    assert!(ledger.breed(1, 0, 1, &SEED, 2).is_ok());

    assert_eq!(ledger.kitties_count(), 3);

    assert_eq!(ledger.kitty_owner(2), Some(1));

    let mut owned = ledger.user_kitties_of(1);
    owned.sort();
    assert_eq!(owned, vec![0, 1, 2]);

    assert_eq!(ledger.parents(2, 1), 1);
    assert_eq!(ledger.parents(2, 0), 0);

    assert_eq!(ledger.parents_of(2), vec![0, 1]);

    assert_eq!(ledger.children(0, 2), 2);
    assert_eq!(ledger.children(1, 2), 2);
    assert_eq!(ledger.children_of(0), vec![2]);
    assert_eq!(ledger.children_of(1), vec![2]);

    assert_eq!(ledger.breeded(0, 1), 1);
    assert_eq!(ledger.breeded(1, 0), 0);

    assert_eq!(ledger.breeded_of(0), vec![1]);
    assert_eq!(ledger.breeded_of(1), vec![0]);
}

#[test]
fn breed_with_same_parent() {
    let mut ledger = Ledger::new();
    assert!(ledger.create(1, &SEED, 0).is_ok());
    assert!(ledger.create(1, &SEED, 1).is_ok());

    assert_eq!(ledger.breed(1, 0, 0, &SEED, 2), Err(Error::RequireDifferentParent));

    // a failed operation leaves the state exactly as it was
    assert_eq!(ledger.kitties_count(), 2);
    assert_eq!(ledger.events().len(), 2);
}

#[test]
fn breed_with_nonexist_parent() {
    let mut ledger = Ledger::new();
    assert!(ledger.create(1, &SEED, 0).is_ok());

    // existence is checked before the distinct-parent rule, so a
    // nonexistent pair of equal ids is reported as an invalid id
    assert_eq!(ledger.breed(1, 0, 7, &SEED, 1), Err(Error::InvalidTokenId));
    assert_eq!(ledger.breed(1, 7, 0, &SEED, 1), Err(Error::InvalidTokenId));
    assert_eq!(ledger.breed(1, 7, 7, &SEED, 1), Err(Error::InvalidTokenId));
    assert_eq!(ledger.kitties_count(), 1);
}

#[test]
fn transfer_updates_owner_index() {
    let mut ledger = Ledger::new();
    assert!(ledger.create(1, &SEED, 0).is_ok());
    assert!(ledger.create(1, &SEED, 1).is_ok());

    assert_eq!(ledger.transfer(1, 9, 0), Ok(()));

    let old_owner = ledger.user_kitties_of(1);
    assert!(!old_owner.contains(&0));
    assert_eq!(old_owner, vec![1]);
    assert_eq!(ledger.user_kitties_of(9), vec![0]);
    assert_eq!(ledger.user_kitties(9, 0), 0);
    assert_eq!(ledger.user_kitties(9, 1), 0);
}

#[test]
fn transfer_is_not_restricted_to_the_owner() {
    let mut ledger = Ledger::new();
    assert!(ledger.create(1, &SEED, 0).is_ok());

    // the ledger does not check the caller against the current owner;
    // the previous owner's index pair is still the one removed
    assert_eq!(ledger.transfer(3, 2, 0), Ok(()));
    assert_eq!(ledger.kitty_owner(0), Some(2));
    assert_eq!(ledger.user_kitties_of(1), Vec::<u32>::new());
    assert_eq!(ledger.user_kitties_of(2), vec![0]);
    assert_eq!(ledger.events(), &vec![Event::KittyCreated(1, 0), Event::Transferred(3, 2, 0)]);
}

#[test]
fn insert_kitty_records_the_token() {
    let mut ledger = Ledger::new();
    let dna = [7u8; 16];
    ledger.insert_kitty(4, 0, Kitty(dna));

    assert_eq!(ledger.kitties_count(), 1);
    assert_eq!(ledger.kitties(0), Some(Kitty(dna)));
    assert_eq!(ledger.kitties(1), None);
    assert_eq!(ledger.kitty_owner(0), Some(4));
    assert_eq!(ledger.user_kitties(4, 0), 0);
    assert_eq!(ledger.user_kitties_of(4), vec![0]);
}

#[test]
fn combine_dna_is_a_bitwise_multiplexer() {
    assert_eq!(kitties::combine_dna(0xff, 0x00, 0xf0), 0xf0);
    assert_eq!(kitties::combine_dna(0xf0, 0x0f, 0xaa), 0xa5);
    assert_eq!(kitties::combine_dna(0x5a, 0x3c, 0xff), 0x5a);
    assert_eq!(kitties::combine_dna(0x5a, 0x3c, 0x00), 0x3c);
}

#[test]
fn breed_crosses_dna_bit_exactly() {
    let mut ledger = Ledger::new();
    assert!(ledger.create(1, &SEED, 0).is_ok());
    assert!(ledger.create(1, &SEED, 1).is_ok());
    assert_eq!(ledger.breed(1, 0, 1, &SEED, 2), Ok(2));

    let parent_a = ledger.kitties(0).unwrap().0;
    let parent_b = ledger.kitties(1).unwrap().0;
    let child = ledger.kitties(2).unwrap().0;
    // the selector actually used is the one derived for the breeding call
    let selector = kitties::random_value(&SEED, 1, 2);
    for i in 0..16 {
        assert_eq!(child[i], (selector[i] & parent_a[i]) | (!selector[i] & parent_b[i]));
    }
}

#[test]
fn random_value_is_deterministic() {
    let a = kitties::random_value(&SEED, 1, 0);
    let b = kitties::random_value(&SEED, 1, 0);
    assert_eq!(a, b);

    // any change of seed, sender or sequence reaches the digest
    let seed2 = [1u8; 32];
    assert_ne!(kitties::random_value(&seed2, 1, 0), a);
    assert_ne!(kitties::random_value(&SEED, 2, 0), a);
    assert_ne!(kitties::random_value(&SEED, 1, 1), a);
}

#[test]
fn random_value_hashes_the_encoded_payload() {
    let seed = [9u8; 32];
    let sender: u64 = 0x1122_3344_5566_7788;
    let sequence: u32 = 0xaabb_ccdd;

    // the payload is the seed, the sender and the sequence number in
    // their fixed-size little-endian encodings, concatenated
    let mut payload = Vec::new();
    payload.extend_from_slice(&seed);
    payload.extend_from_slice(&sender.to_le_bytes());
    payload.extend_from_slice(&sequence.to_le_bytes());
    let expected = sp_io::hashing::blake2_128(&payload);

    assert_eq!(kitties::random_value(&seed, sender, sequence), expected);
    assert_ne!(expected, [0u8; 16]);
}

#[test]
fn two_creations_then_a_breed_mint_three_tokens() {
    let mut ledger = Ledger::new();
    assert_eq!(ledger.create(6, &SEED, 0), Ok(0));
    assert_eq!(ledger.create(6, &SEED, 1), Ok(1));
    assert_eq!(ledger.breed(6, 0, 1, &SEED, 2), Ok(2));

    assert_eq!(ledger.kitties_count(), 3);
    assert_eq!(ledger.kitty_owner(2), Some(6));
    let mut owned = ledger.user_kitties_of(6);
    owned.sort();
    assert_eq!(owned, vec![0, 1, 2]);
}
