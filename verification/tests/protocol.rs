use derived_records::address::{favorites_seeds, user_seeds, DerivedAddress};
use derived_records::identity::Identity;
use derived_records::ledger::Ledger;
use derived_records::program::{claim, initialize, initialize_user, set_favorites};
use derived_records::records::{
    decode_record, encode_record, make_favorites_schema, make_stake_user_schema, Favorites,
    RecordValue, StakeUserConfig,
};
use derived_records::schema::{size_of, FieldSchema};
use derived_records::ProtocolError;

const PROGRAM_ID: [u8; 32] = [7u8; 32];

fn ident(b: u8) -> Identity {
    Identity { bytes: vec![b; 32] }
}

fn favorites(color: &[u8], number: u64, hobbies: &[&[u8]]) -> RecordValue {
    RecordValue::Favorites(Favorites {
        color: color.to_vec(),
        number,
        hobbies: hobbies.iter().map(|h| h.to_vec()).collect(),
    })
}

fn read_favorites(ledger: &Ledger, address: &DerivedAddress) -> (Vec<u8>, u64, Vec<Vec<u8>>) {
    match ledger.read(address) {
        Ok(RecordValue::Favorites(f)) => (f.color.clone(), f.number, f.hobbies.clone()),
        _ => panic!("expected a favorites record"),
    }
}

fn read_stake_user(ledger: &Ledger, address: &DerivedAddress) -> StakeUserConfig {
    match ledger.read(address) {
        Ok(RecordValue::StakeUser(c)) => *c,
        _ => panic!("expected a staking user record"),
    }
}

#[test]
fn derive_is_deterministic() {
    let user = ident(1);
    let seeds = favorites_seeds(&user);
    let (a1, b1) = derived_records::address::derive(&PROGRAM_ID, &seeds).unwrap();
    let (a2, b2) = derived_records::address::derive(&PROGRAM_ID, &seeds).unwrap();
    assert_eq!(a1.bytes, a2.bytes);
    assert_eq!(b1, b2);
    assert_eq!(a1.bytes.len(), 32);
}

#[test]
fn derive_computes_a_fresh_address() {
    let user = ident(1);
    let (addr, _) = derived_records::address::derive(&PROGRAM_ID, &favorites_seeds(&user)).unwrap();
    assert_ne!(addr.bytes, PROGRAM_ID.to_vec());
    assert_ne!(addr.bytes, user.bytes);
}

#[test]
fn derive_separates_users_and_namespaces() {
    let a = derived_records::address::derive(&PROGRAM_ID, &favorites_seeds(&ident(1))).unwrap().0;
    let b = derived_records::address::derive(&PROGRAM_ID, &favorites_seeds(&ident(2))).unwrap().0;
    let c = derived_records::address::derive(&PROGRAM_ID, &user_seeds(&ident(1))).unwrap().0;
    assert_ne!(a.bytes, b.bytes);
    assert_ne!(a.bytes, c.bytes);
}

#[test]
fn derive_exhausts_on_too_many_seeds() {
    let seeds: Vec<Vec<u8>> = (0..16).map(|i: u8| vec![i]).collect();
    assert_eq!(
        derived_records::address::derive(&PROGRAM_ID, &seeds).unwrap_err(),
        ProtocolError::DerivationExhausted
    );
}

#[test]
fn schema_budgets_are_exact() {
    assert_eq!(size_of(&make_favorites_schema()).unwrap(), 344);
    assert_eq!(size_of(&make_stake_user_schema()).unwrap(), 21);
}

#[test]
fn oversized_schema_is_refused() {
    let schema = vec![FieldSchema::BoundedStringSeq {
        max_items: u32::MAX,
        max_bytes: u32::MAX,
    }];
    assert_eq!(size_of(&schema).unwrap_err(), ProtocolError::SchemaOverflow);
}

#[test]
fn color_at_the_bound_is_accepted() {
    let mut ledger = Ledger::new();
    let user = ident(3);
    let color = vec![b'x'; 50];
    let r = set_favorites(&mut ledger, &PROGRAM_ID, &user, 1000, color.clone(), 1, vec![]);
    let (addr, _) = r.unwrap();
    assert_eq!(read_favorites(&ledger, &addr).0, color);
}

#[test]
fn color_over_the_bound_is_refused() {
    let mut ledger = Ledger::new();
    let user = ident(3);
    let color = vec![b'x'; 51];
    let r = set_favorites(&mut ledger, &PROGRAM_ID, &user, 1000, color, 1, vec![]);
    assert_eq!(r.unwrap_err(), ProtocolError::ValueExceedsSchema);
}

#[test]
fn five_full_hobbies_are_accepted() {
    let mut ledger = Ledger::new();
    let user = ident(4);
    let hobbies: Vec<Vec<u8>> = (0..5).map(|i: u8| vec![i; 50]).collect();
    let r = set_favorites(
        &mut ledger,
        &PROGRAM_ID,
        &user,
        1000,
        b"red".to_vec(),
        2,
        hobbies.clone(),
    );
    let (addr, _) = r.unwrap();
    assert_eq!(read_favorites(&ledger, &addr).2, hobbies);
}

#[test]
fn six_hobbies_are_refused() {
    let mut ledger = Ledger::new();
    let user = ident(4);
    let hobbies: Vec<Vec<u8>> = (0..6).map(|i: u8| vec![i]).collect();
    let r = set_favorites(&mut ledger, &PROGRAM_ID, &user, 1000, b"red".to_vec(), 2, hobbies);
    assert_eq!(r.unwrap_err(), ProtocolError::ValueExceedsSchema);
}

#[test]
fn creation_is_at_most_once() {
    let mut ledger = Ledger::new();
    let user = ident(5);
    let (addr, _) = set_favorites(
        &mut ledger,
        &PROGRAM_ID,
        &user,
        1000,
        b"blue".to_vec(),
        7,
        vec![b"chess".to_vec()],
    )
    .unwrap();
    let again = set_favorites(
        &mut ledger,
        &PROGRAM_ID,
        &user,
        1000,
        b"green".to_vec(),
        9,
        vec![],
    );
    assert_eq!(again.unwrap_err(), ProtocolError::AlreadyInitialized);
    let (color, number, hobbies) = read_favorites(&ledger, &addr);
    assert_eq!(color, b"blue".to_vec());
    assert_eq!(number, 7);
    assert_eq!(hobbies, vec![b"chess".to_vec()]);
}

#[test]
fn creation_needs_the_full_budget() {
    let mut ledger = Ledger::new();
    let user = ident(6);
    let r = set_favorites(&mut ledger, &PROGRAM_ID, &user, 343, b"blue".to_vec(), 7, vec![]);
    assert_eq!(r.unwrap_err(), ProtocolError::InsufficientFunds);
    let r = set_favorites(&mut ledger, &PROGRAM_ID, &user, 344, b"blue".to_vec(), 7, vec![]);
    assert!(r.is_ok());
}

#[test]
fn stake_user_needs_its_smaller_budget() {
    let mut ledger = Ledger::new();
    let user = ident(7);
    let r = initialize_user(&mut ledger, &PROGRAM_ID, &user, 20);
    assert_eq!(r.unwrap_err(), ProtocolError::InsufficientFunds);
    let r = initialize_user(&mut ledger, &PROGRAM_ID, &user, 21);
    assert!(r.is_ok());
}

#[test]
fn only_the_owner_mutates() {
    let mut ledger = Ledger::new();
    let owner = ident(8);
    let intruder = ident(9);
    let (addr, _) = set_favorites(
        &mut ledger,
        &PROGRAM_ID,
        &owner,
        1000,
        b"blue".to_vec(),
        7,
        vec![],
    )
    .unwrap();

    let r = ledger.mutate(&addr, &intruder, true, favorites(b"black", 0, &[]));
    assert_eq!(r.unwrap_err(), ProtocolError::Unauthorized);
    let r = ledger.mutate(&addr, &owner, false, favorites(b"black", 0, &[]));
    assert_eq!(r.unwrap_err(), ProtocolError::Unauthorized);
    assert_eq!(read_favorites(&ledger, &addr).0, b"blue".to_vec());

    let r = ledger.mutate(&addr, &owner, true, favorites(b"black", 0, &[]));
    assert!(r.is_ok());
    assert_eq!(read_favorites(&ledger, &addr).0, b"black".to_vec());
}

#[test]
fn read_returns_exactly_the_last_write() {
    let mut ledger = Ledger::new();
    let owner = ident(10);
    let (addr, _) = set_favorites(
        &mut ledger,
        &PROGRAM_ID,
        &owner,
        1000,
        b"blue".to_vec(),
        7,
        vec![b"chess".to_vec(), b"go".to_vec()],
    )
    .unwrap();
    ledger
        .mutate(&addr, &owner, true, favorites(b"red", 8, &[b"shogi"]))
        .unwrap();
    ledger
        .mutate(&addr, &owner, true, favorites(b"ochre", 9, &[]))
        .unwrap();
    let (color, number, hobbies) = read_favorites(&ledger, &addr);
    assert_eq!(color, b"ochre".to_vec());
    assert_eq!(number, 9);
    assert_eq!(hobbies, Vec::<Vec<u8>>::new());
}

#[test]
fn mutation_needs_an_existing_record() {
    let mut ledger = Ledger::new();
    let user = ident(11);
    let (addr, _) = derived_records::address::derive(&PROGRAM_ID, &favorites_seeds(&user)).unwrap();
    let r = ledger.mutate(&addr, &user, true, favorites(b"blue", 7, &[]));
    assert_eq!(r.unwrap_err(), ProtocolError::NotFound);
}

#[test]
fn mutation_keeps_the_record_shape() {
    let mut ledger = Ledger::new();
    let owner = ident(12);
    let (addr, _) = set_favorites(
        &mut ledger,
        &PROGRAM_ID,
        &owner,
        1000,
        b"blue".to_vec(),
        7,
        vec![],
    )
    .unwrap();
    let stake = RecordValue::StakeUser(StakeUserConfig {
        points: 1,
        amount_staked: 2,
        bump: 3,
    });
    let r = ledger.mutate(&addr, &owner, true, stake);
    assert_eq!(r.unwrap_err(), ProtocolError::ValueExceedsSchema);
    assert_eq!(read_favorites(&ledger, &addr).0, b"blue".to_vec());
}

#[test]
fn mutation_respects_the_declared_maxima() {
    let mut ledger = Ledger::new();
    let owner = ident(13);
    let (addr, _) = set_favorites(
        &mut ledger,
        &PROGRAM_ID,
        &owner,
        1000,
        b"blue".to_vec(),
        7,
        vec![],
    )
    .unwrap();
    let r = ledger.mutate(&addr, &owner, true, favorites(&[b'x'; 51], 0, &[]));
    assert_eq!(r.unwrap_err(), ProtocolError::ValueExceedsSchema);
}

#[test]
fn occupancy_tracks_creation() {
    let mut ledger = Ledger::new();
    let user = ident(14);
    let (addr, _) = derived_records::address::derive(&PROGRAM_ID, &user_seeds(&user)).unwrap();
    assert!(!ledger.is_occupied(&addr));
    initialize_user(&mut ledger, &PROGRAM_ID, &user, 100).unwrap();
    assert!(ledger.is_occupied(&addr));
}

#[test]
fn bootstrap_and_claim_are_noops() {
    assert!(initialize().is_ok());
    assert!(claim().is_ok());
}

#[test]
fn end_to_end() {
    let mut ledger = Ledger::new();
    let user_a = ident(20);
    let user_b = ident(21);

    let (stake_addr, stake_bump) = initialize_user(&mut ledger, &PROGRAM_ID, &user_a, 100).unwrap();
    let config = read_stake_user(&ledger, &stake_addr);
    assert_eq!(config.points, 0);
    assert_eq!(config.amount_staked, 0);
    assert_eq!(config.bump, stake_bump);

    let (fav_addr, _) = set_favorites(
        &mut ledger,
        &PROGRAM_ID,
        &user_b,
        1000,
        b"blue".to_vec(),
        7,
        vec![b"chess".to_vec(), b"go".to_vec()],
    )
    .unwrap();
    let (color, number, hobbies) = read_favorites(&ledger, &fav_addr);
    assert_eq!(color, b"blue".to_vec());
    assert_eq!(number, 7);
    assert_eq!(hobbies, vec![b"chess".to_vec(), b"go".to_vec()]);

    let again = set_favorites(
        &mut ledger,
        &PROGRAM_ID,
        &user_b,
        1000,
        b"pink".to_vec(),
        8,
        vec![],
    );
    assert_eq!(again.unwrap_err(), ProtocolError::AlreadyInitialized);
}

#[test]
fn stake_user_encoding_is_exact() {
    let value = RecordValue::StakeUser(StakeUserConfig {
        points: 0x0102_0304,
        amount_staked: -2,
        bump: 0xfe,
    });
    let mut expected: Vec<u8> = b"stakeusr".to_vec();
    expected.extend_from_slice(&[0x04, 0x03, 0x02, 0x01]);
    expected.extend_from_slice(&(-2i64).to_le_bytes());
    expected.push(0xfe);
    assert_eq!(encode_record(&value), expected);
}

#[test]
fn favorites_encoding_is_exact() {
    let value = favorites(b"ab", 0x01_0000_0000, &[b"c"]);
    let mut expected: Vec<u8> = b"favorite".to_vec();
    expected.extend_from_slice(&[2, 0, 0, 0]);
    expected.extend_from_slice(b"ab");
    expected.extend_from_slice(&[0, 0, 0, 0, 1, 0, 0, 0]);
    expected.extend_from_slice(&[1, 0, 0, 0]);
    expected.extend_from_slice(&[1, 0, 0, 0]);
    expected.extend_from_slice(b"c");
    assert_eq!(encode_record(&value), expected);
}

#[test]
fn favorites_round_trip_through_bytes() {
    let value = favorites(b"blue", 7, &[b"chess", b"go"]);
    let bytes = encode_record(&value);
    match decode_record(&bytes) {
        Some(RecordValue::Favorites(f)) => {
            assert_eq!(f.color, b"blue".to_vec());
            assert_eq!(f.number, 7);
            assert_eq!(f.hobbies, vec![b"chess".to_vec(), b"go".to_vec()]);
        }
        _ => panic!("expected the favorites record back"),
    }
}

#[test]
fn stake_user_round_trip_through_bytes() {
    let value = RecordValue::StakeUser(StakeUserConfig {
        points: 11,
        amount_staked: -7,
        bump: 254,
    });
    let bytes = encode_record(&value);
    match decode_record(&bytes) {
        Some(RecordValue::StakeUser(c)) => {
            assert_eq!(c.points, 11);
            assert_eq!(c.amount_staked, -7);
            assert_eq!(c.bump, 254);
        }
        _ => panic!("expected the staking record back"),
    }
}

#[test]
fn mangled_bytes_are_rejected() {
    let value = favorites(b"blue", 7, &[b"go"]);
    let mut bytes = encode_record(&value);
    assert!(decode_record(&vec![0u8; 4]).is_none());
    bytes.push(0);
    assert!(decode_record(&bytes).is_none());
    bytes.pop();
    bytes[0] ^= 1;
    assert!(decode_record(&bytes).is_none());
}
