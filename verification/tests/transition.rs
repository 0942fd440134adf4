//! Tests of the listing creation transition: the end-to-end path, the
//! precondition order, atomicity on failure, and re-invocation.

use model_listing::layout::RECORD_SIZE;
use model_listing::model::{AIModel, ListingError};
use model_listing::transition::{create_ai_model, Slot};

const RENT_MINIMUM: u64 = 890_880;

fn program_id() -> Vec<u8> {
    vec![11u8; 32]
}

fn fresh_listing_slot(lamports: u64) -> Slot {
    Slot {
        owner_program: program_id(),
        key: vec![1u8; 32],
        lamports,
        data: vec![0u8; RECORD_SIZE],
    }
}

fn payer(lamports: u64) -> Slot {
    Slot { owner_program: vec![0u8; 32], key: vec![2u8; 32], lamports, data: Vec::new() }
}

fn create(
    listing_slot: &mut Slot,
    payer_slot: &mut Slot,
    rent_minimum: u64,
) -> Result<(), ListingError> {
    create_ai_model(
        &program_id(),
        listing_slot,
        payer_slot,
        rent_minimum,
        b"m".to_vec(),
        b"d".to_vec(),
        100,
        vec![5u8; 16],
    )
}

#[test]
fn test_create_ai_model() {
    // A zero-balance slot passes the rent check only when the oracle's
    // minimum is itself zero; the funded path is covered separately.
    let mut slot = fresh_listing_slot(0);
    let mut payer_slot = payer(0);
    assert_eq!(create(&mut slot, &mut payer_slot, 0), Ok(()));
    let record = AIModel::unpack_from_slice(&slot.data).unwrap();
    assert!(record.is_initialized);
    assert_eq!(record.price, 100);
    assert_eq!(record.owner, payer_slot.key);
    assert_eq!(payer_slot.lamports, 0);
    assert_eq!(slot.lamports, 0);
}

#[test]
fn create_moves_the_rent_minimum() {
    let mut slot = fresh_listing_slot(RENT_MINIMUM);
    let mut payer_slot = payer(RENT_MINIMUM + 250);
    assert_eq!(create(&mut slot, &mut payer_slot, RENT_MINIMUM), Ok(()));
    let record = AIModel::unpack_from_slice(&slot.data).unwrap();
    assert!(record.is_initialized);
    assert_eq!(record.name, b"m".to_vec());
    assert_eq!(record.description, b"d".to_vec());
    assert_eq!(record.price, 100);
    assert_eq!(record.owner, vec![2u8; 32]);
    let mut expected_file = vec![5u8; 16];
    expected_file.resize(1024, 0);
    assert_eq!(record.model_file, expected_file);
    assert_eq!(payer_slot.lamports, 250);
    assert_eq!(slot.lamports, 2 * RENT_MINIMUM);
}

#[test]
fn first_failed_check_wins() {
    // Wrong controlling program AND wrong size AND already initialized:
    // the reported failure is the first check's.
    let mut slot = Slot {
        owner_program: vec![99u8; 32],
        key: vec![1u8; 32],
        lamports: RENT_MINIMUM,
        data: vec![1u8; 7],
    };
    let mut payer_slot = payer(RENT_MINIMUM);
    let before_slot = slot.clone();
    let before_payer = payer_slot.clone();
    assert_eq!(
        create(&mut slot, &mut payer_slot, RENT_MINIMUM),
        Err(ListingError::WrongOwnerProgram)
    );
    assert_eq!(slot, before_slot);
    assert_eq!(payer_slot, before_payer);
}

#[test]
fn wrong_storage_size_fails_second() {
    let mut slot = fresh_listing_slot(RENT_MINIMUM);
    slot.data.pop();
    let mut payer_slot = payer(RENT_MINIMUM);
    assert_eq!(create(&mut slot, &mut payer_slot, RENT_MINIMUM), Err(ListingError::BadStorageSize));
}

#[test]
fn underfunded_slot_fails_rent_check_and_mutates_nothing() {
    let mut slot = fresh_listing_slot(RENT_MINIMUM - 1);
    let mut payer_slot = payer(RENT_MINIMUM);
    let before_slot = slot.clone();
    let before_payer = payer_slot.clone();
    assert_eq!(create(&mut slot, &mut payer_slot, RENT_MINIMUM), Err(ListingError::NotRentExempt));
    assert_eq!(slot, before_slot);
    assert_eq!(payer_slot, before_payer);
}

#[test]
fn underfunded_payer_fails_fifth_check_and_mutates_nothing() {
    let mut slot = fresh_listing_slot(RENT_MINIMUM);
    let mut payer_slot = payer(RENT_MINIMUM - 1);
    let before_slot = slot.clone();
    let before_payer = payer_slot.clone();
    assert_eq!(
        create(&mut slot, &mut payer_slot, RENT_MINIMUM),
        Err(ListingError::InsufficientFunds)
    );
    assert_eq!(slot, before_slot);
    assert_eq!(payer_slot, before_payer);
}

#[test]
fn oversized_name_fails_at_encoding_and_mutates_nothing() {
    let mut slot = fresh_listing_slot(RENT_MINIMUM);
    let mut payer_slot = payer(RENT_MINIMUM);
    let before_slot = slot.clone();
    let before_payer = payer_slot.clone();
    let r = create_ai_model(
        &program_id(),
        &mut slot,
        &mut payer_slot,
        RENT_MINIMUM,
        vec![b'n'; 33],
        b"d".to_vec(),
        100,
        Vec::new(),
    );
    assert_eq!(r, Err(ListingError::CapacityExceeded));
    assert_eq!(slot, before_slot);
    assert_eq!(payer_slot, before_payer);
}

#[test]
fn reinvocation_fails_and_mutates_nothing() {
    let mut slot = fresh_listing_slot(RENT_MINIMUM);
    let mut payer_slot = payer(3 * RENT_MINIMUM);
    assert_eq!(create(&mut slot, &mut payer_slot, RENT_MINIMUM), Ok(()));
    let after_slot = slot.clone();
    let after_payer = payer_slot.clone();
    assert_eq!(
        create(&mut slot, &mut payer_slot, RENT_MINIMUM),
        Err(ListingError::AlreadyInitialized)
    );
    assert_eq!(slot, after_slot);
    assert_eq!(payer_slot, after_payer);
}
