use movie_review::address::{derive_review_address, keys_equal};
use movie_review::error::ReviewErrors;
use movie_review::instruction::MovieInstruction;
use movie_review::processor::{
    add_movie_review, add_movie_review_with, update_movie_review, update_movie_review_with,
};
use movie_review::state::{MovieAccountState, MAX_RECORD_LEN};
use solana_program::pubkey::Pubkey;

const PROGRAM: [u8; 32] = [7u8; 32];
const OWNER: [u8; 32] = [1u8; 32];

fn pda_for(owner: &[u8; 32], title: &str) -> ([u8; 32], u8) {
    derive_review_address(&PROGRAM, owner, &title.to_string()).unwrap()
}

fn create(cell: &[u8], title: &str, description: &str, rating: u8) -> Result<Vec<u8>, ReviewErrors> {
    let (pda, _) = pda_for(&OWNER, title);
    add_movie_review(
        &PROGRAM,
        &OWNER,
        true,
        &pda,
        cell,
        title.to_string(),
        description.to_string(),
        rating,
    )
    .map(|c| c.data)
}

fn update(cell: &[u8], title: &str, description: &str, rating: u8) -> Result<Vec<u8>, ReviewErrors> {
    let (pda, _) = pda_for(&OWNER, title);
    update_movie_review(
        &PROGRAM,
        &OWNER,
        true,
        &PROGRAM,
        &pda,
        cell,
        title.to_string(),
        description.to_string(),
        rating,
    )
}

fn string_field(s: &str) -> Vec<u8> {
    let mut v = (s.len() as u32).to_le_bytes().to_vec();
    v.extend_from_slice(s.as_bytes());
    v
}

#[test]
fn create_dune_stores_record() {
    let (pda, bump) = pda_for(&OWNER, "Dune");
    let commit = add_movie_review(
        &PROGRAM,
        &OWNER,
        true,
        &pda,
        &[],
        "Dune".to_string(),
        "Great".to_string(),
        5,
    )
    .unwrap();
    assert_eq!(commit.allocate_bump, Some(bump));
    assert_eq!(commit.data.len(), MAX_RECORD_LEN);
    let stored = MovieAccountState::try_from_slice(&commit.data).unwrap();
    assert!(stored.is_initialized);
    assert_eq!(stored.rating, 5);
    assert_eq!(stored.title, "Dune");
    assert_eq!(stored.description, "Great");
    assert_eq!(&commit.data[..2], &[1u8, 5u8]);
    assert_eq!(&commit.data[2..10], &string_field("Dune")[..]);
    assert!(commit.data[21..].iter().all(|b| *b == 0));
}

#[test]
fn update_dune_changes_rating_keeps_title() {
    let cell = create(&[], "Dune", "Great", 5).unwrap();
    let updated = update(&cell, "Dune", "Still great", 3).unwrap();
    assert_eq!(updated.len(), cell.len());
    let stored = MovieAccountState::try_from_slice(&updated).unwrap();
    assert!(stored.is_initialized);
    assert_eq!(stored.rating, 3);
    assert_eq!(stored.title, "Dune");
    assert_eq!(stored.description, "Still great");
}

#[test]
fn create_too_large_is_rejected() {
    let description = "x".repeat(991);
    assert_eq!(create(&[], "Dune", &description, 4), Err(ReviewErrors::RecordTooLarge));
    let description = "x".repeat(986);
    assert!(create(&[], "Dune", &description, 4).is_ok());
    let description = "x".repeat(987);
    assert_eq!(create(&[], "Dune", &description, 4), Err(ReviewErrors::RecordTooLarge));
}

#[test]
fn create_twice_is_rejected() {
    let cell = create(&[], "Dune", "Great", 5).unwrap();
    assert_eq!(create(&cell, "Dune", "Great", 5), Err(ReviewErrors::AlreadyInitialized));
}

#[test]
fn update_before_create_is_rejected() {
    let cell = vec![0u8; MAX_RECORD_LEN];
    assert_eq!(update(&cell, "Dune", "Great", 4), Err(ReviewErrors::UninitializedAccount));
}

#[test]
fn rating_bound() {
    assert_eq!(create(&[], "Dune", "Great", 6), Err(ReviewErrors::InvalidRating));
    assert!(create(&[], "Dune", "Great", 0).is_ok());
    assert!(create(&[], "Dune", "Great", 5).is_ok());
    let cell = create(&[], "Dune", "Great", 5).unwrap();
    assert_eq!(update(&cell, "Dune", "Meh", 6), Err(ReviewErrors::InvalidRating));
    assert!(update(&cell, "Dune", "Meh", 0).is_ok());
    assert!(update(&cell, "Dune", "Meh", 5).is_ok());
}

#[test]
fn tampered_address_is_rejected() {
    let (other, _) = pda_for(&OWNER, "Arrival");
    let r = add_movie_review(
        &PROGRAM,
        &OWNER,
        true,
        &other,
        &[],
        "Dune".to_string(),
        "Great".to_string(),
        5,
    );
    assert!(matches!(r, Err(ReviewErrors::InvalidDerivedAddress)));
    let cell = create(&[], "Dune", "Great", 5).unwrap();
    let r = update_movie_review(
        &PROGRAM,
        &OWNER,
        true,
        &PROGRAM,
        &other,
        &cell,
        "Dune".to_string(),
        "Great".to_string(),
        5,
    );
    assert_eq!(r, Err(ReviewErrors::InvalidDerivedAddress));
}

#[test]
fn update_with_other_title_is_rejected() {
    let cell = create(&[], "Dune", "Great", 5).unwrap();
    let (pda, bump) = pda_for(&OWNER, "Dune");
    let r = update_movie_review_with(
        Some((pda, bump)),
        true,
        &PROGRAM,
        &PROGRAM,
        &pda,
        &cell,
        "Arrival".to_string(),
        "Great".to_string(),
        5,
    );
    assert_eq!(r, Err(ReviewErrors::InvalidDerivedAddress));
}

#[test]
fn missing_signature_is_rejected() {
    let (pda, _) = pda_for(&OWNER, "Dune");
    let r = add_movie_review(
        &PROGRAM,
        &OWNER,
        false,
        &pda,
        &[],
        "Dune".to_string(),
        "Great".to_string(),
        5,
    );
    assert!(matches!(r, Err(ReviewErrors::MissingSignature)));
    let cell = create(&[], "Dune", "Great", 5).unwrap();
    let r = update_movie_review(
        &PROGRAM,
        &OWNER,
        false,
        &PROGRAM,
        &pda,
        &cell,
        "Dune".to_string(),
        "Great".to_string(),
        5,
    );
    assert_eq!(r, Err(ReviewErrors::MissingSignature));
}

#[test]
fn foreign_cell_owner_is_rejected() {
    let cell = create(&[], "Dune", "Great", 5).unwrap();
    let (pda, _) = pda_for(&OWNER, "Dune");
    let r = update_movie_review(
        &PROGRAM,
        &OWNER,
        true,
        &[9u8; 32],
        &pda,
        &cell,
        "Dune".to_string(),
        "Great".to_string(),
        5,
    );
    assert_eq!(r, Err(ReviewErrors::InvalidAccountOwner));
}

#[test]
fn corrupt_cell_is_a_decode_failure() {
    let mut cell = vec![0u8; 20];
    cell[0] = 2;
    assert_eq!(create(&cell, "Dune", "Great", 5), Err(ReviewErrors::DecodeFailure));
    assert_eq!(update(&cell, "Dune", "Great", 5), Err(ReviewErrors::DecodeFailure));
}

#[test]
fn existing_small_cell_gets_no_allocation() {
    let (pda, _) = pda_for(&OWNER, "Dune");
    let cell = vec![0u8; 40];
    let commit = add_movie_review_with(
        Some((pda, 3)),
        true,
        &pda,
        &cell,
        "Dune".to_string(),
        "Great".to_string(),
        5,
    )
    .unwrap();
    assert_eq!(commit.allocate_bump, None);
    assert_eq!(commit.data.len(), 40);
    let small = vec![0u8; 12];
    let r = add_movie_review_with(
        Some((pda, 3)),
        true,
        &pda,
        &small,
        "Dune".to_string(),
        "Great".to_string(),
        5,
    );
    assert!(matches!(r, Err(ReviewErrors::RecordTooLarge)));
}

#[test]
fn no_derived_address_is_rejected() {
    let (pda, _) = pda_for(&OWNER, "Dune");
    let r = add_movie_review_with(None, true, &pda, &[], "Dune".to_string(), "Great".to_string(), 5);
    assert!(matches!(r, Err(ReviewErrors::InvalidDerivedAddress)));
}

#[test]
fn derivation_is_deterministic_and_matches_runtime() {
    let title = "Dune".to_string();
    let a = derive_review_address(&PROGRAM, &OWNER, &title).unwrap();
    let b = derive_review_address(&PROGRAM, &OWNER, &title).unwrap();
    assert_eq!(a, b);
    let (key, bump) = Pubkey::find_program_address(
        &[&OWNER[..], title.as_bytes()],
        &Pubkey::new_from_array(PROGRAM),
    );
    assert_eq!(a, (key.to_bytes(), bump));
    assert_ne!(a.0, OWNER);
    let c = derive_review_address(&PROGRAM, &[2u8; 32], &title).unwrap();
    assert_ne!(a.0, c.0);
}

#[test]
fn overlong_title_has_no_address() {
    let title = "t".repeat(33);
    assert_eq!(derive_review_address(&PROGRAM, &OWNER, &title), None);
}

#[test]
fn keys_compare_bytewise() {
    let mut k = OWNER;
    assert!(keys_equal(&OWNER, &k));
    k[31] = 0;
    assert!(!keys_equal(&OWNER, &k));
}

#[test]
fn zero_cell_decodes_to_empty_record() {
    let s = MovieAccountState::try_from_slice(&[0u8; 10]).unwrap();
    assert!(!s.is_initialized);
    assert_eq!(s.rating, 0);
    assert_eq!(s.title, "");
    assert_eq!(s.description, "");
    let s = MovieAccountState::try_from_slice(&[0u8; 1000]).unwrap();
    assert!(!s.is_initialized);
}

#[test]
fn record_round_trip() {
    let r = MovieAccountState {
        is_initialized: true,
        rating: 4,
        title: "Amélie".to_string(),
        description: "très bien ✓".to_string(),
    };
    let bytes = r.to_bytes();
    assert_eq!(bytes.len(), r.encoded_len());
    assert_eq!(bytes.len(), 10 + "Amélie".len() + "très bien ✓".len());
    let back = MovieAccountState::try_from_slice(&bytes).unwrap();
    assert!(back.is_initialized);
    assert_eq!(back.rating, 4);
    assert_eq!(back.title, r.title);
    assert_eq!(back.description, r.description);
}

#[test]
fn record_layout_matches_borsh() {
    let r = MovieAccountState {
        is_initialized: false,
        rating: 2,
        title: "Her".to_string(),
        description: "Quiet".to_string(),
    };
    let mut expected = vec![0u8, 2u8];
    expected.extend(borsh::to_vec(&"Her".to_string()).unwrap());
    expected.extend(borsh::to_vec(&"Quiet".to_string()).unwrap());
    assert_eq!(r.to_bytes(), expected);
    assert_eq!(MovieAccountState::new().to_bytes(), vec![0u8; 10]);
}

#[test]
fn decode_rejects_malformed_bytes() {
    assert_eq!(MovieAccountState::try_from_slice(&[]).err(), Some(ReviewErrors::DecodeFailure));
    assert_eq!(MovieAccountState::try_from_slice(&[1, 5, 0, 0]).err(), Some(ReviewErrors::DecodeFailure));
    let mut bad_len = vec![1u8, 5u8, 9, 0, 0, 0, b'a'];
    bad_len.extend([0u8; 4]);
    assert_eq!(MovieAccountState::try_from_slice(&bad_len).err(), Some(ReviewErrors::DecodeFailure));
    let mut bad_utf8 = vec![1u8, 5u8, 2, 0, 0, 0, 0xff, 0xfe];
    bad_utf8.extend([0u8; 4]);
    assert_eq!(MovieAccountState::try_from_slice(&bad_utf8).err(), Some(ReviewErrors::DecodeFailure));
    assert_eq!(MovieAccountState::try_from_slice(&[3u8; 10]).err(), Some(ReviewErrors::DecodeFailure));
}

#[test]
fn write_into_keeps_tail_or_refuses() {
    let r = MovieAccountState {
        is_initialized: true,
        rating: 1,
        title: "A".to_string(),
        description: "B".to_string(),
    };
    let mut cell = vec![9u8; 15];
    assert_eq!(r.write_into(&mut cell), Ok(()));
    assert_eq!(cell, vec![1, 1, 1, 0, 0, 0, b'A', 1, 0, 0, 0, b'B', 9, 9, 9]);
    let mut small = vec![9u8; 11];
    assert_eq!(r.write_into(&mut small), Err(ReviewErrors::RecordTooLarge));
    assert_eq!(small, vec![9u8; 11]);
}

fn instruction_bytes(variant: u8, title: &str, rating: u8, description: &str) -> Vec<u8> {
    let mut v = vec![variant];
    v.extend(string_field(title));
    v.push(rating);
    v.extend(string_field(description));
    v
}

#[test]
fn unpack_create_and_update() {
    match MovieInstruction::unpack(&instruction_bytes(0, "Dune", 5, "Great")).unwrap() {
        MovieInstruction::AddMovieReview { title, rating, description } => {
            assert_eq!(title, "Dune");
            assert_eq!(rating, 5);
            assert_eq!(description, "Great");
        }
        _ => panic!("expected a create"),
    }
    match MovieInstruction::unpack(&instruction_bytes(1, "Dune", 3, "Still great")).unwrap() {
        MovieInstruction::UpdateMovieReview { title, rating, description } => {
            assert_eq!(title, "Dune");
            assert_eq!(rating, 3);
            assert_eq!(description, "Still great");
        }
        _ => panic!("expected an update"),
    }
}

#[test]
fn unpack_rejects_malformed_instructions() {
    assert!(matches!(MovieInstruction::unpack(&[]), Err(ReviewErrors::DecodeFailure)));
    let bad_variant = instruction_bytes(2, "Dune", 5, "Great");
    assert!(matches!(MovieInstruction::unpack(&bad_variant), Err(ReviewErrors::DecodeFailure)));
    let mut trailing = instruction_bytes(0, "Dune", 5, "Great");
    trailing.push(0);
    assert!(matches!(MovieInstruction::unpack(&trailing), Err(ReviewErrors::DecodeFailure)));
    let full = instruction_bytes(0, "Dune", 5, "Great");
    assert!(matches!(MovieInstruction::unpack(&full[..full.len() - 1]), Err(ReviewErrors::DecodeFailure)));
}

#[test]
fn error_codes_are_distinct() {
    let all = [
        ReviewErrors::MissingSignature,
        ReviewErrors::InvalidDerivedAddress,
        ReviewErrors::InvalidAccountOwner,
        ReviewErrors::InvalidRating,
        ReviewErrors::RecordTooLarge,
        ReviewErrors::AlreadyInitialized,
        ReviewErrors::UninitializedAccount,
        ReviewErrors::DecodeFailure,
    ];
    for (i, e) in all.iter().enumerate() {
        assert_eq!(e.code(), i as u32);
    }
}
