use vstd::prelude::*;

use crate::address::{derive_review_address, derived_view, keys_equal, review_address};
use crate::error::ReviewErrors;
use crate::state::{
    encode_record, lemma_decode_encode, lemma_encoded_len, lemma_zero_cell_decodes_empty, fits_layout, overwrite, parse_record, record_len, utf8_len, MovieAccountState,
    RecordModel, MAX_RECORD_LEN,
};

verus! {

/// What a successful create leaves for the runtime to do: allocate the cell
/// (`MAX_RECORD_LEN` bytes, signed for with the bump) where it does not exist
/// yet, then write `data` into it.
pub struct CreateCommit {
    pub allocate_bump: Option<u8>,
    pub data: Vec<u8>,
}

/// The derived address exists and is the one handed in.
pub open spec fn address_matches(derived: Option<(Seq<u8>, u8)>, pda: Seq<u8>) -> bool {
    derived is Some && derived->Some_0.0 == pda
}

/// The content of a freshly allocated cell: zeros.
pub open spec fn fresh_cell() -> Seq<u8> {
    Seq::new(MAX_RECORD_LEN as nat, |i: int| 0u8)
}

/// The review that a create or an update writes.
pub open spec fn written_record(title: Seq<char>, rating: u8, description: Seq<char>) -> RecordModel {
    RecordModel { is_initialized: true, rating, title, description }
}

/// The outcome of a create: the bump to allocate the cell with (none where
/// it exists already) and the cell's new content, or the first rule broken.
pub open spec fn create_outcome(
    derived: Option<(Seq<u8>, u8)>,
    is_signer: bool,
    pda: Seq<u8>,
    cell: Seq<u8>,
    title: Seq<char>,
    description: Seq<char>,
    rating: u8,
) -> Result<(Option<u8>, Seq<u8>), ReviewErrors> {
    if !is_signer {
        Err(ReviewErrors::MissingSignature)
    } else if !address_matches(derived, pda) {
        Err(ReviewErrors::InvalidDerivedAddress)
    } else if rating > 5 {
        Err(ReviewErrors::InvalidRating)
    } else if record_len(title, description) > MAX_RECORD_LEN {
        Err(ReviewErrors::RecordTooLarge)
    } else {
        let base = if cell.len() == 0 {
            fresh_cell()
        } else {
            cell
        };
        match parse_record(base) {
            None => Err(ReviewErrors::DecodeFailure),
            Some(existing) => if existing.is_initialized {
                Err(ReviewErrors::AlreadyInitialized)
            } else {
                let bytes = encode_record(written_record(title, rating, description));
                if bytes.len() > base.len() {
                    Err(ReviewErrors::RecordTooLarge)
                } else {
                    Ok(
                        (
                            if cell.len() == 0 {
                                Some(derived->Some_0.1)
                            } else {
                                None
                            },
                            overwrite(base, bytes),
                        ),
                    )
                }
            },
        }
    }
}

/// The outcome of an update: the cell's new content, or the first rule broken.
pub open spec fn update_outcome(
    derived: Option<(Seq<u8>, u8)>,
    is_signer: bool,
    cell_owner: Seq<u8>,
    program_id: Seq<u8>,
    pda: Seq<u8>,
    cell: Seq<u8>,
    title: Seq<char>,
    description: Seq<char>,
    rating: u8,
) -> Result<Seq<u8>, ReviewErrors> {
    if !is_signer {
        Err(ReviewErrors::MissingSignature)
    } else if cell_owner != program_id {
        Err(ReviewErrors::InvalidAccountOwner)
    } else if !address_matches(derived, pda) {
        Err(ReviewErrors::InvalidDerivedAddress)
    } else if rating > 5 {
        Err(ReviewErrors::InvalidRating)
    } else if record_len(title, description) > MAX_RECORD_LEN {
        Err(ReviewErrors::RecordTooLarge)
    } else {
        match parse_record(cell) {
            None => Err(ReviewErrors::DecodeFailure),
            Some(existing) => if !existing.is_initialized {
                Err(ReviewErrors::UninitializedAccount)
            } else if existing.title != title {
                Err(ReviewErrors::InvalidDerivedAddress)
            } else {
                let bytes = encode_record(written_record(title, rating, description));
                if bytes.len() > cell.len() {
                    Err(ReviewErrors::RecordTooLarge)
                } else {
                    Ok(overwrite(cell, bytes))
                }
            },
        }
    }
}

pub open spec fn commit_view(r: Result<CreateCommit, ReviewErrors>) -> Result<(Option<u8>, Seq<u8>), ReviewErrors> {
    match r {
        Ok(c) => Ok((c.allocate_bump, c.data@)),
        Err(e) => Err(e),
    }
}

pub open spec fn bytes_view(r: Result<Vec<u8>, ReviewErrors>) -> Result<Seq<u8>, ReviewErrors> {
    match r {
        Ok(v) => Ok(v@),
        Err(e) => Err(e),
    }
}

/// The checks that both operations make after the signer and the owner: the
/// address, the rating and the size, in that order. Returns the bump.
fn check_request(
    derived: &Option<([u8; 32], u8)>,
    pda_key: &[u8; 32],
    title: &String,
    description: &String,
    rating: u8,
) -> (r: Result<u8, ReviewErrors>)
    ensures
        !address_matches(derived_view(*derived), pda_key@) ==> r == Err::<u8, ReviewErrors>(
            ReviewErrors::InvalidDerivedAddress,
        ),
        address_matches(derived_view(*derived), pda_key@) && rating > 5 ==> r == Err::<u8, ReviewErrors>(
            ReviewErrors::InvalidRating,
        ),
        address_matches(derived_view(*derived), pda_key@) && rating <= 5 && record_len(title@, description@)
            > MAX_RECORD_LEN ==> r == Err::<u8, ReviewErrors>(ReviewErrors::RecordTooLarge),
        address_matches(derived_view(*derived), pda_key@) && rating <= 5 && record_len(title@, description@)
            <= MAX_RECORD_LEN ==> r == Ok::<u8, ReviewErrors>(derived_view(*derived)->Some_0.1),
{
    let bump = match derived {
        Some((addr, bump)) => {
            if !keys_equal(addr, pda_key) {
                return Err(ReviewErrors::InvalidDerivedAddress);
            }
            *bump
        },
        None => {
            return Err(ReviewErrors::InvalidDerivedAddress);
        },
    };
    if rating > 5 {
        return Err(ReviewErrors::InvalidRating);
    }
    let title_len = utf8_len(title);
    let description_len = utf8_len(description);
    if title_len > MAX_RECORD_LEN || description_len > MAX_RECORD_LEN || 10 + title_len
        + description_len > MAX_RECORD_LEN {
        return Err(ReviewErrors::RecordTooLarge);
    }
    Ok(bump)
}

/// Creates a review given the address derivation's result: checks the
/// signer, the address, the rating, the size and that no review lives in the
/// cell yet, and returns what to allocate and write. An empty `cell` is one
/// that does not exist yet; it is allocated zero-filled.
pub fn add_movie_review_with(
    derived: Option<([u8; 32], u8)>,
    is_signer: bool,
    pda_key: &[u8; 32],
    cell: &[u8],
    title: String,
    description: String,
    rating: u8,
) -> (r: Result<CreateCommit, ReviewErrors>)
    ensures
        commit_view(r) == create_outcome(
            derived_view(derived),
            is_signer,
            pda_key@,
            cell@,
            title@,
            description@,
            rating,
        ),
{
    if !is_signer {
        return Err(ReviewErrors::MissingSignature);
    }
    let bump = match check_request(&derived, pda_key, &title, &description, rating) {
        Ok(b) => b,
        Err(e) => {
            return Err(e);
        },
    };
    let fresh = cell.len() == 0;
    let mut base: Vec<u8> = if fresh {
        vec![0u8; MAX_RECORD_LEN]
    } else {
        vstd::slice::slice_to_vec(cell)
    };
    assert(fresh ==> base@ =~= fresh_cell());
    let existing = match MovieAccountState::try_from_slice(base.as_slice()) {
        Ok(m) => m,
        Err(e) => {
            return Err(e);
        },
    };
    if existing.is_initialized {
        return Err(ReviewErrors::AlreadyInitialized);
    }
    let record = MovieAccountState { is_initialized: true, rating, title, description };
    match record.write_into(&mut base) {
        Ok(()) => {},
        Err(e) => {
            return Err(e);
        },
    }
    Ok(CreateCommit { allocate_bump: if fresh { Some(bump) } else { None }, data: base })
}

/// Creates the review that `initializer` keeps under `title`: derives its
/// address from `program_id`, `initializer` and `title`, then goes on as
/// `add_movie_review_with`.
pub fn add_movie_review(
    program_id: &[u8; 32],
    initializer: &[u8; 32],
    is_signer: bool,
    pda_key: &[u8; 32],
    cell: &[u8],
    title: String,
    description: String,
    rating: u8,
) -> (r: Result<CreateCommit, ReviewErrors>)
    ensures
        commit_view(r) == create_outcome(
            review_address(program_id@, initializer@, title@),
            is_signer,
            pda_key@,
            cell@,
            title@,
            description@,
            rating,
        ),
{
    let derived = derive_review_address(program_id, initializer, &title);
    add_movie_review_with(derived, is_signer, pda_key, cell, title, description, rating)
}

/// Updates a review given the address derivation's result: checks the
/// signer, the cell's owner, the address, the rating, the size, that a review
/// lives in the cell and that it has this title; returns the cell's new
/// content, with the new rating and description.
pub fn update_movie_review_with(
    derived: Option<([u8; 32], u8)>,
    is_signer: bool,
    cell_owner: &[u8; 32],
    program_id: &[u8; 32],
    pda_key: &[u8; 32],
    cell: &[u8],
    title: String,
    description: String,
    rating: u8,
) -> (r: Result<Vec<u8>, ReviewErrors>)
    ensures
        bytes_view(r) == update_outcome(
            derived_view(derived),
            is_signer,
            cell_owner@,
            program_id@,
            pda_key@,
            cell@,
            title@,
            description@,
            rating,
        ),
{
    if !is_signer {
        return Err(ReviewErrors::MissingSignature);
    }
    if !keys_equal(cell_owner, program_id) {
        return Err(ReviewErrors::InvalidAccountOwner);
    }
    match check_request(&derived, pda_key, &title, &description, rating) {
        Ok(_) => {},
        Err(e) => {
            return Err(e);
        },
    }
    let existing = match MovieAccountState::try_from_slice(cell) {
        Ok(m) => m,
        Err(e) => {
            return Err(e);
        },
    };
    if !existing.is_initialized {
        return Err(ReviewErrors::UninitializedAccount);
    }
    if existing.title != title {
        return Err(ReviewErrors::InvalidDerivedAddress);
    }
    let mut data = vstd::slice::slice_to_vec(cell);
    let record = MovieAccountState { is_initialized: true, rating, title, description };
    match record.write_into(&mut data) {
        Ok(()) => {},
        Err(e) => {
            return Err(e);
        },
    }
    Ok(data)
}

/// Updates the review that `initializer` keeps under `title`: derives its
/// address from `program_id`, `initializer` and `title`, then goes on as
/// `update_movie_review_with`.
pub fn update_movie_review(
    program_id: &[u8; 32],
    initializer: &[u8; 32],
    is_signer: bool,
    cell_owner: &[u8; 32],
    pda_key: &[u8; 32],
    cell: &[u8],
    title: String,
    description: String,
    rating: u8,
) -> (r: Result<Vec<u8>, ReviewErrors>)
    ensures
        bytes_view(r) == update_outcome(
            review_address(program_id@, initializer@, title@),
            is_signer,
            cell_owner@,
            program_id@,
            pda_key@,
            cell@,
            title@,
            description@,
            rating,
        ),
{
    let derived = derive_review_address(program_id, initializer, &title);
    update_movie_review_with(
        derived,
        is_signer,
        cell_owner,
        program_id,
        pda_key,
        cell,
        title,
        description,
        rating,
    )
}

/// Creating twice: once a create has succeeded, the same create on the cell
/// it wrote is rejected as already initialized.
pub proof fn lemma_create_twice_rejected(
    program_id: Seq<u8>,
    initializer: Seq<u8>,
    pda: Seq<u8>,
    cell: Seq<u8>,
    title: Seq<char>,
    description: Seq<char>,
    rating: u8,
)
    requires
        create_outcome(review_address(program_id, initializer, title), true, pda, cell, title, description, rating) is Ok,
    ensures
        create_outcome(
            review_address(program_id, initializer, title),
            true,
            pda,
            create_outcome(review_address(program_id, initializer, title), true, pda, cell, title, description, rating)->Ok_0.1,
            title,
            description,
            rating,
        ) == Err::<(Option<u8>, Seq<u8>), ReviewErrors>(ReviewErrors::AlreadyInitialized),
{
    let base = if cell.len() == 0 {
        fresh_cell()
    } else {
        cell
    };
    let rec = written_record(title, rating, description);
    let bytes = encode_record(rec);
    lemma_encoded_len(rec);
    lemma_decode_encode(rec, base.skip(bytes.len() as int));
}

/// An update of a review that was never created, on a zero-filled cell that
/// the program owns, is rejected as uninitialized once the signer, address,
/// rating and size checks pass.
pub proof fn lemma_update_before_create_rejected(
    program_id: Seq<u8>,
    initializer: Seq<u8>,
    pda: Seq<u8>,
    cell_len: nat,
    title: Seq<char>,
    description: Seq<char>,
    rating: u8,
)
    requires
        address_matches(review_address(program_id, initializer, title), pda),
        rating <= 5,
        record_len(title, description) <= MAX_RECORD_LEN,
        cell_len >= 10,
    ensures
        update_outcome(
            review_address(program_id, initializer, title),
            true,
            program_id,
            program_id,
            pda,
            Seq::new(cell_len, |i: int| 0u8),
            title,
            description,
            rating,
        ) == Err::<Seq<u8>, ReviewErrors>(ReviewErrors::UninitializedAccount),
{
    lemma_zero_cell_decodes_empty(cell_len);
}

/// The rating bound on create: on a cell that does not exist yet, with a
/// signer, the derived address and a review within the size ceiling, a rating
/// above 5 is rejected and any rating up to 5 succeeds.
pub proof fn lemma_create_rating_bound(
    program_id: Seq<u8>,
    initializer: Seq<u8>,
    pda: Seq<u8>,
    title: Seq<char>,
    description: Seq<char>,
    rating: u8,
)
    requires
        address_matches(review_address(program_id, initializer, title), pda),
        record_len(title, description) <= MAX_RECORD_LEN,
    ensures
        rating > 5 ==> create_outcome(review_address(program_id, initializer, title), true, pda, Seq::empty(), title, description, rating)
            == Err::<(Option<u8>, Seq<u8>), ReviewErrors>(ReviewErrors::InvalidRating),
        rating <= 5 ==> create_outcome(review_address(program_id, initializer, title), true, pda, Seq::empty(), title, description, rating) is Ok,
{
    lemma_zero_cell_decodes_empty(MAX_RECORD_LEN as nat);
    assert(Seq::new(MAX_RECORD_LEN as nat, |i: int| 0u8) =~= fresh_cell());
    lemma_encoded_len(written_record(title, rating, description));
}

/// The rating bound on update: on a cell of the program that holds the
/// review with this title, with a signer, the derived address and a new
/// review that fits the ceiling and the cell, a rating above 5 is rejected
/// and any rating up to 5 succeeds.
pub proof fn lemma_update_rating_bound(
    program_id: Seq<u8>,
    initializer: Seq<u8>,
    pda: Seq<u8>,
    cell: Seq<u8>,
    title: Seq<char>,
    description: Seq<char>,
    rating: u8,
)
    requires
        address_matches(review_address(program_id, initializer, title), pda),
        record_len(title, description) <= MAX_RECORD_LEN,
        record_len(title, description) <= cell.len(),
        parse_record(cell) is Some,
        parse_record(cell)->Some_0.is_initialized,
        parse_record(cell)->Some_0.title == title,
    ensures
        rating > 5 ==> update_outcome(review_address(program_id, initializer, title), true, program_id, program_id, pda, cell, title, description, rating)
            == Err::<Seq<u8>, ReviewErrors>(ReviewErrors::InvalidRating),
        rating <= 5 ==> update_outcome(review_address(program_id, initializer, title), true, program_id, program_id, pda, cell, title, description, rating) is Ok,
{
    lemma_encoded_len(written_record(title, rating, description));
}

/// Tampering with the address: a signed create or update naming any cell but
/// the one derived from (initializer, title) is rejected as such, whatever
/// the cell holds and whatever the rating and description are.
pub proof fn lemma_tampered_address_rejected(
    program_id: Seq<u8>,
    initializer: Seq<u8>,
    pda: Seq<u8>,
    cell: Seq<u8>,
    title: Seq<char>,
    description: Seq<char>,
    rating: u8,
)
    requires
        !address_matches(review_address(program_id, initializer, title), pda),
    ensures
        create_outcome(review_address(program_id, initializer, title), true, pda, cell, title, description, rating)
            == Err::<(Option<u8>, Seq<u8>), ReviewErrors>(ReviewErrors::InvalidDerivedAddress),
        update_outcome(review_address(program_id, initializer, title), true, program_id, program_id, pda, cell, title, description, rating)
            == Err::<Seq<u8>, ReviewErrors>(ReviewErrors::InvalidDerivedAddress),
{
}

} // verus!
