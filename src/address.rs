use vstd::prelude::*;

use solana_program::pubkey::Pubkey;

verus! {

/// The program-derived address and bump found for the seeds
/// (owner key, UTF-8 bytes of the title) under a program id, or none where
/// the search finds none.
pub uninterp spec fn review_address(program_id: Seq<u8>, owner: Seq<u8>, title: Seq<char>) -> Option<(Seq<u8>, u8)>;

/// An address and bump as plain values.
pub open spec fn derived_view(d: Option<([u8; 32], u8)>) -> Option<(Seq<u8>, u8)> {
    match d {
        Some((a, bump)) => Some((a@, bump)),
        None => None,
    }
}

/// Relies on solana_program's Pubkey::try_find_program_address: a
/// deterministic search over the seeds and the program id that returns the
/// first off-curve address with its bump, or none.
#[verifier::external_body]
fn find_review_address(program_id: &[u8; 32], owner: &[u8; 32], title: &String) -> (r: Option<
    ([u8; 32], u8),
>)
    ensures
        derived_view(r) == review_address(program_id@, owner@, title@),
{
    let seeds: [&[u8]; 2] = [owner.as_ref(), title.as_bytes()];
    match Pubkey::try_find_program_address(&seeds, &Pubkey::new_from_array(*program_id)) {
        Some((key, bump)) => Some((key.to_bytes(), bump)),
        None => None,
    }
}

/// Derives the storage address of the review that `owner` keeps under
/// `title`, with its bump. The result depends on the three arguments alone.
pub fn derive_review_address(program_id: &[u8; 32], owner: &[u8; 32], title: &String) -> (r: Option<
    ([u8; 32], u8),
>)
    ensures
        derived_view(r) == review_address(program_id@, owner@, title@),
{
    find_review_address(program_id, owner, title)
}

/// Compares two keys byte for byte.
pub fn keys_equal(a: &[u8; 32], b: &[u8; 32]) -> (r: bool)
    ensures
        r == (a@ == b@),
{
    let mut i: usize = 0;
    while i < 32
        invariant
            i <= 32,
            a@.len() == 32,
            b@.len() == 32,
            forall|k: int| 0 <= k < i ==> a@[k] == b@[k],
        decreases 32 - i,
    {
        if a[i] != b[i] {
            return false;
        }
        i = i + 1;
    }
    assert(a@ =~= b@);
    true
}

/// Derivation is deterministic: two derivations for the same program id,
/// owner and title give the same address and the same bump.
pub proof fn lemma_derivation_deterministic(
    program_id: Seq<u8>,
    owner: Seq<u8>,
    title: Seq<char>,
    first: Option<([u8; 32], u8)>,
    second: Option<([u8; 32], u8)>,
)
    requires
        derived_view(first) == review_address(program_id, owner, title),
        derived_view(second) == review_address(program_id, owner, title),
    ensures
        first == second,
{
    broadcast use vstd::array::axiom_array_ext_equal;

    if let (Some((a1, b1)), Some((a2, b2))) = (first, second) {
        assert(a1@ == a2@);
        assert(a1 =~= a2);
    }
}

} // verus!
