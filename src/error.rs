use vstd::prelude::*;

verus! {

/// Why an operation on a review was rejected.
#[derive(Debug, Clone, Copy, PartialEq, Eq, Structural)]
pub enum ReviewErrors {
    /// The initializer did not sign the transaction.
    MissingSignature,
    /// The cell handed in is not the one derived from (initializer, title).
    InvalidDerivedAddress,
    /// The cell is not administered by this program.
    InvalidAccountOwner,
    /// The rating lies outside `0..=5`.
    InvalidRating,
    /// The encoded review would exceed the ceiling, or its cell.
    RecordTooLarge,
    /// A review already lives at this address.
    AlreadyInitialized,
    /// No review has been created at this address yet.
    UninitializedAccount,
    /// Stored or instruction bytes are malformed.
    DecodeFailure,
}

impl ReviewErrors {
    /// The numeric code under which the error is reported to the runtime.
    pub fn code(&self) -> (r: u32)
        ensures
            r < 8,
            r == self.spec_code(),
    {
        match self {
            ReviewErrors::MissingSignature => 0,
            ReviewErrors::InvalidDerivedAddress => 1,
            ReviewErrors::InvalidAccountOwner => 2,
            ReviewErrors::InvalidRating => 3,
            ReviewErrors::RecordTooLarge => 4,
            ReviewErrors::AlreadyInitialized => 5,
            ReviewErrors::UninitializedAccount => 6,
            ReviewErrors::DecodeFailure => 7,
        }
    }

    pub open spec fn spec_code(&self) -> u32 {
        match self {
            ReviewErrors::MissingSignature => 0,
            ReviewErrors::InvalidDerivedAddress => 1,
            ReviewErrors::InvalidAccountOwner => 2,
            ReviewErrors::InvalidRating => 3,
            ReviewErrors::RecordTooLarge => 4,
            ReviewErrors::AlreadyInitialized => 5,
            ReviewErrors::UninitializedAccount => 6,
            ReviewErrors::DecodeFailure => 7,
        }
    }
}

} // verus!
