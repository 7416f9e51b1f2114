use vstd::prelude::*;

use crate::error::ReviewErrors;
use crate::state::{parse_string, read_string};

verus! {

/// The two operations on a review.
pub enum MovieInstruction {
    AddMovieReview { title: String, rating: u8, description: String },
    UpdateMovieReview { title: String, rating: u8, description: String },
}

/// The mathematical content of an instruction.
pub enum InstructionModel {
    Add { title: Seq<char>, rating: u8, description: Seq<char> },
    Update { title: Seq<char>, rating: u8, description: Seq<char> },
}

impl View for MovieInstruction {
    type V = InstructionModel;

    open spec fn view(&self) -> InstructionModel {
        match self {
            MovieInstruction::AddMovieReview { title, rating, description } => InstructionModel::Add {
                title: title@,
                rating: *rating,
                description: description@,
            },
            MovieInstruction::UpdateMovieReview { title, rating, description } => InstructionModel::Update {
                title: title@,
                rating: *rating,
                description: description@,
            },
        }
    }
}

/// The instruction in `b`: a variant byte (0 create, 1 update), then the
/// title field, the rating byte and the description field, and nothing more.
pub open spec fn parse_instruction(b: Seq<u8>) -> Option<InstructionModel> {
    if b.len() < 1 || b[0] > 1 {
        None
    } else {
        match parse_string(b, 1) {
            None => None,
            Some((title, next)) => if next >= b.len() {
                None
            } else {
                match parse_string(b, next + 1) {
                    None => None,
                    Some((description, end)) => if end != b.len() {
                        None
                    } else if b[0] == 0 {
                        Some(InstructionModel::Add { title, rating: b[next], description })
                    } else {
                        Some(InstructionModel::Update { title, rating: b[next], description })
                    },
                }
            },
        }
    }
}

impl MovieInstruction {
    /// Decodes an instruction; every malformed input is a `DecodeFailure`.
    pub fn unpack(input: &[u8]) -> (r: Result<MovieInstruction, ReviewErrors>)
        ensures
            match parse_instruction(input@) {
                Some(m) => r is Ok && r->Ok_0@ == m,
                None => r is Err && r->Err_0 == ReviewErrors::DecodeFailure,
            },
    {
        if input.len() < 1 || input[0] > 1 {
            return Err(ReviewErrors::DecodeFailure);
        }
        let (title, next) = match read_string(input, 1) {
            None => {
                return Err(ReviewErrors::DecodeFailure);
            },
            Some(p) => p,
        };
        if next >= input.len() {
            return Err(ReviewErrors::DecodeFailure);
        }
        let rating = input[next];
        let (description, end) = match read_string(input, next + 1) {
            None => {
                return Err(ReviewErrors::DecodeFailure);
            },
            Some(p) => p,
        };
        if end != input.len() {
            return Err(ReviewErrors::DecodeFailure);
        }
        if input[0] == 0 {
            Ok(MovieInstruction::AddMovieReview { title, rating, description })
        } else {
            Ok(MovieInstruction::UpdateMovieReview { title, rating, description })
        }
    }
}

} // verus!
