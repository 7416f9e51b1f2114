//! Movie reviews kept in program-derived storage cells: the record layout,
//! the instruction layout, address derivation and the create / update rules.

pub mod address;
pub mod error;
pub mod instruction;
pub mod processor;
pub mod state;
