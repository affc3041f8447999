//! A byte-operation lookup chip for a STARK proof system.
//!
//! The chip proves byte-level operations (bitwise AND/OR/XOR, unsigned
//! less-or-equal, and byte-range membership) by reduction to a lookup
//! argument against an exhaustive table of all 65536 byte pairs.
//! Trace values are canonical elements of the 64-bit Goldilocks field,
//! carried as plain `u64`; the verifier side works in the degree-2
//! extension of that field.

use vstd::prelude::*;

pub mod opcode;
pub mod columns;
pub mod event;
pub mod byte_stark;
pub mod lookup;
pub mod field;
pub mod vanishing_poly;
pub mod stark_verifier;

verus! {

/// Number of rows in the exhaustive half of the byte trace:
/// one row for each pair of byte operands.
pub const NUM_ROWS: usize = 65536;

} // verus!

