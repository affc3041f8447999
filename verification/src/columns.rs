//! The fixed column layout of a trace row.

use vstd::prelude::*;
use crate::opcode::NUM_BYTE_OP_COLS;

verus! {

/// Total number of columns in a trace row: a result, a multiplicity
/// and a filter column per materialized opcode, then the two shared
/// operand columns.
pub const NUM_BYTE_COLS: usize = 3 * NUM_BYTE_OP_COLS + 2;

/// Offset of the result column of column group `i`.
pub open spec fn spec_opcode_index(i: int) -> int {
    i
}

/// Offset of the multiplicity column of column group `i`.
pub open spec fn spec_multiplicities_index(i: int) -> int {
    NUM_BYTE_OP_COLS + i
}

/// Offset of the filter column of column group `i`.
pub open spec fn spec_filter_index(i: int) -> int {
    2 * NUM_BYTE_OP_COLS + i
}

/// Offset of the shared operand column `b`.
pub open spec fn spec_b_index() -> int {
    NUM_BYTE_COLS - 2
}

/// Offset of the shared operand column `c`.
pub open spec fn spec_c_index() -> int {
    NUM_BYTE_COLS - 1
}

/// The index of the result column of column group `i`.
pub fn opcode_index(i: usize) -> (r: usize)
    requires
        i < NUM_BYTE_OP_COLS,
    ensures
        r == spec_opcode_index(i as int),
        r < NUM_BYTE_COLS,
{
    i
}

/// The index of the multiplicity column of column group `i`.
pub fn multiplicities_index(i: usize) -> (r: usize)
    requires
        i < NUM_BYTE_OP_COLS,
    ensures
        r == spec_multiplicities_index(i as int),
        r < NUM_BYTE_COLS,
{
    NUM_BYTE_OP_COLS + i
}

/// The index of the filter column of column group `i`.
pub fn filter_index(i: usize) -> (r: usize)
    requires
        i < NUM_BYTE_OP_COLS,
    ensures
        r == spec_filter_index(i as int),
        r < NUM_BYTE_COLS,
{
    2 * NUM_BYTE_OP_COLS + i
}

/// The index of the shared operand column `b`.
pub fn b_index() -> (r: usize)
    ensures
        r == spec_b_index(),
        r < NUM_BYTE_COLS,
{
    NUM_BYTE_COLS - 2
}

/// The index of the shared operand column `c`.
pub fn c_index() -> (r: usize)
    ensures
        r == spec_c_index(),
        r < NUM_BYTE_COLS,
{
    NUM_BYTE_COLS - 1
}

} // verus!
