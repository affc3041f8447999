//! The closed catalog of byte-level opcodes.

use vstd::prelude::*;

verus! {

/// Number of byte-level opcodes supported.
pub const NUM_BYTE_OPS: usize = 5;

/// Number of opcodes that each occupy one column group in the trace
/// table: AND, OR, XOR and LEU. U8Range is rewritten at trace
/// generation time and has no column group of its own.
pub const NUM_BYTE_OP_COLS: usize = 4;

/// A byte-level opcode.
#[derive(Debug, Clone, Copy, PartialEq, Eq, Structural, PartialOrd, Ord, Hash)]
pub enum ByteOpcode {
    /// Bitwise AND; occupies column group 0.
    AND,
    /// Bitwise OR; occupies column group 1.
    OR,
    /// Bitwise XOR; occupies column group 2.
    XOR,
    /// Unsigned less-or-equal on bytes; occupies column group 3.
    LEU,
    /// Byte-range membership check; has no column group and is
    /// expressed through four LEU requests per event.
    U8Range,
}

/// The fixed numeric index of an opcode; for the first four opcodes it
/// is also the column group the opcode occupies.
pub open spec fn opcode_number(op: ByteOpcode) -> int {
    match op {
        ByteOpcode::AND => 0,
        ByteOpcode::OR => 1,
        ByteOpcode::XOR => 2,
        ByteOpcode::LEU => 3,
        ByteOpcode::U8Range => 4,
    }
}

/// Whether an opcode occupies a column group of its own.
pub open spec fn is_materialized(op: ByteOpcode) -> bool {
    op != ByteOpcode::U8Range
}

/// The opcode occupying column group `g`.
pub open spec fn group_opcode(g: int) -> ByteOpcode {
    if g == 0 {
        ByteOpcode::AND
    } else if g == 1 {
        ByteOpcode::OR
    } else if g == 2 {
        ByteOpcode::XOR
    } else {
        ByteOpcode::LEU
    }
}

/// The value of a materialized opcode on byte operands. LEU yields 1
/// when `b <= c` and 0 otherwise. The value for U8Range is unused: it
/// never reaches a table cell.
pub open spec fn opcode_value(op: ByteOpcode, b: u8, c: u8) -> u8 {
    match op {
        ByteOpcode::AND => b & c,
        ByteOpcode::OR => b | c,
        ByteOpcode::XOR => b ^ c,
        ByteOpcode::LEU => if b <= c { 1u8 } else { 0u8 },
        ByteOpcode::U8Range => 0u8,
    }
}

/// The column group index of a materialized opcode.
pub fn opcode_group(op: ByteOpcode) -> (g: usize)
    requires
        is_materialized(op),
    ensures
        g == opcode_number(op),
        g < NUM_BYTE_OP_COLS,
{
    match op {
        ByteOpcode::AND => 0,
        ByteOpcode::OR => 1,
        ByteOpcode::XOR => 2,
        ByteOpcode::LEU => 3,
        ByteOpcode::U8Range => 4,
    }
}

/// All byte opcodes, in the order of their numeric indices.
pub fn all_byte_opcodes() -> (ops: Vec<ByteOpcode>)
    ensures
        ops@ == seq![
            ByteOpcode::AND,
            ByteOpcode::OR,
            ByteOpcode::XOR,
            ByteOpcode::LEU,
            ByteOpcode::U8Range,
        ],
{
    let ops = vec![
        ByteOpcode::AND,
        ByteOpcode::OR,
        ByteOpcode::XOR,
        ByteOpcode::LEU,
        ByteOpcode::U8Range,
    ];
    assert(ops@ =~= seq![
        ByteOpcode::AND,
        ByteOpcode::OR,
        ByteOpcode::XOR,
        ByteOpcode::LEU,
        ByteOpcode::U8Range,
    ]);
    ops
}

} // verus!
