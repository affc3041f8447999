//! A record of one requested byte-level operation.

use vstd::prelude::*;
use crate::opcode::ByteOpcode;

verus! {

/// One requested byte-level operation: `opcode(b, c) = a`.
/// Immutable, totally ordered and hashable.
#[derive(Debug, Clone, Copy, PartialEq, Eq, Structural, PartialOrd, Ord, Hash)]
pub struct ByteLookupEvent {
    /// The opcode requested.
    pub opcode: ByteOpcode,
    /// The claimed output of the operation.
    pub a: u32,
    /// The first input operand.
    pub b: u32,
    /// The second input operand.
    pub c: u32,
}

impl ByteLookupEvent {
    /// Creates a new byte lookup event.
    pub fn new(opcode: ByteOpcode, a: u32, b: u32, c: u32) -> (e: Self)
        ensures
            e == (ByteLookupEvent { opcode, a, b, c }),
    {
        Self { opcode, a, b, c }
    }

    /// The opcode of this event.
    pub fn get_opcode(&self) -> (op: ByteOpcode)
        ensures
            op == self.opcode,
    {
        self.opcode
    }
}

} // verus!
