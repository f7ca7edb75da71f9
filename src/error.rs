//! What encoding and decoding report when they cannot proceed.

use vstd::prelude::*;
use crate::field::Field;

verus! {

/// Why a word could not be encoded or decoded.
#[derive(Clone, Copy, Debug, PartialEq, Eq, Structural)]
pub enum AsmError {
    /// The 32-bit tag names no known opcode.
    UnknownOpcode(u32),
    /// The value does not fit the field, or lies outside the field's domain.
    OutOfRange(Field, i64),
    /// The operands break a rule that ties them together.
    InvalidOperandCombination,
}

} // verus!
