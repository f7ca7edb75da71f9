//! The opcode registry: each opcode and the 32-bit tag that encodes it.

use vstd::prelude::*;
use vstd::arithmetic::power2::{lemma2_to64, pow2};
use crate::bits::{lemma_low_mask_value, low_mask};
use crate::error::AsmError;

verus! {

/// An instruction kind.
#[allow(non_camel_case_types)]
#[derive(Clone, Copy, Debug, PartialEq, Eq, Structural)]
pub enum Opcode {
    AL2P,
    ALD,
    AST,
    ATOM,
    ATOM_CAS,
    ATOMS,
    ATOMS_CAS,
    EXIT,
    GETLMEMBASE,
    IDE,
    KIL,
    NOP,
    RAM,
    RET,
    SAM,
    SETLMEMBASE,
}

impl Opcode {
    /// The tag that occupies bits 63..32 of an instruction of this kind.
    pub open spec fn tag(self) -> u32 {
        match self {
            Opcode::AL2P => 0xefa00000,
            Opcode::ALD => 0xefd80000,
            Opcode::AST => 0xeff00000,
            Opcode::ATOM => 0xed000000,
            Opcode::ATOM_CAS => 0xeef00000,
            Opcode::ATOMS => 0xec000000,
            Opcode::ATOMS_CAS => 0xee400000,
            Opcode::EXIT => 0xe3000000,
            Opcode::GETLMEMBASE => 0xe2d00000,
            Opcode::IDE => 0xe3900000,
            Opcode::KIL => 0xe3300000,
            Opcode::NOP => 0x50b00000,
            Opcode::RAM => 0xe3800000,
            Opcode::RET => 0xe3200000,
            Opcode::SAM => 0xe3700000,
            Opcode::SETLMEMBASE => 0xe2f00000,
        }
    }

    /// The number of zero bits at the bottom of the tag.
    pub open spec fn tag_zeros(self) -> u64 {
        match self {
            Opcode::AL2P => 21,
            Opcode::ALD => 19,
            Opcode::AST => 20,
            Opcode::ATOM => 24,
            Opcode::ATOM_CAS => 20,
            Opcode::ATOMS => 26,
            Opcode::ATOMS_CAS => 22,
            Opcode::EXIT => 24,
            Opcode::GETLMEMBASE => 20,
            Opcode::IDE => 20,
            Opcode::KIL => 20,
            Opcode::NOP => 20,
            Opcode::RAM => 23,
            Opcode::RET => 21,
            Opcode::SAM => 20,
            Opcode::SETLMEMBASE => 20,
        }
    }

    /// Whether the upper half of `word` has every bit of the tag set.
    pub open spec fn tag_held_by(self, word: u64) -> bool {
        ((word >> 32) as u32) & self.tag() == self.tag()
    }

    /// The tag of this opcode.
    pub fn encode(self) -> (r: u32)
        ensures
            r == self.tag(),
    {
        match self {
            Opcode::AL2P => 0xefa00000,
            Opcode::ALD => 0xefd80000,
            Opcode::AST => 0xeff00000,
            Opcode::ATOM => 0xed000000,
            Opcode::ATOM_CAS => 0xeef00000,
            Opcode::ATOMS => 0xec000000,
            Opcode::ATOMS_CAS => 0xee400000,
            Opcode::EXIT => 0xe3000000,
            Opcode::GETLMEMBASE => 0xe2d00000,
            Opcode::IDE => 0xe3900000,
            Opcode::KIL => 0xe3300000,
            Opcode::NOP => 0x50b00000,
            Opcode::RAM => 0xe3800000,
            Opcode::RET => 0xe3200000,
            Opcode::SAM => 0xe3700000,
            Opcode::SETLMEMBASE => 0xe2f00000,
        }
    }

    /// The opcode that `tag` encodes; `UnknownOpcode` where none does.
    pub fn decode(tag: u32) -> (r: Result<Opcode, AsmError>)
        ensures
            r == decoded(tag),
    {
        let r = match tag {
            0xefa00000 => Ok(Opcode::AL2P),
            0xefd80000 => Ok(Opcode::ALD),
            0xeff00000 => Ok(Opcode::AST),
            0xed000000 => Ok(Opcode::ATOM),
            0xeef00000 => Ok(Opcode::ATOM_CAS),
            0xec000000 => Ok(Opcode::ATOMS),
            0xee400000 => Ok(Opcode::ATOMS_CAS),
            0xe3000000 => Ok(Opcode::EXIT),
            0xe2d00000 => Ok(Opcode::GETLMEMBASE),
            0xe3900000 => Ok(Opcode::IDE),
            0xe3300000 => Ok(Opcode::KIL),
            0x50b00000 => Ok(Opcode::NOP),
            0xe3800000 => Ok(Opcode::RAM),
            0xe3200000 => Ok(Opcode::RET),
            0xe3700000 => Ok(Opcode::SAM),
            0xe2f00000 => Ok(Opcode::SETLMEMBASE),
            _ => Err(AsmError::UnknownOpcode(tag)),
        };
        proof {
            if let Ok(op) = r {
                lemma_tag_injective(op, choose|o: Opcode| o.tag() == tag);
            }
        }
        r
    }
}

/// The opcode whose tag is `tag`, or `UnknownOpcode` where there is none.
pub open spec fn decoded(tag: u32) -> Result<Opcode, AsmError> {
    if exists|op: Opcode| op.tag() == tag {
        Ok(choose|op: Opcode| op.tag() == tag)
    } else {
        Err(AsmError::UnknownOpcode(tag))
    }
}

/// Distinct opcodes have distinct tags.
pub proof fn lemma_tag_injective(a: Opcode, b: Opcode)
    requires
        a.tag() == b.tag(),
    ensures
        a == b,
{
}

/// Decoding the tag of an opcode gives that opcode back, and decoding a tag
/// that no opcode has fails with `UnknownOpcode`.
pub proof fn lemma_opcode_bijective(op: Opcode, tag: u32)
    ensures
        decoded(op.tag()) == Ok::<Opcode, AsmError>(op),
        (forall|o: Opcode| o.tag() != tag) ==> decoded(tag) == Err::<Opcode, AsmError>(
            AsmError::UnknownOpcode(tag),
        ),
{
    let t = op.tag();
    assert(exists|o: Opcode| o.tag() == t);
    lemma_tag_injective(op, choose|o: Opcode| o.tag() == t);
}

/// The bits of a tag below `tag_zeros` are all zero.
pub proof fn lemma_tag_zeros(op: Opcode)
    ensures
        1 <= op.tag_zeros() < 32,
        (op.tag() as u64) & low_mask(op.tag_zeros()) == 0,
{
    let z = op.tag_zeros();
    let x = op.tag() as u64;
    lemma2_to64();
    match op {
        Opcode::AL2P => {
            assert(pow2(21) == 0x200000);
            assert(x % 0x200000 == 0);
        },
        Opcode::ALD => {
            assert(pow2(19) == 0x80000);
            assert(x % 0x80000 == 0);
        },
        Opcode::AST => {
            assert(pow2(20) == 0x100000);
            assert(x % 0x100000 == 0);
        },
        Opcode::ATOM => {
            assert(pow2(24) == 0x1000000);
            assert(x % 0x1000000 == 0);
        },
        Opcode::ATOM_CAS => {
            assert(pow2(20) == 0x100000);
            assert(x % 0x100000 == 0);
        },
        Opcode::ATOMS => {
            assert(pow2(26) == 0x4000000);
            assert(x % 0x4000000 == 0);
        },
        Opcode::ATOMS_CAS => {
            assert(pow2(22) == 0x400000);
            assert(x % 0x400000 == 0);
        },
        Opcode::EXIT => {
            assert(pow2(24) == 0x1000000);
            assert(x % 0x1000000 == 0);
        },
        Opcode::GETLMEMBASE => {
            assert(pow2(20) == 0x100000);
            assert(x % 0x100000 == 0);
        },
        Opcode::IDE => {
            assert(pow2(20) == 0x100000);
            assert(x % 0x100000 == 0);
        },
        Opcode::KIL => {
            assert(pow2(20) == 0x100000);
            assert(x % 0x100000 == 0);
        },
        Opcode::NOP => {
            assert(pow2(20) == 0x100000);
            assert(x % 0x100000 == 0);
        },
        Opcode::RAM => {
            assert(pow2(23) == 0x800000);
            assert(x % 0x800000 == 0);
        },
        Opcode::RET => {
            assert(pow2(21) == 0x200000);
            assert(x % 0x200000 == 0);
        },
        Opcode::SAM => {
            assert(pow2(20) == 0x100000);
            assert(x % 0x100000 == 0);
        },
        Opcode::SETLMEMBASE => {
            assert(pow2(20) == 0x100000);
            assert(x % 0x100000 == 0);
        },
    }
    vstd::bits::lemma_u64_low_bits_mask_is_mod(x, z as nat);
    lemma_low_mask_value(z);
}

} // verus!
