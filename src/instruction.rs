//! Instructions as values, and the table of fields that encodes each kind.

use vstd::prelude::*;
use crate::domain::{
    AtomOperation, AtomPrimitiveType, AtomicCasPrimitiveType, AtomsCasOperation, AtomsOperation,
    AtomsPrimitiveType, AttributeLoadMode, ControlCode,
};
use crate::error::AsmError;
use crate::bits::{lemma_range_below, lemma_upper_bits, lemma_upper_zeros, low_mask};
use crate::field::{
    ascending, covers, first_misfit, lemma_all_fit, lemma_ascending_disjoint, lemma_field_bounds,
    lemma_packed_keeps, lemma_read_back, packing, value_in, Field,
};
use crate::opcode::{lemma_tag_zeros, Opcode};
use crate::encoder::{
    encode_al2p, encode_ald, encode_ast, encode_atom, encode_atom_cas, encode_atoms,
    encode_atoms_cas, encode_exit, encode_get_lmembase, encode_ide, encode_kil, encode_nop,
    encode_ram, encode_ret, encode_sam, encode_set_lmembase,
};

verus! {

/// One instruction with its operands.
///
/// `predicate` is the guarding predicate register (0 to 7) and `invert`
/// negates it; register operands are 8-bit register indices.
#[derive(Clone, Copy, Debug, PartialEq, Eq, Structural)]
pub enum Instruction {
    Nop { trigger: bool, predicate: u8, invert: bool, value: u16, control_code: ControlCode },
    Ram,
    Sam,
    Ret { predicate: u8, invert: bool, control_code: ControlCode },
    Exit { predicate: u8, invert: bool, control_code: ControlCode, keep_refcount: bool },
    GetLmembase { register: u8 },
    SetLmembase { register: u8 },
    Ide { value: u16, disable: bool },
    Kil { predicate: u8, invert: bool, control_code: ControlCode },
    Al2p {
        predicate: u8,
        invert: bool,
        destination_predicate: u8,
        destination_register: u8,
        source_register: u8,
        o_flag: bool,
        mode: AttributeLoadMode,
        load_offset: i16,
    },
    Ald {
        predicate: u8,
        invert: bool,
        destination_register: u8,
        source_offset_register: u8,
        source_register: u8,
        no_physical: bool,
        o_flag: bool,
        mode: AttributeLoadMode,
        load_offset: i16,
    },
    Ast {
        predicate: u8,
        invert: bool,
        destination_offset_register: u8,
        source_register_a: u8,
        source_register_b: u8,
        no_physical: bool,
        mode: AttributeLoadMode,
        load_offset: i16,
    },
    /// `offset` is a byte offset; the word holds it shifted right by 2.
    Atoms {
        predicate: u8,
        invert: bool,
        destination_register: u8,
        source_register_a: u8,
        source_register_b: u8,
        offset: i32,
        type_size: AtomsPrimitiveType,
        operation: AtomsOperation,
    },
    /// `offset` is a byte offset; the word holds it shifted right by 2.
    /// `source_register_b` must not be 0: the word holds it minus 1.
    AtomsCas {
        predicate: u8,
        invert: bool,
        destination_register: u8,
        source_register_a: u8,
        source_register_b: u8,
        offset: i32,
        type_size: AtomicCasPrimitiveType,
        operation: AtomsCasOperation,
    },
    Atom {
        predicate: u8,
        invert: bool,
        destination_register: u8,
        source_register_a: u8,
        source_register_b: u8,
        offset: i32,
        type_size: AtomPrimitiveType,
        operation: AtomOperation,
        e_flag: bool,
    },
    AtomCas {
        predicate: u8,
        invert: bool,
        destination_register: u8,
        source_register_a: u8,
        source_register_b: u8,
        offset: i32,
        type_size: AtomicCasPrimitiveType,
        e_flag: bool,
    },
}

/// A flag as the value of a one-bit field.
pub open spec fn flag(b: bool) -> i64 {
    if b {
        1
    } else {
        0
    }
}

/// The entry for the opcode tag, written before the operands.
pub open spec fn tag_entry(op: Opcode) -> (Field, i64) {
    (Field::Opcode, op.tag() as i64)
}

impl Instruction {
    /// The kind of the instruction.
    pub open spec fn opcode(self) -> Opcode {
        match self {
            Instruction::Nop { .. } => Opcode::NOP,
            Instruction::Ram => Opcode::RAM,
            Instruction::Sam => Opcode::SAM,
            Instruction::Ret { .. } => Opcode::RET,
            Instruction::Exit { .. } => Opcode::EXIT,
            Instruction::GetLmembase { .. } => Opcode::GETLMEMBASE,
            Instruction::SetLmembase { .. } => Opcode::SETLMEMBASE,
            Instruction::Ide { .. } => Opcode::IDE,
            Instruction::Kil { .. } => Opcode::KIL,
            Instruction::Al2p { .. } => Opcode::AL2P,
            Instruction::Ald { .. } => Opcode::ALD,
            Instruction::Ast { .. } => Opcode::AST,
            Instruction::Atoms { .. } => Opcode::ATOMS,
            Instruction::AtomsCas { .. } => Opcode::ATOMS_CAS,
            Instruction::Atom { .. } => Opcode::ATOM,
            Instruction::AtomCas { .. } => Opcode::ATOM_CAS,
        }
    }

    /// The operand fields of the instruction and the value each one holds,
    /// from the lowest bits up.
    pub open spec fn operands(self) -> Seq<(Field, i64)> {
        match self {
            Instruction::Nop { trigger, predicate, invert, value, control_code } => seq![
                (Field::NopConditionCode, control_code.raw() as i64),
                (Field::NopTrigger, flag(trigger)),
                (Field::Predicate, predicate as i64),
                (Field::PredicateInvert, flag(invert)),
                (Field::Imm16, value as i64),
            ],
            Instruction::Ram => seq![],
            Instruction::Sam => seq![],
            Instruction::Ret { predicate, invert, control_code } => seq![
                (Field::ConditionCode, control_code.raw() as i64),
                (Field::Predicate, predicate as i64),
                (Field::PredicateInvert, flag(invert)),
            ],
            Instruction::Exit { predicate, invert, control_code, keep_refcount } => seq![
                (Field::ConditionCode, control_code.raw() as i64),
                (Field::KeepRefcount, flag(keep_refcount)),
                (Field::Predicate, predicate as i64),
                (Field::PredicateInvert, flag(invert)),
            ],
            Instruction::GetLmembase { register } => seq![(Field::Operand0, register as i64)],
            Instruction::SetLmembase { register } => seq![(Field::Operand1, register as i64)],
            Instruction::Ide { value, disable } => seq![
                (Field::IdeDisable, flag(disable)),
                (Field::Imm16, value as i64),
            ],
            Instruction::Kil { predicate, invert, control_code } => seq![
                (Field::ConditionCode, control_code.raw() as i64),
                (Field::Predicate, predicate as i64),
                (Field::PredicateInvert, flag(invert)),
            ],
            Instruction::Al2p {
                predicate,
                invert,
                destination_predicate,
                destination_register,
                source_register,
                o_flag,
                mode,
                load_offset,
            } => seq![
                (Field::Operand0, destination_register as i64),
                (Field::Operand1, source_register as i64),
                (Field::Predicate, predicate as i64),
                (Field::PredicateInvert, flag(invert)),
                (Field::LoadOffset, load_offset as i64),
                (Field::OFlag, flag(o_flag)),
                (Field::DestinationPredicate, destination_predicate as i64),
                (Field::AttributeMode, mode.raw() as i64),
            ],
            Instruction::Ald {
                predicate,
                invert,
                destination_register,
                source_offset_register,
                source_register,
                no_physical,
                o_flag,
                mode,
                load_offset,
            } => seq![
                (Field::Operand0, destination_register as i64),
                (Field::Operand1, source_offset_register as i64),
                (Field::Predicate, predicate as i64),
                (Field::PredicateInvert, flag(invert)),
                (Field::LoadOffset, load_offset as i64),
                (Field::NoPhysical, flag(no_physical)),
                (Field::OFlag, flag(o_flag)),
                (Field::Operand3, source_register as i64),
                (Field::AttributeMode, mode.raw() as i64),
            ],
            Instruction::Ast {
                predicate,
                invert,
                destination_offset_register,
                source_register_a,
                source_register_b,
                no_physical,
                mode,
                load_offset,
            } => seq![
                (Field::Operand0, destination_offset_register as i64),
                (Field::Operand1, source_register_a as i64),
                (Field::Predicate, predicate as i64),
                (Field::PredicateInvert, flag(invert)),
                (Field::LoadOffset, load_offset as i64),
                (Field::NoPhysical, flag(no_physical)),
                (Field::Operand3, source_register_b as i64),
                (Field::AttributeMode, mode.raw() as i64),
            ],
            Instruction::Atoms {
                predicate,
                invert,
                destination_register,
                source_register_a,
                source_register_b,
                offset,
                type_size,
                operation,
            } => seq![
                (Field::Operand0, destination_register as i64),
                (Field::Operand1, source_register_a as i64),
                (Field::Predicate, predicate as i64),
                (Field::PredicateInvert, flag(invert)),
                (Field::Operand2, source_register_b as i64),
                (Field::AtomsType, type_size.raw() as i64),
                (Field::AtomsOffset, (offset >> 2) as i64),
                (Field::AtomicOperation, operation.raw() as i64),
            ],
            Instruction::AtomsCas {
                predicate,
                invert,
                destination_register,
                source_register_a,
                source_register_b,
                offset,
                type_size,
                operation,
            } => seq![
                (Field::Operand0, destination_register as i64),
                (Field::Operand1, source_register_a as i64),
                (Field::Predicate, predicate as i64),
                (Field::PredicateInvert, flag(invert)),
                (Field::Operand2, (source_register_b - 1) as i64),
                (Field::AtomsOffset, (offset >> 2) as i64),
                (Field::AtomsCasType, type_size.raw() as i64),
                (Field::AtomsCasOperation, operation.raw() as i64),
            ],
            Instruction::Atom {
                predicate,
                invert,
                destination_register,
                source_register_a,
                source_register_b,
                offset,
                type_size,
                operation,
                e_flag,
            } => seq![
                (Field::Operand0, destination_register as i64),
                (Field::Operand1, source_register_a as i64),
                (Field::Predicate, predicate as i64),
                (Field::PredicateInvert, flag(invert)),
                (Field::Operand2, source_register_b as i64),
                (Field::AtomOffset, offset as i64),
                (Field::AtomEFlag, flag(e_flag)),
                (Field::AtomType, type_size.raw() as i64),
                (Field::AtomicOperation, operation.raw() as i64),
            ],
            Instruction::AtomCas {
                predicate,
                invert,
                destination_register,
                source_register_a,
                source_register_b,
                offset,
                type_size,
                e_flag,
            } => seq![
                (Field::Operand0, destination_register as i64),
                (Field::Operand1, source_register_a as i64),
                (Field::Predicate, predicate as i64),
                (Field::PredicateInvert, flag(invert)),
                (Field::Operand2, source_register_b as i64),
                (Field::AtomOffset, offset as i64),
                (Field::AtomEFlag, flag(e_flag)),
                (Field::AtomCasType, type_size.raw() as i64),
            ],
        }
    }

    /// The full table: the opcode tag, then the operands.
    pub open spec fn entries(self) -> Seq<(Field, i64)> {
        seq![tag_entry(self.opcode())] + self.operands()
    }

    /// The error owed before any field is written: a condition code outside
    /// its domain, or an ATOMS_CAS whose second source register is 0 or whose
    /// operation is not CAS. (The operation field, bits 54..53, holds bit 54
    /// of the ATOMS_CAS tag; CAST and CAST_SPIN would clear it.)
    pub open spec fn rule_error(self) -> Option<AsmError> {
        match self {
            Instruction::Nop { control_code, .. } => if control_code.is_valid() {
                None
            } else {
                Some(AsmError::OutOfRange(Field::NopConditionCode, control_code.raw() as i64))
            },
            Instruction::Ret { control_code, .. } | Instruction::Exit { control_code, .. }
            | Instruction::Kil { control_code, .. } => if control_code.is_valid() {
                None
            } else {
                Some(AsmError::OutOfRange(Field::ConditionCode, control_code.raw() as i64))
            },
            Instruction::AtomsCas { source_register_b, operation, .. } => if source_register_b
                == 0 || operation != AtomsCasOperation::CAS {
                Some(AsmError::InvalidOperandCombination)
            } else {
                None
            },
            _ => None,
        }
    }

    /// The kind of the instruction.
    pub fn kind(&self) -> (r: Opcode)
        ensures
            r == self.opcode(),
    {
        match self {
            Instruction::Nop { .. } => Opcode::NOP,
            Instruction::Ram => Opcode::RAM,
            Instruction::Sam => Opcode::SAM,
            Instruction::Ret { .. } => Opcode::RET,
            Instruction::Exit { .. } => Opcode::EXIT,
            Instruction::GetLmembase { .. } => Opcode::GETLMEMBASE,
            Instruction::SetLmembase { .. } => Opcode::SETLMEMBASE,
            Instruction::Ide { .. } => Opcode::IDE,
            Instruction::Kil { .. } => Opcode::KIL,
            Instruction::Al2p { .. } => Opcode::AL2P,
            Instruction::Ald { .. } => Opcode::ALD,
            Instruction::Ast { .. } => Opcode::AST,
            Instruction::Atoms { .. } => Opcode::ATOMS,
            Instruction::AtomsCas { .. } => Opcode::ATOMS_CAS,
            Instruction::Atom { .. } => Opcode::ATOM,
            Instruction::AtomCas { .. } => Opcode::ATOM_CAS,
        }
    }

    /// Encodes the instruction into its 64-bit word.
    pub fn encode(&self) -> (r: Result<u64, AsmError>)
        ensures
            r == self.encoded(),
            r matches Ok(w) ==> self.opcode().tag_held_by(w),
    {
        match *self {
            Instruction::Nop { trigger, predicate, invert, value, control_code } => encode_nop(
                trigger,
                predicate,
                invert,
                value,
                control_code,
            ),
            Instruction::Ram => Ok(encode_ram()),
            Instruction::Sam => Ok(encode_sam()),
            Instruction::Ret { predicate, invert, control_code } => encode_ret(
                predicate,
                invert,
                control_code,
            ),
            Instruction::Exit { predicate, invert, control_code, keep_refcount } => encode_exit(
                predicate,
                invert,
                control_code,
                keep_refcount,
            ),
            Instruction::GetLmembase { register } => Ok(encode_get_lmembase(register)),
            Instruction::SetLmembase { register } => Ok(encode_set_lmembase(register)),
            Instruction::Ide { value, disable } => Ok(encode_ide(value, disable)),
            Instruction::Kil { predicate, invert, control_code } => encode_kil(
                predicate,
                invert,
                control_code,
            ),
            Instruction::Al2p {
                predicate,
                invert,
                destination_predicate,
                destination_register,
                source_register,
                o_flag,
                mode,
                load_offset,
            } => encode_al2p(
                predicate,
                invert,
                destination_predicate,
                destination_register,
                source_register,
                o_flag,
                mode,
                load_offset,
            ),
            Instruction::Ald {
                predicate,
                invert,
                destination_register,
                source_offset_register,
                source_register,
                no_physical,
                o_flag,
                mode,
                load_offset,
            } => encode_ald(
                predicate,
                invert,
                destination_register,
                source_offset_register,
                source_register,
                no_physical,
                o_flag,
                mode,
                load_offset,
            ),
            Instruction::Ast {
                predicate,
                invert,
                destination_offset_register,
                source_register_a,
                source_register_b,
                no_physical,
                mode,
                load_offset,
            } => encode_ast(
                predicate,
                invert,
                destination_offset_register,
                source_register_a,
                source_register_b,
                no_physical,
                mode,
                load_offset,
            ),
            Instruction::Atoms {
                predicate,
                invert,
                destination_register,
                source_register_a,
                source_register_b,
                offset,
                type_size,
                operation,
            } => encode_atoms(
                predicate,
                invert,
                destination_register,
                source_register_a,
                source_register_b,
                offset,
                type_size,
                operation,
            ),
            Instruction::AtomsCas {
                predicate,
                invert,
                destination_register,
                source_register_a,
                source_register_b,
                offset,
                type_size,
                operation,
            } => encode_atoms_cas(
                predicate,
                invert,
                destination_register,
                source_register_a,
                source_register_b,
                offset,
                type_size,
                operation,
            ),
            Instruction::Atom {
                predicate,
                invert,
                destination_register,
                source_register_a,
                source_register_b,
                offset,
                type_size,
                operation,
                e_flag,
            } => encode_atom(
                predicate,
                invert,
                destination_register,
                source_register_a,
                source_register_b,
                offset,
                type_size,
                operation,
                e_flag,
            ),
            Instruction::AtomCas {
                predicate,
                invert,
                destination_register,
                source_register_a,
                source_register_b,
                offset,
                type_size,
                e_flag,
            } => encode_atom_cas(
                predicate,
                invert,
                destination_register,
                source_register_a,
                source_register_b,
                offset,
                type_size,
                e_flag,
            ),
        }
    }

    /// Whether the instruction is one that decoding can give back: an ATOMS
    /// or ATOMS_CAS offset must be a multiple of 4, as the word keeps only
    /// the offset shifted right by 2.
    pub open spec fn is_canonical(self) -> bool {
        match self {
            Instruction::Atoms { offset, .. } => offset % 4 == 0,
            Instruction::AtomsCas { offset, .. } => offset % 4 == 0,
            _ => true,
        }
    }

    /// Whether every operand field of `word` holds the value that the
    /// instruction's table puts there.
    pub open spec fn describes(self, word: u64) -> bool {
        forall|k: int|
            0 <= k < self.operands().len() ==> value_in(word, #[trigger] self.operands()[k].0)
                == self.operands()[k].1
    }

    /// What encoding the instruction gives: the rule error if there is one,
    /// else the table packed into a zero word, or the first operand that
    /// does not fit its field.
    pub open spec fn encoded(self) -> Result<u64, AsmError> {
        match self.rule_error() {
            Some(e) => Err(e),
            None => packing(self.entries()),
        }
    }
}

/// The operand fields of every kind are listed from the lowest bits up.
///
/// Each kind is settled in its own assertion: with the variant fixed the
/// solver unfolds one short table, where a single assertion over every
/// kind at once exceeds its resource limit.
#[verifier::rlimit(100)]
pub proof fn lemma_operands_ascending(inst: Instruction)
    ensures
        ascending(inst.operands()),
{
    match inst {
        Instruction::Nop { .. } => {
            assert(ascending(inst.operands())) by {
                reveal_with_fuel(ascending, 10);
            }
        },
        Instruction::Ram { .. } => {
            assert(ascending(inst.operands())) by {
                reveal_with_fuel(ascending, 10);
            }
        },
        Instruction::Sam { .. } => {
            assert(ascending(inst.operands())) by {
                reveal_with_fuel(ascending, 10);
            }
        },
        Instruction::Ret { .. } => {
            assert(ascending(inst.operands())) by {
                reveal_with_fuel(ascending, 10);
            }
        },
        Instruction::Exit { .. } => {
            assert(ascending(inst.operands())) by {
                reveal_with_fuel(ascending, 10);
            }
        },
        Instruction::GetLmembase { .. } => {
            assert(ascending(inst.operands())) by {
                reveal_with_fuel(ascending, 10);
            }
        },
        Instruction::SetLmembase { .. } => {
            assert(ascending(inst.operands())) by {
                reveal_with_fuel(ascending, 10);
            }
        },
        Instruction::Ide { .. } => {
            assert(ascending(inst.operands())) by {
                reveal_with_fuel(ascending, 10);
            }
        },
        Instruction::Kil { .. } => {
            assert(ascending(inst.operands())) by {
                reveal_with_fuel(ascending, 10);
            }
        },
        Instruction::Al2p { .. } => {
            assert(ascending(inst.operands())) by {
                reveal_with_fuel(ascending, 10);
            }
        },
        Instruction::Ald { .. } => {
            assert(ascending(inst.operands())) by {
                reveal_with_fuel(ascending, 10);
            }
        },
        Instruction::Ast { .. } => {
            assert(ascending(inst.operands())) by {
                reveal_with_fuel(ascending, 10);
            }
        },
        Instruction::Atoms { .. } => {
            assert(ascending(inst.operands())) by {
                reveal_with_fuel(ascending, 10);
            }
        },
        Instruction::AtomsCas { .. } => {
            assert(ascending(inst.operands())) by {
                reveal_with_fuel(ascending, 10);
            }
        },
        Instruction::Atom { .. } => {
            assert(ascending(inst.operands())) by {
                reveal_with_fuel(ascending, 10);
            }
        },
        Instruction::AtomCas { .. } => {
            assert(ascending(inst.operands())) by {
                reveal_with_fuel(ascending, 10);
            }
        },
    }
}

/// Round trip: in the word that an instruction encodes to, every operand
/// field reads back the value that the instruction's table puts there.
pub proof fn lemma_fields_read_back(inst: Instruction, k: int)
    requires
        inst.encoded() is Ok,
        0 <= k < inst.operands().len(),
    ensures
        value_in(inst.encoded()->Ok_0, inst.operands()[k].0) == inst.operands()[k].1,
{
    let entries = inst.entries();
    let ops = inst.operands();
    match first_misfit(entries) {
        Some((f, v)) => {},
        None => {
            lemma_all_fit(entries);
        },
    }
    lemma_operands_ascending(inst);
    lemma_ascending_disjoint(ops);
    assert(entries[k + 1] == ops[k]);
    assert forall|j: int| k + 1 < j < entries.len() implies entries[k + 1].0.hi() < (
    #[trigger] entries[j].0).lo() by {
        assert(entries[j] == ops[j - 1]);
    }
    lemma_read_back(entries, k + 1);
}

/// The CAS operation, written into bits 54..53, sets bit 54 as the ATOMS_CAS
/// tag does.
proof fn lemma_cas_covers_tag()
    ensures
        covers(Field::AtomsCasOperation, 2, (Opcode::ATOMS_CAS.tag() as u64) << 32),
{
    let t = (Opcode::ATOMS_CAS.tag() as u64) << 32;
    assert(((2u64 & low_mask(2)) << 53u64) & t == (low_mask(2) << 53u64) & t) by (bit_vector)
        requires
            t == 0xee400000u64 << 32u64,
    ;
}

/// Every operand field lies below the lowest set bit of the tag, except the
/// ATOMS_CAS operation, which holds CAS in every instruction that encodes.
proof fn lemma_last_operand(inst: Instruction)
    requires
        inst.rule_error() is None,
    ensures
        inst.operands().len() > 0 && !(inst is AtomsCas) ==> inst.operands().last().0.hi() < 32
            + inst.opcode().tag_zeros(),
        inst is AtomsCas ==> inst.operands().last() == (Field::AtomsCasOperation, 2i64)
            && inst.operands().last().0.lo() < 32 + inst.opcode().tag_zeros(),
{
}

/// Encoding never clears a bit of the opcode tag: the upper half of every
/// word that an instruction encodes to has every bit of its tag set.
pub proof fn lemma_tag_kept(inst: Instruction)
    requires
        inst.encoded() is Ok,
    ensures
        inst.opcode().tag_held_by(inst.encoded()->Ok_0),
{
    let op = inst.opcode();
    let x = op.tag();
    let t = (x as u64) << 32;
    let z = op.tag_zeros();
    let entries = inst.entries();
    let ops = inst.operands();
    lemma_tag_zeros(op);
    lemma_upper_zeros(x, z);
    lemma_operands_ascending(inst);
    lemma_ascending_disjoint(ops);
    lemma_last_operand(inst);
    assert forall|k: int| 1 <= k < entries.len() implies covers(
        #[trigger] entries[k].0,
        entries[k].1,
        t,
    ) by {
        let (f, v) = entries[k];
        assert(entries[k] == ops[k - 1]);
        lemma_field_bounds(f);
        let last = ops.len() - 1;
        if k - 1 < last {
            lemma_field_bounds(ops[last].0);
            assert(f.hi() < ops[last].0.lo());
        }
        if f.hi() < 32 + z {
            lemma_range_below(f.lo(), f.width(), v as u64, (32 + z) as u64, t);
        } else {
            lemma_cas_covers_tag();
        }
    }
    lemma_packed_keeps(entries, x);
    lemma_upper_bits(inst.encoded()->Ok_0, x);
}

} // verus!
