//! Reading the operands of an instruction back out of its word.

use vstd::prelude::*;
use vstd::arithmetic::power2::{lemma2_to64, lemma_pow2_strictly_increases};
use crate::domain::{
    AtomOperation, AtomPrimitiveType, AtomicCasPrimitiveType, AtomsCasOperation, AtomsOperation,
    AtomsPrimitiveType, AttributeLoadMode, ControlCode,
};
use crate::error::AsmError;
use crate::field::{fits, lemma_field_bounds, unpack, value_in, Field};
use crate::instruction::{flag, lemma_fields_read_back, Instruction};
use crate::opcode::Opcode;

verus! {

/// Whether `inst` is an instruction of kind `kind` that encodes without
/// error, that decoding can give back, and whose operand fields in `word`
/// hold the values of its table.
pub open spec fn decodes_to(kind: Opcode, word: u64, inst: Instruction) -> bool {
    &&& inst.opcode() == kind
    &&& inst.rule_error() is None
    &&& inst.is_canonical()
    &&& inst.describes(word)
}

fn read_u8(word: u64, f: Field) -> (r: u8)
    requires
        !f.signed(),
        f.width() <= 8,
    ensures
        r as i64 == value_in(word, f),
        fits(f, r as i64),
{
    let v = unpack(word, f);
    proof {
        lemma_field_bounds(f);
        lemma2_to64();
        if f.width() < 8 {
            lemma_pow2_strictly_increases(f.width() as nat, 8);
        }
    }
    v as u8
}

fn read_u16(word: u64, f: Field) -> (r: u16)
    requires
        !f.signed(),
        f.width() <= 16,
    ensures
        r as i64 == value_in(word, f),
{
    let v = unpack(word, f);
    proof {
        lemma_field_bounds(f);
        lemma2_to64();
        if f.width() < 16 {
            lemma_pow2_strictly_increases(f.width() as nat, 16);
        }
    }
    v as u16
}

fn read_i16(word: u64, f: Field) -> (r: i16)
    requires
        f.signed(),
        f.width() <= 16,
    ensures
        r as i64 == value_in(word, f),
{
    let v = unpack(word, f);
    proof {
        lemma_field_bounds(f);
        lemma2_to64();
        if f.width() < 16 {
            lemma_pow2_strictly_increases((f.width() - 1) as nat, 15);
        }
    }
    v as i16
}

fn read_i32(word: u64, f: Field) -> (r: i32)
    requires
        f.signed(),
    ensures
        r as i64 == value_in(word, f),
{
    let v = unpack(word, f);
    proof {
        lemma_field_bounds(f);
        lemma2_to64();
        if f.width() < 32 {
            lemma_pow2_strictly_increases((f.width() - 1) as nat, 31);
        }
    }
    v as i32
}

fn read_flag(word: u64, f: Field) -> (r: bool)
    requires
        !f.signed(),
        f.width() == 1,
    ensures
        flag(r) == value_in(word, f),
{
    let v = unpack(word, f);
    proof {
        lemma2_to64();
    }
    v == 1
}

/// Reads the ATOMS offset field and scales it back to bytes.
fn read_quarter_offset(word: u64) -> (r: i32)
    ensures
        r % 4 == 0,
        (r >> 2) as i64 == value_in(word, Field::AtomsOffset),
{
    let v = unpack(word, Field::AtomsOffset);
    proof {
        lemma2_to64();
    }
    let q = v as i32;
    let r = q * 4;
    assert((r >> 2) == q) by (bit_vector)
        requires
            -0x200000 <= q < 0x200000,
            r == q * 4,
    ;
    r
}

/// Offsets that are multiples of 4 and agree after the shift are equal.
proof fn lemma_quarter_unique(a: i32, b: i32)
    requires
        a % 4 == 0,
        b % 4 == 0,
        (a >> 2) as i64 == (b >> 2) as i64,
    ensures
        a == b,
{
    assert((a % 4 == 0 && b % 4 == 0 && a >> 2 == b >> 2) ==> a == b) by (bit_vector);
}

fn read_control_code(word: u64, f: Field) -> (r: ControlCode)
    requires
        !f.signed(),
        f.width() == 5,
    ensures
        r.is_valid(),
        r.raw() as i64 == value_in(word, f),
{
    let v = read_u8(word, f);
    proof {
        lemma2_to64();
    }
    ControlCode::from_raw(v).unwrap()
}

fn read_mode(word: u64) -> (r: AttributeLoadMode)
    ensures
        r.raw() as i64 == value_in(word, Field::AttributeMode),
{
    let v = read_u8(word, Field::AttributeMode);
    proof {
        lemma2_to64();
        assert(AttributeLoadMode::M32.raw() == 0 && AttributeLoadMode::M64.raw() == 1
            && AttributeLoadMode::M96.raw() == 2 && AttributeLoadMode::M128.raw() == 3);
    }
    AttributeLoadMode::from_raw(v).unwrap()
}

fn read_atoms_type(word: u64) -> (r: AtomsPrimitiveType)
    ensures
        r.raw() as i64 == value_in(word, Field::AtomsType),
{
    let v = read_u8(word, Field::AtomsType);
    proof {
        lemma2_to64();
        assert(AtomsPrimitiveType::U32.raw() == 0 && AtomsPrimitiveType::S32.raw() == 1
            && AtomsPrimitiveType::U64.raw() == 2 && AtomsPrimitiveType::S64.raw() == 3);
    }
    AtomsPrimitiveType::from_raw(v).unwrap()
}

fn read_cas_type(word: u64, f: Field) -> (r: AtomicCasPrimitiveType)
    requires
        !f.signed(),
        f.width() == 1,
    ensures
        r.raw() as i64 == value_in(word, f),
{
    let v = read_u8(word, f);
    proof {
        lemma2_to64();
        assert(AtomicCasPrimitiveType::U32.raw() == 0 && AtomicCasPrimitiveType::U64.raw() == 1);
    }
    AtomicCasPrimitiveType::from_raw(v).unwrap()
}

fn read_atom_type(word: u64) -> (r: Result<AtomPrimitiveType, AsmError>)
    ensures
        r matches Ok(m) ==> m.raw() as i64 == value_in(word, Field::AtomType),
        r matches Err(e) ==> e == AsmError::OutOfRange(
            Field::AtomType,
            value_in(word, Field::AtomType),
        ) && forall|m: AtomPrimitiveType| m.raw() as i64 != value_in(word, Field::AtomType),
{
    let v = read_u8(word, Field::AtomType);
    match AtomPrimitiveType::from_raw(v) {
        Some(m) => Ok(m),
        None => Err(AsmError::OutOfRange(Field::AtomType, v as i64)),
    }
}

fn read_atoms_operation(word: u64) -> (r: Result<AtomsOperation, AsmError>)
    ensures
        r matches Ok(m) ==> m.raw() as i64 == value_in(word, Field::AtomicOperation),
        r matches Err(e) ==> e == AsmError::OutOfRange(
            Field::AtomicOperation,
            value_in(word, Field::AtomicOperation),
        ) && forall|m: AtomsOperation| m.raw() as i64 != value_in(word, Field::AtomicOperation),
{
    let v = read_u8(word, Field::AtomicOperation);
    match AtomsOperation::from_raw(v) {
        Some(m) => Ok(m),
        None => Err(AsmError::OutOfRange(Field::AtomicOperation, v as i64)),
    }
}

fn read_atom_operation(word: u64) -> (r: Result<AtomOperation, AsmError>)
    ensures
        r matches Ok(m) ==> m.raw() as i64 == value_in(word, Field::AtomicOperation),
        r matches Err(e) ==> e == AsmError::OutOfRange(
            Field::AtomicOperation,
            value_in(word, Field::AtomicOperation),
        ) && forall|m: AtomOperation| m.raw() as i64 != value_in(word, Field::AtomicOperation),
{
    let v = read_u8(word, Field::AtomicOperation);
    match AtomOperation::from_raw(v) {
        Some(m) => Ok(m),
        None => Err(AsmError::OutOfRange(Field::AtomicOperation, v as i64)),
    }
}

/// Reads the ATOMS_CAS operation. Only CAS can stand there: the field holds
/// bit 54 of the tag, which the other operations would clear.
fn read_cas_operation(word: u64) -> (r: Result<AtomsCasOperation, AsmError>)
    ensures
        r matches Ok(m) ==> m == AtomsCasOperation::CAS && m.raw() as i64 == value_in(
            word,
            Field::AtomsCasOperation,
        ),
        r matches Err(e) ==> e == AsmError::OutOfRange(
            Field::AtomsCasOperation,
            value_in(word, Field::AtomsCasOperation),
        ) && value_in(word, Field::AtomsCasOperation) != AtomsCasOperation::CAS.raw() as i64,
{
    let v = read_u8(word, Field::AtomsCasOperation);
    if v == 2 {
        Ok(AtomsCasOperation::CAS)
    } else {
        Err(AsmError::OutOfRange(Field::AtomsCasOperation, v as i64))
    }
}

/// Reads the second source register of ATOMS_CAS, which the word holds
/// minus 1; the field value 255 stands for no 8-bit register.
fn read_register_after_zero(word: u64) -> (r: Result<u8, AsmError>)
    ensures
        r matches Ok(b) ==> b >= 1 && (b - 1) as i64 == value_in(word, Field::Operand2),
        r matches Err(e) ==> e == AsmError::OutOfRange(Field::Operand2, 255) && value_in(
            word,
            Field::Operand2,
        ) == 255,
{
    let v = read_u8(word, Field::Operand2);
    if v == 255 {
        Err(AsmError::OutOfRange(Field::Operand2, 255))
    } else {
        Ok(v + 1)
    }
}

fn decode_nop(word: u64) -> (r: Result<Instruction, AsmError>)
    ensures
        r matches Ok(inst) ==> decodes_to(Opcode::NOP, word, inst),
        r matches Err(e) ==> (e matches AsmError::OutOfRange(f, v) && value_in(word, f) == v)
            && forall|inst: Instruction| !decodes_to(Opcode::NOP, word, inst),
{
    let inst = Instruction::Nop {
        trigger: read_flag(word, Field::NopTrigger),
        predicate: read_u8(word, Field::Predicate),
        invert: read_flag(word, Field::PredicateInvert),
        value: read_u16(word, Field::Imm16),
        control_code: read_control_code(word, Field::NopConditionCode),
    };
    assert(inst.describes(word));
    Ok(inst)
}

fn decode_ram(word: u64) -> (r: Result<Instruction, AsmError>)
    ensures
        r matches Ok(inst) ==> decodes_to(Opcode::RAM, word, inst),
        r matches Err(e) ==> (e matches AsmError::OutOfRange(f, v) && value_in(word, f) == v)
            && forall|inst: Instruction| !decodes_to(Opcode::RAM, word, inst),
{
    let inst = Instruction::Ram;
    assert(inst.describes(word));
    Ok(inst)
}

fn decode_sam(word: u64) -> (r: Result<Instruction, AsmError>)
    ensures
        r matches Ok(inst) ==> decodes_to(Opcode::SAM, word, inst),
        r matches Err(e) ==> (e matches AsmError::OutOfRange(f, v) && value_in(word, f) == v)
            && forall|inst: Instruction| !decodes_to(Opcode::SAM, word, inst),
{
    let inst = Instruction::Sam;
    assert(inst.describes(word));
    Ok(inst)
}

fn decode_ret(word: u64) -> (r: Result<Instruction, AsmError>)
    ensures
        r matches Ok(inst) ==> decodes_to(Opcode::RET, word, inst),
        r matches Err(e) ==> (e matches AsmError::OutOfRange(f, v) && value_in(word, f) == v)
            && forall|inst: Instruction| !decodes_to(Opcode::RET, word, inst),
{
    let inst = Instruction::Ret {
        predicate: read_u8(word, Field::Predicate),
        invert: read_flag(word, Field::PredicateInvert),
        control_code: read_control_code(word, Field::ConditionCode),
    };
    assert(inst.describes(word));
    Ok(inst)
}

fn decode_exit(word: u64) -> (r: Result<Instruction, AsmError>)
    ensures
        r matches Ok(inst) ==> decodes_to(Opcode::EXIT, word, inst),
        r matches Err(e) ==> (e matches AsmError::OutOfRange(f, v) && value_in(word, f) == v)
            && forall|inst: Instruction| !decodes_to(Opcode::EXIT, word, inst),
{
    let inst = Instruction::Exit {
        predicate: read_u8(word, Field::Predicate),
        invert: read_flag(word, Field::PredicateInvert),
        control_code: read_control_code(word, Field::ConditionCode),
        keep_refcount: read_flag(word, Field::KeepRefcount),
    };
    assert(inst.describes(word));
    Ok(inst)
}

fn decode_get_lmembase(word: u64) -> (r: Result<Instruction, AsmError>)
    ensures
        r matches Ok(inst) ==> decodes_to(Opcode::GETLMEMBASE, word, inst),
        r matches Err(e) ==> (e matches AsmError::OutOfRange(f, v) && value_in(word, f) == v)
            && forall|inst: Instruction| !decodes_to(Opcode::GETLMEMBASE, word, inst),
{
    let inst = Instruction::GetLmembase {
        register: read_u8(word, Field::Operand0),
    };
    assert(inst.describes(word));
    Ok(inst)
}

fn decode_set_lmembase(word: u64) -> (r: Result<Instruction, AsmError>)
    ensures
        r matches Ok(inst) ==> decodes_to(Opcode::SETLMEMBASE, word, inst),
        r matches Err(e) ==> (e matches AsmError::OutOfRange(f, v) && value_in(word, f) == v)
            && forall|inst: Instruction| !decodes_to(Opcode::SETLMEMBASE, word, inst),
{
    let inst = Instruction::SetLmembase {
        register: read_u8(word, Field::Operand1),
    };
    assert(inst.describes(word));
    Ok(inst)
}

fn decode_ide(word: u64) -> (r: Result<Instruction, AsmError>)
    ensures
        r matches Ok(inst) ==> decodes_to(Opcode::IDE, word, inst),
        r matches Err(e) ==> (e matches AsmError::OutOfRange(f, v) && value_in(word, f) == v)
            && forall|inst: Instruction| !decodes_to(Opcode::IDE, word, inst),
{
    let inst = Instruction::Ide {
        value: read_u16(word, Field::Imm16),
        disable: read_flag(word, Field::IdeDisable),
    };
    assert(inst.describes(word));
    Ok(inst)
}

fn decode_kil(word: u64) -> (r: Result<Instruction, AsmError>)
    ensures
        r matches Ok(inst) ==> decodes_to(Opcode::KIL, word, inst),
        r matches Err(e) ==> (e matches AsmError::OutOfRange(f, v) && value_in(word, f) == v)
            && forall|inst: Instruction| !decodes_to(Opcode::KIL, word, inst),
{
    let inst = Instruction::Kil {
        predicate: read_u8(word, Field::Predicate),
        invert: read_flag(word, Field::PredicateInvert),
        control_code: read_control_code(word, Field::ConditionCode),
    };
    assert(inst.describes(word));
    Ok(inst)
}

fn decode_al2p(word: u64) -> (r: Result<Instruction, AsmError>)
    ensures
        r matches Ok(inst) ==> decodes_to(Opcode::AL2P, word, inst),
        r matches Err(e) ==> (e matches AsmError::OutOfRange(f, v) && value_in(word, f) == v)
            && forall|inst: Instruction| !decodes_to(Opcode::AL2P, word, inst),
{
    let inst = Instruction::Al2p {
        predicate: read_u8(word, Field::Predicate),
        invert: read_flag(word, Field::PredicateInvert),
        destination_predicate: read_u8(word, Field::DestinationPredicate),
        destination_register: read_u8(word, Field::Operand0),
        source_register: read_u8(word, Field::Operand1),
        o_flag: read_flag(word, Field::OFlag),
        mode: read_mode(word),
        load_offset: read_i16(word, Field::LoadOffset),
    };
    assert(inst.describes(word));
    Ok(inst)
}

fn decode_ald(word: u64) -> (r: Result<Instruction, AsmError>)
    ensures
        r matches Ok(inst) ==> decodes_to(Opcode::ALD, word, inst),
        r matches Err(e) ==> (e matches AsmError::OutOfRange(f, v) && value_in(word, f) == v)
            && forall|inst: Instruction| !decodes_to(Opcode::ALD, word, inst),
{
    let inst = Instruction::Ald {
        predicate: read_u8(word, Field::Predicate),
        invert: read_flag(word, Field::PredicateInvert),
        destination_register: read_u8(word, Field::Operand0),
        source_offset_register: read_u8(word, Field::Operand1),
        source_register: read_u8(word, Field::Operand3),
        no_physical: read_flag(word, Field::NoPhysical),
        o_flag: read_flag(word, Field::OFlag),
        mode: read_mode(word),
        load_offset: read_i16(word, Field::LoadOffset),
    };
    assert(inst.describes(word));
    Ok(inst)
}

fn decode_ast(word: u64) -> (r: Result<Instruction, AsmError>)
    ensures
        r matches Ok(inst) ==> decodes_to(Opcode::AST, word, inst),
        r matches Err(e) ==> (e matches AsmError::OutOfRange(f, v) && value_in(word, f) == v)
            && forall|inst: Instruction| !decodes_to(Opcode::AST, word, inst),
{
    let inst = Instruction::Ast {
        predicate: read_u8(word, Field::Predicate),
        invert: read_flag(word, Field::PredicateInvert),
        destination_offset_register: read_u8(word, Field::Operand0),
        source_register_a: read_u8(word, Field::Operand1),
        source_register_b: read_u8(word, Field::Operand3),
        no_physical: read_flag(word, Field::NoPhysical),
        mode: read_mode(word),
        load_offset: read_i16(word, Field::LoadOffset),
    };
    assert(inst.describes(word));
    Ok(inst)
}

fn decode_atoms(word: u64) -> (r: Result<Instruction, AsmError>)
    ensures
        r matches Ok(inst) ==> decodes_to(Opcode::ATOMS, word, inst),
        r matches Err(e) ==> (e matches AsmError::OutOfRange(f, v) && value_in(word, f) == v)
            && forall|inst: Instruction| !decodes_to(Opcode::ATOMS, word, inst),
{
    let operation = match read_atoms_operation(word) {
        Ok(x) => x,
        Err(e) => {
            proof {
                assert forall|inst: Instruction| !decodes_to(Opcode::ATOMS, word, inst) by {
                    if decodes_to(Opcode::ATOMS, word, inst) {
                        assert(inst.operands()[7].0 == Field::AtomicOperation);
                    }
                }
            }
            return Err(e);
        },
    };
    let inst = Instruction::Atoms {
        predicate: read_u8(word, Field::Predicate),
        invert: read_flag(word, Field::PredicateInvert),
        destination_register: read_u8(word, Field::Operand0),
        source_register_a: read_u8(word, Field::Operand1),
        source_register_b: read_u8(word, Field::Operand2),
        offset: read_quarter_offset(word),
        type_size: read_atoms_type(word),
        operation,
    };
    assert(inst.describes(word));
    Ok(inst)
}

fn decode_atoms_cas(word: u64) -> (r: Result<Instruction, AsmError>)
    ensures
        r matches Ok(inst) ==> decodes_to(Opcode::ATOMS_CAS, word, inst),
        r matches Err(e) ==> (e matches AsmError::OutOfRange(f, v) && value_in(word, f) == v)
            && forall|inst: Instruction| !decodes_to(Opcode::ATOMS_CAS, word, inst),
{
    let source_register_b = match read_register_after_zero(word) {
        Ok(x) => x,
        Err(e) => {
            proof {
                assert forall|inst: Instruction| !decodes_to(Opcode::ATOMS_CAS, word, inst) by {
                    if decodes_to(Opcode::ATOMS_CAS, word, inst) {
                        assert(inst.operands()[4].0 == Field::Operand2);
                    }
                }
            }
            return Err(e);
        },
    };
    let operation = match read_cas_operation(word) {
        Ok(x) => x,
        Err(e) => {
            proof {
                assert forall|inst: Instruction| !decodes_to(Opcode::ATOMS_CAS, word, inst) by {
                    if decodes_to(Opcode::ATOMS_CAS, word, inst) {
                        assert(inst.operands()[7].0 == Field::AtomsCasOperation);
                    }
                }
            }
            return Err(e);
        },
    };
    let inst = Instruction::AtomsCas {
        predicate: read_u8(word, Field::Predicate),
        invert: read_flag(word, Field::PredicateInvert),
        destination_register: read_u8(word, Field::Operand0),
        source_register_a: read_u8(word, Field::Operand1),
        source_register_b,
        offset: read_quarter_offset(word),
        type_size: read_cas_type(word, Field::AtomsCasType),
        operation,
    };
    assert(inst.describes(word));
    Ok(inst)
}

fn decode_atom(word: u64) -> (r: Result<Instruction, AsmError>)
    ensures
        r matches Ok(inst) ==> decodes_to(Opcode::ATOM, word, inst),
        r matches Err(e) ==> (e matches AsmError::OutOfRange(f, v) && value_in(word, f) == v)
            && forall|inst: Instruction| !decodes_to(Opcode::ATOM, word, inst),
{
    let type_size = match read_atom_type(word) {
        Ok(x) => x,
        Err(e) => {
            proof {
                assert forall|inst: Instruction| !decodes_to(Opcode::ATOM, word, inst) by {
                    if decodes_to(Opcode::ATOM, word, inst) {
                        assert(inst.operands()[7].0 == Field::AtomType);
                    }
                }
            }
            return Err(e);
        },
    };
    let operation = match read_atom_operation(word) {
        Ok(x) => x,
        Err(e) => {
            proof {
                assert forall|inst: Instruction| !decodes_to(Opcode::ATOM, word, inst) by {
                    if decodes_to(Opcode::ATOM, word, inst) {
                        assert(inst.operands()[8].0 == Field::AtomicOperation);
                    }
                }
            }
            return Err(e);
        },
    };
    let inst = Instruction::Atom {
        predicate: read_u8(word, Field::Predicate),
        invert: read_flag(word, Field::PredicateInvert),
        destination_register: read_u8(word, Field::Operand0),
        source_register_a: read_u8(word, Field::Operand1),
        source_register_b: read_u8(word, Field::Operand2),
        offset: read_i32(word, Field::AtomOffset),
        type_size,
        operation,
        e_flag: read_flag(word, Field::AtomEFlag),
    };
    assert(inst.describes(word));
    Ok(inst)
}

fn decode_atom_cas(word: u64) -> (r: Result<Instruction, AsmError>)
    ensures
        r matches Ok(inst) ==> decodes_to(Opcode::ATOM_CAS, word, inst),
        r matches Err(e) ==> (e matches AsmError::OutOfRange(f, v) && value_in(word, f) == v)
            && forall|inst: Instruction| !decodes_to(Opcode::ATOM_CAS, word, inst),
{
    let inst = Instruction::AtomCas {
        predicate: read_u8(word, Field::Predicate),
        invert: read_flag(word, Field::PredicateInvert),
        destination_register: read_u8(word, Field::Operand0),
        source_register_a: read_u8(word, Field::Operand1),
        source_register_b: read_u8(word, Field::Operand2),
        offset: read_i32(word, Field::AtomOffset),
        type_size: read_cas_type(word, Field::AtomCasType),
        e_flag: read_flag(word, Field::AtomEFlag),
    };
    assert(inst.describes(word));
    Ok(inst)
}

/// Reads the operands of an instruction of kind `kind` out of `word`.
///
/// The opcode tag is not checked: the caller names the kind. Fails, naming
/// the field, where a field holds a value outside the operand's domain.
pub fn decode_fields(kind: Opcode, word: u64) -> (r: Result<Instruction, AsmError>)
    ensures
        r matches Ok(inst) ==> decodes_to(kind, word, inst),
        r matches Err(e) ==> (e matches AsmError::OutOfRange(f, v) && value_in(word, f) == v)
            && forall|inst: Instruction| !decodes_to(kind, word, inst),
{
    match kind {
        Opcode::NOP => decode_nop(word),
        Opcode::RAM => decode_ram(word),
        Opcode::SAM => decode_sam(word),
        Opcode::RET => decode_ret(word),
        Opcode::EXIT => decode_exit(word),
        Opcode::GETLMEMBASE => decode_get_lmembase(word),
        Opcode::SETLMEMBASE => decode_set_lmembase(word),
        Opcode::IDE => decode_ide(word),
        Opcode::KIL => decode_kil(word),
        Opcode::AL2P => decode_al2p(word),
        Opcode::ALD => decode_ald(word),
        Opcode::AST => decode_ast(word),
        Opcode::ATOMS => decode_atoms(word),
        Opcode::ATOMS_CAS => decode_atoms_cas(word),
        Opcode::ATOM => decode_atom(word),
        Opcode::ATOM_CAS => decode_atom_cas(word),
    }
}

proof fn lemma_unique_nop(a: Instruction, b: Instruction, word: u64)
    requires
        a is Nop,
        decodes_to(Opcode::NOP, word, a),
        decodes_to(Opcode::NOP, word, b),
    ensures
        a == b,
{
    assert(b is Nop);
    let (x, y) = (a.operands(), b.operands());
    assert(value_in(word, x[0].0) == x[0].1);
    assert(value_in(word, y[0].0) == y[0].1);
    assert(value_in(word, x[1].0) == x[1].1);
    assert(value_in(word, y[1].0) == y[1].1);
    assert(value_in(word, x[2].0) == x[2].1);
    assert(value_in(word, y[2].0) == y[2].1);
    assert(value_in(word, x[3].0) == x[3].1);
    assert(value_in(word, y[3].0) == y[3].1);
    assert(value_in(word, x[4].0) == x[4].1);
    assert(value_in(word, y[4].0) == y[4].1);
}

proof fn lemma_unique_ret(a: Instruction, b: Instruction, word: u64)
    requires
        a is Ret,
        decodes_to(Opcode::RET, word, a),
        decodes_to(Opcode::RET, word, b),
    ensures
        a == b,
{
    assert(b is Ret);
    let (x, y) = (a.operands(), b.operands());
    assert(value_in(word, x[0].0) == x[0].1);
    assert(value_in(word, y[0].0) == y[0].1);
    assert(value_in(word, x[1].0) == x[1].1);
    assert(value_in(word, y[1].0) == y[1].1);
    assert(value_in(word, x[2].0) == x[2].1);
    assert(value_in(word, y[2].0) == y[2].1);
}

proof fn lemma_unique_exit(a: Instruction, b: Instruction, word: u64)
    requires
        a is Exit,
        decodes_to(Opcode::EXIT, word, a),
        decodes_to(Opcode::EXIT, word, b),
    ensures
        a == b,
{
    assert(b is Exit);
    let (x, y) = (a.operands(), b.operands());
    assert(value_in(word, x[0].0) == x[0].1);
    assert(value_in(word, y[0].0) == y[0].1);
    assert(value_in(word, x[1].0) == x[1].1);
    assert(value_in(word, y[1].0) == y[1].1);
    assert(value_in(word, x[2].0) == x[2].1);
    assert(value_in(word, y[2].0) == y[2].1);
    assert(value_in(word, x[3].0) == x[3].1);
    assert(value_in(word, y[3].0) == y[3].1);
}

proof fn lemma_unique_get_lmembase(a: Instruction, b: Instruction, word: u64)
    requires
        a is GetLmembase,
        decodes_to(Opcode::GETLMEMBASE, word, a),
        decodes_to(Opcode::GETLMEMBASE, word, b),
    ensures
        a == b,
{
    assert(b is GetLmembase);
    let (x, y) = (a.operands(), b.operands());
    assert(value_in(word, x[0].0) == x[0].1);
    assert(value_in(word, y[0].0) == y[0].1);
}

proof fn lemma_unique_set_lmembase(a: Instruction, b: Instruction, word: u64)
    requires
        a is SetLmembase,
        decodes_to(Opcode::SETLMEMBASE, word, a),
        decodes_to(Opcode::SETLMEMBASE, word, b),
    ensures
        a == b,
{
    assert(b is SetLmembase);
    let (x, y) = (a.operands(), b.operands());
    assert(value_in(word, x[0].0) == x[0].1);
    assert(value_in(word, y[0].0) == y[0].1);
}

proof fn lemma_unique_ide(a: Instruction, b: Instruction, word: u64)
    requires
        a is Ide,
        decodes_to(Opcode::IDE, word, a),
        decodes_to(Opcode::IDE, word, b),
    ensures
        a == b,
{
    assert(b is Ide);
    let (x, y) = (a.operands(), b.operands());
    assert(value_in(word, x[0].0) == x[0].1);
    assert(value_in(word, y[0].0) == y[0].1);
    assert(value_in(word, x[1].0) == x[1].1);
    assert(value_in(word, y[1].0) == y[1].1);
}

proof fn lemma_unique_kil(a: Instruction, b: Instruction, word: u64)
    requires
        a is Kil,
        decodes_to(Opcode::KIL, word, a),
        decodes_to(Opcode::KIL, word, b),
    ensures
        a == b,
{
    assert(b is Kil);
    let (x, y) = (a.operands(), b.operands());
    assert(value_in(word, x[0].0) == x[0].1);
    assert(value_in(word, y[0].0) == y[0].1);
    assert(value_in(word, x[1].0) == x[1].1);
    assert(value_in(word, y[1].0) == y[1].1);
    assert(value_in(word, x[2].0) == x[2].1);
    assert(value_in(word, y[2].0) == y[2].1);
}

proof fn lemma_unique_al2p(a: Instruction, b: Instruction, word: u64)
    requires
        a is Al2p,
        decodes_to(Opcode::AL2P, word, a),
        decodes_to(Opcode::AL2P, word, b),
    ensures
        a == b,
{
    assert(b is Al2p);
    let (x, y) = (a.operands(), b.operands());
    assert(value_in(word, x[0].0) == x[0].1);
    assert(value_in(word, y[0].0) == y[0].1);
    assert(value_in(word, x[1].0) == x[1].1);
    assert(value_in(word, y[1].0) == y[1].1);
    assert(value_in(word, x[2].0) == x[2].1);
    assert(value_in(word, y[2].0) == y[2].1);
    assert(value_in(word, x[3].0) == x[3].1);
    assert(value_in(word, y[3].0) == y[3].1);
    assert(value_in(word, x[4].0) == x[4].1);
    assert(value_in(word, y[4].0) == y[4].1);
    assert(value_in(word, x[5].0) == x[5].1);
    assert(value_in(word, y[5].0) == y[5].1);
    assert(value_in(word, x[6].0) == x[6].1);
    assert(value_in(word, y[6].0) == y[6].1);
    assert(value_in(word, x[7].0) == x[7].1);
    assert(value_in(word, y[7].0) == y[7].1);
}

proof fn lemma_unique_ald(a: Instruction, b: Instruction, word: u64)
    requires
        a is Ald,
        decodes_to(Opcode::ALD, word, a),
        decodes_to(Opcode::ALD, word, b),
    ensures
        a == b,
{
    assert(b is Ald);
    let (x, y) = (a.operands(), b.operands());
    assert(value_in(word, x[0].0) == x[0].1);
    assert(value_in(word, y[0].0) == y[0].1);
    assert(value_in(word, x[1].0) == x[1].1);
    assert(value_in(word, y[1].0) == y[1].1);
    assert(value_in(word, x[2].0) == x[2].1);
    assert(value_in(word, y[2].0) == y[2].1);
    assert(value_in(word, x[3].0) == x[3].1);
    assert(value_in(word, y[3].0) == y[3].1);
    assert(value_in(word, x[4].0) == x[4].1);
    assert(value_in(word, y[4].0) == y[4].1);
    assert(value_in(word, x[5].0) == x[5].1);
    assert(value_in(word, y[5].0) == y[5].1);
    assert(value_in(word, x[6].0) == x[6].1);
    assert(value_in(word, y[6].0) == y[6].1);
    assert(value_in(word, x[7].0) == x[7].1);
    assert(value_in(word, y[7].0) == y[7].1);
    assert(value_in(word, x[8].0) == x[8].1);
    assert(value_in(word, y[8].0) == y[8].1);
}

proof fn lemma_unique_ast(a: Instruction, b: Instruction, word: u64)
    requires
        a is Ast,
        decodes_to(Opcode::AST, word, a),
        decodes_to(Opcode::AST, word, b),
    ensures
        a == b,
{
    assert(b is Ast);
    let (x, y) = (a.operands(), b.operands());
    assert(value_in(word, x[0].0) == x[0].1);
    assert(value_in(word, y[0].0) == y[0].1);
    assert(value_in(word, x[1].0) == x[1].1);
    assert(value_in(word, y[1].0) == y[1].1);
    assert(value_in(word, x[2].0) == x[2].1);
    assert(value_in(word, y[2].0) == y[2].1);
    assert(value_in(word, x[3].0) == x[3].1);
    assert(value_in(word, y[3].0) == y[3].1);
    assert(value_in(word, x[4].0) == x[4].1);
    assert(value_in(word, y[4].0) == y[4].1);
    assert(value_in(word, x[5].0) == x[5].1);
    assert(value_in(word, y[5].0) == y[5].1);
    assert(value_in(word, x[6].0) == x[6].1);
    assert(value_in(word, y[6].0) == y[6].1);
    assert(value_in(word, x[7].0) == x[7].1);
    assert(value_in(word, y[7].0) == y[7].1);
}

proof fn lemma_unique_atoms(a: Instruction, b: Instruction, word: u64)
    requires
        a is Atoms,
        decodes_to(Opcode::ATOMS, word, a),
        decodes_to(Opcode::ATOMS, word, b),
    ensures
        a == b,
{
    assert(b is Atoms);
    let (x, y) = (a.operands(), b.operands());
    assert(value_in(word, x[0].0) == x[0].1);
    assert(value_in(word, y[0].0) == y[0].1);
    assert(value_in(word, x[1].0) == x[1].1);
    assert(value_in(word, y[1].0) == y[1].1);
    assert(value_in(word, x[2].0) == x[2].1);
    assert(value_in(word, y[2].0) == y[2].1);
    assert(value_in(word, x[3].0) == x[3].1);
    assert(value_in(word, y[3].0) == y[3].1);
    assert(value_in(word, x[4].0) == x[4].1);
    assert(value_in(word, y[4].0) == y[4].1);
    assert(value_in(word, x[5].0) == x[5].1);
    assert(value_in(word, y[5].0) == y[5].1);
    assert(value_in(word, x[6].0) == x[6].1);
    assert(value_in(word, y[6].0) == y[6].1);
    assert(value_in(word, x[7].0) == x[7].1);
    assert(value_in(word, y[7].0) == y[7].1);
    if let Instruction::Atoms { offset: oa, .. } = a {
        if let Instruction::Atoms { offset: ob, .. } = b {
            lemma_quarter_unique(oa, ob);
        }
    }
}

proof fn lemma_unique_atoms_cas(a: Instruction, b: Instruction, word: u64)
    requires
        a is AtomsCas,
        decodes_to(Opcode::ATOMS_CAS, word, a),
        decodes_to(Opcode::ATOMS_CAS, word, b),
    ensures
        a == b,
{
    assert(b is AtomsCas);
    let (x, y) = (a.operands(), b.operands());
    assert(value_in(word, x[0].0) == x[0].1);
    assert(value_in(word, y[0].0) == y[0].1);
    assert(value_in(word, x[1].0) == x[1].1);
    assert(value_in(word, y[1].0) == y[1].1);
    assert(value_in(word, x[2].0) == x[2].1);
    assert(value_in(word, y[2].0) == y[2].1);
    assert(value_in(word, x[3].0) == x[3].1);
    assert(value_in(word, y[3].0) == y[3].1);
    assert(value_in(word, x[4].0) == x[4].1);
    assert(value_in(word, y[4].0) == y[4].1);
    assert(value_in(word, x[5].0) == x[5].1);
    assert(value_in(word, y[5].0) == y[5].1);
    assert(value_in(word, x[6].0) == x[6].1);
    assert(value_in(word, y[6].0) == y[6].1);
    assert(value_in(word, x[7].0) == x[7].1);
    assert(value_in(word, y[7].0) == y[7].1);
    if let Instruction::AtomsCas { offset: oa, .. } = a {
        if let Instruction::AtomsCas { offset: ob, .. } = b {
            lemma_quarter_unique(oa, ob);
        }
    }
}

proof fn lemma_unique_atom(a: Instruction, b: Instruction, word: u64)
    requires
        a is Atom,
        decodes_to(Opcode::ATOM, word, a),
        decodes_to(Opcode::ATOM, word, b),
    ensures
        a == b,
{
    assert(b is Atom);
    let (x, y) = (a.operands(), b.operands());
    assert(value_in(word, x[0].0) == x[0].1);
    assert(value_in(word, y[0].0) == y[0].1);
    assert(value_in(word, x[1].0) == x[1].1);
    assert(value_in(word, y[1].0) == y[1].1);
    assert(value_in(word, x[2].0) == x[2].1);
    assert(value_in(word, y[2].0) == y[2].1);
    assert(value_in(word, x[3].0) == x[3].1);
    assert(value_in(word, y[3].0) == y[3].1);
    assert(value_in(word, x[4].0) == x[4].1);
    assert(value_in(word, y[4].0) == y[4].1);
    assert(value_in(word, x[5].0) == x[5].1);
    assert(value_in(word, y[5].0) == y[5].1);
    assert(value_in(word, x[6].0) == x[6].1);
    assert(value_in(word, y[6].0) == y[6].1);
    assert(value_in(word, x[7].0) == x[7].1);
    assert(value_in(word, y[7].0) == y[7].1);
    assert(value_in(word, x[8].0) == x[8].1);
    assert(value_in(word, y[8].0) == y[8].1);
}

proof fn lemma_unique_atom_cas(a: Instruction, b: Instruction, word: u64)
    requires
        a is AtomCas,
        decodes_to(Opcode::ATOM_CAS, word, a),
        decodes_to(Opcode::ATOM_CAS, word, b),
    ensures
        a == b,
{
    assert(b is AtomCas);
    let (x, y) = (a.operands(), b.operands());
    assert(value_in(word, x[0].0) == x[0].1);
    assert(value_in(word, y[0].0) == y[0].1);
    assert(value_in(word, x[1].0) == x[1].1);
    assert(value_in(word, y[1].0) == y[1].1);
    assert(value_in(word, x[2].0) == x[2].1);
    assert(value_in(word, y[2].0) == y[2].1);
    assert(value_in(word, x[3].0) == x[3].1);
    assert(value_in(word, y[3].0) == y[3].1);
    assert(value_in(word, x[4].0) == x[4].1);
    assert(value_in(word, y[4].0) == y[4].1);
    assert(value_in(word, x[5].0) == x[5].1);
    assert(value_in(word, y[5].0) == y[5].1);
    assert(value_in(word, x[6].0) == x[6].1);
    assert(value_in(word, y[6].0) == y[6].1);
    assert(value_in(word, x[7].0) == x[7].1);
    assert(value_in(word, y[7].0) == y[7].1);
}

/// A word describes at most one decodable instruction of each kind.
pub proof fn lemma_describes_unique(a: Instruction, b: Instruction, word: u64)
    requires
        decodes_to(a.opcode(), word, a),
        decodes_to(a.opcode(), word, b),
    ensures
        a == b,
{
    match a {
        Instruction::Nop { .. } => lemma_unique_nop(a, b, word),
        Instruction::Ram => {},
        Instruction::Sam => {},
        Instruction::Ret { .. } => lemma_unique_ret(a, b, word),
        Instruction::Exit { .. } => lemma_unique_exit(a, b, word),
        Instruction::GetLmembase { .. } => lemma_unique_get_lmembase(a, b, word),
        Instruction::SetLmembase { .. } => lemma_unique_set_lmembase(a, b, word),
        Instruction::Ide { .. } => lemma_unique_ide(a, b, word),
        Instruction::Kil { .. } => lemma_unique_kil(a, b, word),
        Instruction::Al2p { .. } => lemma_unique_al2p(a, b, word),
        Instruction::Ald { .. } => lemma_unique_ald(a, b, word),
        Instruction::Ast { .. } => lemma_unique_ast(a, b, word),
        Instruction::Atoms { .. } => lemma_unique_atoms(a, b, word),
        Instruction::AtomsCas { .. } => lemma_unique_atoms_cas(a, b, word),
        Instruction::Atom { .. } => lemma_unique_atom(a, b, word),
        Instruction::AtomCas { .. } => lemma_unique_atom_cas(a, b, word),
    }
}

/// Round trip: decoding the fields of the word that an instruction encodes
/// to gives that instruction back, for every instruction that decoding can
/// give back (an ATOMS or ATOMS_CAS offset must be a multiple of 4).
pub proof fn lemma_decode_round_trip(inst: Instruction)
    requires
        inst.encoded() is Ok,
        inst.is_canonical(),
    ensures
        decodes_to(inst.opcode(), inst.encoded()->Ok_0, inst),
        forall|other: Instruction|
            decodes_to(inst.opcode(), inst.encoded()->Ok_0, other) ==> other == inst,
{
    let w = inst.encoded()->Ok_0;
    assert forall|k: int| 0 <= k < inst.operands().len() implies value_in(
        w,
        #[trigger] inst.operands()[k].0,
    ) == inst.operands()[k].1 by {
        lemma_fields_read_back(inst, k);
    }
    assert forall|other: Instruction| decodes_to(inst.opcode(), w, other) implies other == inst by {
        lemma_describes_unique(inst, other, w);
    }
}

} // verus!
