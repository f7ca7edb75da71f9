//! One encoder per instruction kind.
//!
//! Each writes the opcode tag into a zero word, then the operand fields of
//! its kind, checking that every value fits its field.

use vstd::prelude::*;
use crate::domain::{
    AtomOperation, AtomPrimitiveType, AtomicCasPrimitiveType, AtomsCasOperation, AtomsOperation,
    AtomsPrimitiveType, AttributeLoadMode, ControlCode,
};
use crate::error::AsmError;
use crate::field::{first_misfit, fits, pack_all, Field};
use crate::instruction::{flag, lemma_tag_kept, Instruction};
use crate::opcode::Opcode;

verus! {

/// The value of a one-bit field for a flag.
fn flag_value(b: bool) -> (r: i64)
    ensures
        r == flag(b),
{
    if b {
        1
    } else {
        0
    }
}

/// Encodes NOP, which does nothing; `value` is its 16-bit immediate.
pub fn encode_nop(
    trigger: bool,
    source_predicate_register: u8,
    invert_source_predicate: bool,
    value: u16,
    control_code: ControlCode,
) -> (r: Result<u64, AsmError>)
    ensures
        r == (Instruction::Nop {
            trigger,
            predicate: source_predicate_register,
            invert: invert_source_predicate,
            value,
            control_code,
        }).encoded(),
        r matches Ok(w) ==> Opcode::NOP.tag_held_by(w),
{
    if !control_code.is_valid() {
        return Err(AsmError::OutOfRange(Field::NopConditionCode, control_code.raw() as i64));
    }
    let entries = vec![
        (Field::Opcode, Opcode::NOP.encode() as i64),
        (Field::NopConditionCode, control_code.raw() as i64),
        (Field::NopTrigger, flag_value(trigger)),
        (Field::Predicate, source_predicate_register as i64),
        (Field::PredicateInvert, flag_value(invert_source_predicate)),
        (Field::Imm16, value as i64),
    ];
    let ghost inst = Instruction::Nop {
        trigger,
        predicate: source_predicate_register,
        invert: invert_source_predicate,
        value,
        control_code,
    };
    assert(entries@ =~= inst.entries());
    let r = pack_all(&entries);
    proof {
        if r is Ok {
            lemma_tag_kept(inst);
        }
    }
    r
}

/// Encodes RAM, which has no operands.
pub fn encode_ram() -> (r: u64)
    ensures
        (Instruction::Ram).encoded() == Ok::<u64, AsmError>(r),
        Opcode::RAM.tag_held_by(r),
{
    let entries = vec![
        (Field::Opcode, Opcode::RAM.encode() as i64),
    ];
    let ghost inst = Instruction::Ram;
    assert(entries@ =~= inst.entries());
    proof {
        vstd::arithmetic::power2::lemma2_to64();
        reveal_with_fuel(first_misfit, 4);
        lemma_tag_kept(inst);
    }
    pack_all(&entries).unwrap()
}

/// Encodes SAM, which has no operands.
pub fn encode_sam() -> (r: u64)
    ensures
        (Instruction::Sam).encoded() == Ok::<u64, AsmError>(r),
        Opcode::SAM.tag_held_by(r),
{
    let entries = vec![
        (Field::Opcode, Opcode::SAM.encode() as i64),
    ];
    let ghost inst = Instruction::Sam;
    assert(entries@ =~= inst.entries());
    proof {
        vstd::arithmetic::power2::lemma2_to64();
        reveal_with_fuel(first_misfit, 4);
        lemma_tag_kept(inst);
    }
    pack_all(&entries).unwrap()
}

/// Encodes RET, a guarded return.
pub fn encode_ret(
    source_predicate_register: u8,
    invert_source_predicate: bool,
    control_code: ControlCode,
) -> (r: Result<u64, AsmError>)
    ensures
        r == (Instruction::Ret {
            predicate: source_predicate_register,
            invert: invert_source_predicate,
            control_code,
        }).encoded(),
        r matches Ok(w) ==> Opcode::RET.tag_held_by(w),
{
    if !control_code.is_valid() {
        return Err(AsmError::OutOfRange(Field::ConditionCode, control_code.raw() as i64));
    }
    let entries = vec![
        (Field::Opcode, Opcode::RET.encode() as i64),
        (Field::ConditionCode, control_code.raw() as i64),
        (Field::Predicate, source_predicate_register as i64),
        (Field::PredicateInvert, flag_value(invert_source_predicate)),
    ];
    let ghost inst = Instruction::Ret {
        predicate: source_predicate_register,
        invert: invert_source_predicate,
        control_code,
    };
    assert(entries@ =~= inst.entries());
    let r = pack_all(&entries);
    proof {
        if r is Ok {
            lemma_tag_kept(inst);
        }
    }
    r
}

/// Encodes EXIT, a guarded end of the program.
pub fn encode_exit(
    source_predicate_register: u8,
    invert_source_predicate: bool,
    control_code: ControlCode,
    keep_refcount: bool,
) -> (r: Result<u64, AsmError>)
    ensures
        r == (Instruction::Exit {
            predicate: source_predicate_register,
            invert: invert_source_predicate,
            control_code,
            keep_refcount,
        }).encoded(),
        r matches Ok(w) ==> Opcode::EXIT.tag_held_by(w),
{
    if !control_code.is_valid() {
        return Err(AsmError::OutOfRange(Field::ConditionCode, control_code.raw() as i64));
    }
    let entries = vec![
        (Field::Opcode, Opcode::EXIT.encode() as i64),
        (Field::ConditionCode, control_code.raw() as i64),
        (Field::KeepRefcount, flag_value(keep_refcount)),
        (Field::Predicate, source_predicate_register as i64),
        (Field::PredicateInvert, flag_value(invert_source_predicate)),
    ];
    let ghost inst = Instruction::Exit {
        predicate: source_predicate_register,
        invert: invert_source_predicate,
        control_code,
        keep_refcount,
    };
    assert(entries@ =~= inst.entries());
    let r = pack_all(&entries);
    proof {
        if r is Ok {
            lemma_tag_kept(inst);
        }
    }
    r
}

/// Encodes GETLMEMBASE, which reads the local memory base into `register`.
pub fn encode_get_lmembase(
    register: u8,
) -> (r: u64)
    ensures
        (Instruction::GetLmembase {
            register,
        }).encoded() == Ok::<u64, AsmError>(r),
        Opcode::GETLMEMBASE.tag_held_by(r),
{
    let entries = vec![
        (Field::Opcode, Opcode::GETLMEMBASE.encode() as i64),
        (Field::Operand0, register as i64),
    ];
    let ghost inst = Instruction::GetLmembase {
        register,
    };
    assert(entries@ =~= inst.entries());
    proof {
        vstd::arithmetic::power2::lemma2_to64();
        reveal_with_fuel(first_misfit, 4);
        lemma_tag_kept(inst);
    }
    pack_all(&entries).unwrap()
}

/// Encodes IDE with its 16-bit immediate; `disable` sets the disable flag.
pub fn encode_ide(
    value: u16,
    disable: bool,
) -> (r: u64)
    ensures
        (Instruction::Ide {
            value,
            disable,
        }).encoded() == Ok::<u64, AsmError>(r),
        Opcode::IDE.tag_held_by(r),
{
    let entries = vec![
        (Field::Opcode, Opcode::IDE.encode() as i64),
        (Field::IdeDisable, flag_value(disable)),
        (Field::Imm16, value as i64),
    ];
    let ghost inst = Instruction::Ide {
        value,
        disable,
    };
    assert(entries@ =~= inst.entries());
    proof {
        vstd::arithmetic::power2::lemma2_to64();
        reveal_with_fuel(first_misfit, 4);
        lemma_tag_kept(inst);
    }
    pack_all(&entries).unwrap()
}

/// Encodes KIL, a guarded kill of the thread.
pub fn encode_kil(
    source_predicate_register: u8,
    invert_source_predicate: bool,
    control_code: ControlCode,
) -> (r: Result<u64, AsmError>)
    ensures
        r == (Instruction::Kil {
            predicate: source_predicate_register,
            invert: invert_source_predicate,
            control_code,
        }).encoded(),
        r matches Ok(w) ==> Opcode::KIL.tag_held_by(w),
{
    if !control_code.is_valid() {
        return Err(AsmError::OutOfRange(Field::ConditionCode, control_code.raw() as i64));
    }
    let entries = vec![
        (Field::Opcode, Opcode::KIL.encode() as i64),
        (Field::ConditionCode, control_code.raw() as i64),
        (Field::Predicate, source_predicate_register as i64),
        (Field::PredicateInvert, flag_value(invert_source_predicate)),
    ];
    let ghost inst = Instruction::Kil {
        predicate: source_predicate_register,
        invert: invert_source_predicate,
        control_code,
    };
    assert(entries@ =~= inst.entries());
    let r = pack_all(&entries);
    proof {
        if r is Ok {
            lemma_tag_kept(inst);
        }
    }
    r
}

/// Encodes SETLMEMBASE, which sets the local memory base from `register`.
pub fn encode_set_lmembase(
    register: u8,
) -> (r: u64)
    ensures
        (Instruction::SetLmembase {
            register,
        }).encoded() == Ok::<u64, AsmError>(r),
        Opcode::SETLMEMBASE.tag_held_by(r),
{
    let entries = vec![
        (Field::Opcode, Opcode::SETLMEMBASE.encode() as i64),
        (Field::Operand1, register as i64),
    ];
    let ghost inst = Instruction::SetLmembase {
        register,
    };
    assert(entries@ =~= inst.entries());
    proof {
        vstd::arithmetic::power2::lemma2_to64();
        reveal_with_fuel(first_misfit, 4);
        lemma_tag_kept(inst);
    }
    pack_all(&entries).unwrap()
}

/// Encodes AL2P, which maps an attribute offset to a physical one.
pub fn encode_al2p(
    source_predicate_register: u8,
    invert_source_predicate: bool,
    destination_predicate_register: u8,
    destination_register: u8,
    source_register: u8,
    o_flag: bool,
    mode: AttributeLoadMode,
    load_offset: i16,
) -> (r: Result<u64, AsmError>)
    ensures
        r == (Instruction::Al2p {
            predicate: source_predicate_register,
            invert: invert_source_predicate,
            destination_predicate: destination_predicate_register,
            destination_register,
            source_register,
            o_flag,
            mode,
            load_offset,
        }).encoded(),
        r matches Ok(w) ==> Opcode::AL2P.tag_held_by(w),
{
    let entries = vec![
        (Field::Opcode, Opcode::AL2P.encode() as i64),
        (Field::Operand0, destination_register as i64),
        (Field::Operand1, source_register as i64),
        (Field::Predicate, source_predicate_register as i64),
        (Field::PredicateInvert, flag_value(invert_source_predicate)),
        (Field::LoadOffset, load_offset as i64),
        (Field::OFlag, flag_value(o_flag)),
        (Field::DestinationPredicate, destination_predicate_register as i64),
        (Field::AttributeMode, mode.raw() as i64),
    ];
    let ghost inst = Instruction::Al2p {
        predicate: source_predicate_register,
        invert: invert_source_predicate,
        destination_predicate: destination_predicate_register,
        destination_register,
        source_register,
        o_flag,
        mode,
        load_offset,
    };
    assert(entries@ =~= inst.entries());
    let r = pack_all(&entries);
    proof {
        if r is Ok {
            lemma_tag_kept(inst);
        }
    }
    r
}

/// Encodes ALD, an attribute load.
pub fn encode_ald(
    source_predicate_register: u8,
    invert_source_predicate: bool,
    destination_register: u8,
    source_offset_register: u8,
    source_register: u8,
    no_physical_flag: bool,
    o_flag: bool,
    mode: AttributeLoadMode,
    load_offset: i16,
) -> (r: Result<u64, AsmError>)
    ensures
        r == (Instruction::Ald {
            predicate: source_predicate_register,
            invert: invert_source_predicate,
            destination_register,
            source_offset_register,
            source_register,
            no_physical: no_physical_flag,
            o_flag,
            mode,
            load_offset,
        }).encoded(),
        r matches Ok(w) ==> Opcode::ALD.tag_held_by(w),
{
    let entries = vec![
        (Field::Opcode, Opcode::ALD.encode() as i64),
        (Field::Operand0, destination_register as i64),
        (Field::Operand1, source_offset_register as i64),
        (Field::Predicate, source_predicate_register as i64),
        (Field::PredicateInvert, flag_value(invert_source_predicate)),
        (Field::LoadOffset, load_offset as i64),
        (Field::NoPhysical, flag_value(no_physical_flag)),
        (Field::OFlag, flag_value(o_flag)),
        (Field::Operand3, source_register as i64),
        (Field::AttributeMode, mode.raw() as i64),
    ];
    let ghost inst = Instruction::Ald {
        predicate: source_predicate_register,
        invert: invert_source_predicate,
        destination_register,
        source_offset_register,
        source_register,
        no_physical: no_physical_flag,
        o_flag,
        mode,
        load_offset,
    };
    assert(entries@ =~= inst.entries());
    let r = pack_all(&entries);
    proof {
        if r is Ok {
            lemma_tag_kept(inst);
        }
    }
    r
}

/// Encodes AST, an attribute store.
pub fn encode_ast(
    source_predicate_register: u8,
    invert_source_predicate: bool,
    destination_offset_register: u8,
    source_register_a: u8,
    source_register_b: u8,
    no_physical_flag: bool,
    mode: AttributeLoadMode,
    load_offset: i16,
) -> (r: Result<u64, AsmError>)
    ensures
        r == (Instruction::Ast {
            predicate: source_predicate_register,
            invert: invert_source_predicate,
            destination_offset_register,
            source_register_a,
            source_register_b,
            no_physical: no_physical_flag,
            mode,
            load_offset,
        }).encoded(),
        r matches Ok(w) ==> Opcode::AST.tag_held_by(w),
{
    let entries = vec![
        (Field::Opcode, Opcode::AST.encode() as i64),
        (Field::Operand0, destination_offset_register as i64),
        (Field::Operand1, source_register_a as i64),
        (Field::Predicate, source_predicate_register as i64),
        (Field::PredicateInvert, flag_value(invert_source_predicate)),
        (Field::LoadOffset, load_offset as i64),
        (Field::NoPhysical, flag_value(no_physical_flag)),
        (Field::Operand3, source_register_b as i64),
        (Field::AttributeMode, mode.raw() as i64),
    ];
    let ghost inst = Instruction::Ast {
        predicate: source_predicate_register,
        invert: invert_source_predicate,
        destination_offset_register,
        source_register_a,
        source_register_b,
        no_physical: no_physical_flag,
        mode,
        load_offset,
    };
    assert(entries@ =~= inst.entries());
    let r = pack_all(&entries);
    proof {
        if r is Ok {
            lemma_tag_kept(inst);
        }
    }
    r
}

/// Encodes ATOMS, an atomic operation on shared memory.
///
/// The byte offset is stored shifted right by 2 (arithmetically), as the
/// hardware counts it in 4-byte words.
pub fn encode_atoms(
    source_predicate_register: u8,
    invert_source_predicate: bool,
    destination_register: u8,
    source_register_a: u8,
    source_register_b: u8,
    register_a_offset: i32,
    type_size: AtomsPrimitiveType,
    operation: AtomsOperation,
) -> (r: Result<u64, AsmError>)
    ensures
        r == (Instruction::Atoms {
            predicate: source_predicate_register,
            invert: invert_source_predicate,
            destination_register,
            source_register_a,
            source_register_b,
            offset: register_a_offset,
            type_size,
            operation,
        }).encoded(),
        r matches Ok(w) ==> Opcode::ATOMS.tag_held_by(w),
{
    let entries = vec![
        (Field::Opcode, Opcode::ATOMS.encode() as i64),
        (Field::Operand0, destination_register as i64),
        (Field::Operand1, source_register_a as i64),
        (Field::Predicate, source_predicate_register as i64),
        (Field::PredicateInvert, flag_value(invert_source_predicate)),
        (Field::Operand2, source_register_b as i64),
        (Field::AtomsType, type_size.raw() as i64),
        (Field::AtomsOffset, (register_a_offset >> 2) as i64),
        (Field::AtomicOperation, operation.raw() as i64),
    ];
    let ghost inst = Instruction::Atoms {
        predicate: source_predicate_register,
        invert: invert_source_predicate,
        destination_register,
        source_register_a,
        source_register_b,
        offset: register_a_offset,
        type_size,
        operation,
    };
    assert(entries@ =~= inst.entries());
    let r = pack_all(&entries);
    proof {
        if r is Ok {
            lemma_tag_kept(inst);
        }
    }
    r
}

/// Encodes ATOMS_CAS, a compare-and-swap on shared memory.
///
/// `source_register_b` must not be 0, and the word holds it minus 1; the
/// byte offset is stored shifted right by 2. Only the CAS operation is
/// accepted: CAST and CAST_SPIN would clear bit 54 of the tag, which the
/// operation field (bits 54..53) shares.
pub fn encode_atoms_cas(
    source_predicate_register: u8,
    invert_source_predicate: bool,
    destination_register: u8,
    source_register_a: u8,
    source_register_b: u8,
    register_a_offset: i32,
    type_size: AtomicCasPrimitiveType,
    operation: AtomsCasOperation,
) -> (r: Result<u64, AsmError>)
    ensures
        r == (Instruction::AtomsCas {
            predicate: source_predicate_register,
            invert: invert_source_predicate,
            destination_register,
            source_register_a,
            source_register_b,
            offset: register_a_offset,
            type_size,
            operation,
        }).encoded(),
        r matches Ok(w) ==> Opcode::ATOMS_CAS.tag_held_by(w),
{
    if source_register_b == 0 {
        return Err(AsmError::InvalidOperandCombination);
    }
    match operation {
        AtomsCasOperation::CAS => {},
        _ => return Err(AsmError::InvalidOperandCombination),
    }
    let entries = vec![
        (Field::Opcode, Opcode::ATOMS_CAS.encode() as i64),
        (Field::Operand0, destination_register as i64),
        (Field::Operand1, source_register_a as i64),
        (Field::Predicate, source_predicate_register as i64),
        (Field::PredicateInvert, flag_value(invert_source_predicate)),
        (Field::Operand2, (source_register_b - 1) as i64),
        (Field::AtomsOffset, (register_a_offset >> 2) as i64),
        (Field::AtomsCasType, type_size.raw() as i64),
        (Field::AtomsCasOperation, operation.raw() as i64),
    ];
    let ghost inst = Instruction::AtomsCas {
        predicate: source_predicate_register,
        invert: invert_source_predicate,
        destination_register,
        source_register_a,
        source_register_b,
        offset: register_a_offset,
        type_size,
        operation,
    };
    assert(entries@ =~= inst.entries());
    let r = pack_all(&entries);
    proof {
        if r is Ok {
            lemma_tag_kept(inst);
        }
    }
    r
}

/// Encodes ATOM, an atomic operation on global memory.
pub fn encode_atom(
    source_predicate_register: u8,
    invert_source_predicate: bool,
    destination_register: u8,
    source_register_a: u8,
    source_register_b: u8,
    register_a_offset: i32,
    type_size: AtomPrimitiveType,
    operation: AtomOperation,
    e_flag: bool,
) -> (r: Result<u64, AsmError>)
    ensures
        r == (Instruction::Atom {
            predicate: source_predicate_register,
            invert: invert_source_predicate,
            destination_register,
            source_register_a,
            source_register_b,
            offset: register_a_offset,
            type_size,
            operation,
            e_flag,
        }).encoded(),
        r matches Ok(w) ==> Opcode::ATOM.tag_held_by(w),
{
    let entries = vec![
        (Field::Opcode, Opcode::ATOM.encode() as i64),
        (Field::Operand0, destination_register as i64),
        (Field::Operand1, source_register_a as i64),
        (Field::Predicate, source_predicate_register as i64),
        (Field::PredicateInvert, flag_value(invert_source_predicate)),
        (Field::Operand2, source_register_b as i64),
        (Field::AtomOffset, register_a_offset as i64),
        (Field::AtomEFlag, flag_value(e_flag)),
        (Field::AtomType, type_size.raw() as i64),
        (Field::AtomicOperation, operation.raw() as i64),
    ];
    let ghost inst = Instruction::Atom {
        predicate: source_predicate_register,
        invert: invert_source_predicate,
        destination_register,
        source_register_a,
        source_register_b,
        offset: register_a_offset,
        type_size,
        operation,
        e_flag,
    };
    assert(entries@ =~= inst.entries());
    let r = pack_all(&entries);
    proof {
        if r is Ok {
            lemma_tag_kept(inst);
        }
    }
    r
}

/// Encodes ATOM_CAS, a compare-and-swap on global memory.
pub fn encode_atom_cas(
    source_predicate_register: u8,
    invert_source_predicate: bool,
    destination_register: u8,
    source_register_a: u8,
    source_register_b: u8,
    register_a_offset: i32,
    type_size: AtomicCasPrimitiveType,
    e_flag: bool,
) -> (r: Result<u64, AsmError>)
    ensures
        r == (Instruction::AtomCas {
            predicate: source_predicate_register,
            invert: invert_source_predicate,
            destination_register,
            source_register_a,
            source_register_b,
            offset: register_a_offset,
            type_size,
            e_flag,
        }).encoded(),
        r matches Ok(w) ==> Opcode::ATOM_CAS.tag_held_by(w),
{
    let entries = vec![
        (Field::Opcode, Opcode::ATOM_CAS.encode() as i64),
        (Field::Operand0, destination_register as i64),
        (Field::Operand1, source_register_a as i64),
        (Field::Predicate, source_predicate_register as i64),
        (Field::PredicateInvert, flag_value(invert_source_predicate)),
        (Field::Operand2, source_register_b as i64),
        (Field::AtomOffset, register_a_offset as i64),
        (Field::AtomEFlag, flag_value(e_flag)),
        (Field::AtomCasType, type_size.raw() as i64),
    ];
    let ghost inst = Instruction::AtomCas {
        predicate: source_predicate_register,
        invert: invert_source_predicate,
        destination_register,
        source_register_a,
        source_register_b,
        offset: register_a_offset,
        type_size,
        e_flag,
    };
    assert(entries@ =~= inst.entries());
    let r = pack_all(&entries);
    proof {
        if r is Ok {
            lemma_tag_kept(inst);
        }
    }
    r
}

} // verus!
