use maxhell::{
    encode_al2p, encode_ald, encode_ast, encode_atom, encode_atom_cas, encode_atoms,
    encode_atoms_cas, encode_exit, encode_get_lmembase, encode_ide, encode_kil, encode_nop,
    encode_ram, encode_ret, encode_sam, encode_set_lmembase, unpack, AsmError, AtomOperation,
    AtomPrimitiveType, AtomicCasPrimitiveType, AtomsCasOperation, AtomsOperation,
    AtomsPrimitiveType, AttributeLoadMode, ControlCode, Field, Instruction, Opcode,
};

#[test]
fn ram_and_sam_hold_only_their_tags() {
    assert_eq!(encode_ram(), 0xe380000000000000);
    assert_eq!(encode_sam(), 0xe370000000000000);
}

#[test]
fn ret_exit_kil_words() {
    assert_eq!(encode_ret(7, false, ControlCode::TRUE), Ok(0xe32000000007000f));
    assert_eq!(encode_exit(7, false, ControlCode::TRUE, false), Ok(0xe30000000007000f));
    assert_eq!(encode_kil(7, false, ControlCode::TRUE), Ok(0xe33000000007000f));
    assert_eq!(encode_exit(0, true, ControlCode::LESS_OR_EQUAL, true), Ok(0xe300000000080023));
}

#[test]
fn nop_words() {
    assert_eq!(encode_nop(false, 7, false, 0, ControlCode::TRUE), Ok(0x50b0000000070f00));
    assert_eq!(encode_nop(true, 2, true, 0xbeef, ControlCode::Raw(20)), Ok(0x50b0000beefa3400));
}

#[test]
fn local_memory_base_and_ide_words() {
    assert_eq!(encode_get_lmembase(42), 0xe2d000000000002a);
    assert_eq!(encode_set_lmembase(42), 0xe2f0000000002a00);
    assert_eq!(encode_ide(42, false), 0xe390000002a00000);
    assert_eq!(encode_ide(0xffff, true), 0xe390000ffff00020);
}

#[test]
fn attribute_words() {
    assert_eq!(
        encode_al2p(7, false, 7, 1, 42, false, AttributeLoadMode::M128, 0),
        Ok(0xefa1f00000072a01)
    );
    assert_eq!(
        encode_al2p(2, true, 5, 3, 4, true, AttributeLoadMode::M64, -3),
        Ok(0xefa0d0017fda0403)
    );
    assert_eq!(
        encode_ald(7, false, 1, 0, 0xff, true, false, AttributeLoadMode::M128, 0),
        Ok(0xefd9ff8080070001)
    );
    assert_eq!(
        encode_ald(6, true, 9, 8, 7, false, true, AttributeLoadMode::M96, -1024),
        Ok(0xefd90381400e0809)
    );
    assert_eq!(
        encode_ast(7, false, 1, 0, 0xfe, true, AttributeLoadMode::M128, 0),
        Ok(0xeff1ff0080070001)
    );
    assert_eq!(
        encode_ast(5, false, 250, 251, 252, false, AttributeLoadMode::M32, 1023),
        Ok(0xeff07e003ff5fbfa)
    );
}

#[test]
fn shared_memory_atomic_words() {
    assert_eq!(
        encode_atoms(7, false, 4, 1, 2, 0x14, AtomsPrimitiveType::S32, AtomsOperation::EXCH),
        Ok(0xec80000150270104)
    );
    assert_eq!(
        encode_atoms(3, true, 10, 11, 12, -8, AtomsPrimitiveType::S64, AtomsOperation::XOR),
        Ok(0xec7fffffb0cb0b0a)
    );
    assert_eq!(
        encode_atoms_cas(
            7,
            false,
            4,
            1,
            2,
            0x14,
            AtomicCasPrimitiveType::U32,
            AtomsCasOperation::CAS
        ),
        Ok(0xee40000140170104)
    );
    assert_eq!(
        encode_atoms_cas(
            0,
            false,
            1,
            2,
            3,
            -4,
            AtomicCasPrimitiveType::U64,
            AtomsCasOperation::CAS
        ),
        Ok(0xee5fffffc0200201)
    );
}

#[test]
fn atoms_cas_refuses_operations_that_clear_the_tag() {
    for op in [AtomsCasOperation::CAST, AtomsCasOperation::CAST_SPIN] {
        assert_eq!(
            encode_atoms_cas(0, false, 0, 0, 1, 0, AtomicCasPrimitiveType::U32, op),
            Err(AsmError::InvalidOperandCombination)
        );
    }
}

#[test]
fn every_encoded_word_keeps_its_tag() {
    let words = [
        (Opcode::RAM, encode_ram()),
        (Opcode::SAM, encode_sam()),
        (Opcode::RET, encode_ret(7, true, ControlCode::Raw(31)).unwrap()),
        (Opcode::EXIT, encode_exit(7, true, ControlCode::Raw(31), true).unwrap()),
        (Opcode::NOP, encode_nop(true, 7, true, 0xffff, ControlCode::Raw(31)).unwrap()),
        (Opcode::GETLMEMBASE, encode_get_lmembase(255)),
        (Opcode::SETLMEMBASE, encode_set_lmembase(255)),
        (Opcode::IDE, encode_ide(0xffff, true)),
        (Opcode::KIL, encode_kil(7, true, ControlCode::Raw(31)).unwrap()),
        (
            Opcode::AL2P,
            encode_al2p(7, true, 7, 255, 255, true, AttributeLoadMode::M128, -1).unwrap(),
        ),
        (
            Opcode::ALD,
            encode_ald(7, true, 255, 255, 255, true, true, AttributeLoadMode::M128, -1).unwrap(),
        ),
        (
            Opcode::AST,
            encode_ast(7, true, 255, 255, 255, true, AttributeLoadMode::M128, -1).unwrap(),
        ),
        (
            Opcode::ATOMS,
            encode_atoms(7, true, 255, 255, 255, -4, AtomsPrimitiveType::S64, AtomsOperation::EXCH)
                .unwrap(),
        ),
        (
            Opcode::ATOMS_CAS,
            encode_atoms_cas(
                7,
                true,
                255,
                255,
                255,
                -4,
                AtomicCasPrimitiveType::U64,
                AtomsCasOperation::CAS,
            )
            .unwrap(),
        ),
        (
            Opcode::ATOM,
            encode_atom(7, true, 255, 255, 255, -1, AtomPrimitiveType::F32, AtomOperation::SAFE_ADD, true)
                .unwrap(),
        ),
        (
            Opcode::ATOM_CAS,
            encode_atom_cas(7, true, 255, 255, 255, -1, AtomicCasPrimitiveType::U64, true).unwrap(),
        ),
    ];
    for (op, w) in words {
        let tag = op.encode();
        assert_eq!(((w >> 32) as u32) & tag, tag);
    }
}

#[test]
fn global_memory_atomic_words() {
    assert_eq!(
        encode_atom(7, false, 4, 1, 2, 0x14, AtomPrimitiveType::U64, AtomOperation::SAFE_ADD, false),
        Ok(0xeda4000140270104)
    );
    assert_eq!(
        encode_atom(1, true, 5, 6, 7, -100, AtomPrimitiveType::F32, AtomOperation::DEC, true),
        Ok(0xed47fff9c0790605)
    );
    assert_eq!(
        encode_atom_cas(7, false, 4, 1, 2, 0x14, AtomicCasPrimitiveType::U64, false),
        Ok(0xeef2000140270104)
    );
    assert_eq!(
        encode_atom_cas(4, true, 1, 2, 3, -(1 << 19), AtomicCasPrimitiveType::U32, true),
        Ok(0xeef18000003c0201)
    );
}

#[test]
fn atoms_cas_rejects_register_zero() {
    assert_eq!(
        encode_atoms_cas(
            7,
            false,
            4,
            1,
            0,
            0x14,
            AtomicCasPrimitiveType::U32,
            AtomsCasOperation::CAS
        ),
        Err(AsmError::InvalidOperandCombination)
    );
}

#[test]
fn predicate_register_above_seven_is_out_of_range() {
    assert_eq!(
        encode_ret(8, false, ControlCode::TRUE),
        Err(AsmError::OutOfRange(Field::Predicate, 8))
    );
    assert_eq!(
        encode_al2p(7, false, 8, 1, 42, false, AttributeLoadMode::M128, 0),
        Err(AsmError::OutOfRange(Field::DestinationPredicate, 8))
    );
}

#[test]
fn condition_code_outside_domain_is_out_of_range() {
    assert_eq!(
        encode_ret(7, false, ControlCode::Raw(3)),
        Err(AsmError::OutOfRange(Field::ConditionCode, 3))
    );
    assert_eq!(
        encode_kil(7, false, ControlCode::Raw(32)),
        Err(AsmError::OutOfRange(Field::ConditionCode, 32))
    );
    assert_eq!(
        encode_nop(false, 7, false, 0, ControlCode::Raw(200)),
        Err(AsmError::OutOfRange(Field::NopConditionCode, 200))
    );
    assert!(encode_exit(7, false, ControlCode::Raw(31), false).is_ok());
}

#[test]
fn offsets_outside_their_fields_are_out_of_range() {
    assert_eq!(
        encode_ald(7, false, 1, 0, 0xff, true, false, AttributeLoadMode::M128, 1024),
        Err(AsmError::OutOfRange(Field::LoadOffset, 1024))
    );
    assert_eq!(
        encode_ast(7, false, 1, 0, 0xfe, true, AttributeLoadMode::M128, -1025),
        Err(AsmError::OutOfRange(Field::LoadOffset, -1025))
    );
    assert_eq!(
        encode_atoms(0, false, 0, 0, 0, 1 << 23, AtomsPrimitiveType::U32, AtomsOperation::ADD),
        Err(AsmError::OutOfRange(Field::AtomsOffset, 1 << 21))
    );
    assert!(encode_atoms(
        0,
        false,
        0,
        0,
        0,
        (1 << 23) - 4,
        AtomsPrimitiveType::U32,
        AtomsOperation::ADD
    )
    .is_ok());
    assert_eq!(
        encode_atom(0, false, 0, 0, 0, 1 << 19, AtomPrimitiveType::U32, AtomOperation::ADD, false),
        Err(AsmError::OutOfRange(Field::AtomOffset, 1 << 19))
    );
}

#[test]
fn operands_read_back_from_encoded_word() {
    let w = encode_atoms(3, true, 10, 11, 12, -8, AtomsPrimitiveType::S64, AtomsOperation::XOR)
        .unwrap();
    assert_eq!(unpack(w, Field::Predicate), 3);
    assert_eq!(unpack(w, Field::PredicateInvert), 1);
    assert_eq!(unpack(w, Field::Operand0), 10);
    assert_eq!(unpack(w, Field::Operand1), 11);
    assert_eq!(unpack(w, Field::Operand2), 12);
    assert_eq!(unpack(w, Field::AtomsType), 3);
    assert_eq!(unpack(w, Field::AtomsOffset), -2);
    assert_eq!(unpack(w, Field::AtomicOperation), 7);

    let w = encode_atoms_cas(
        0,
        false,
        1,
        2,
        3,
        -4,
        AtomicCasPrimitiveType::U64,
        AtomsCasOperation::CAS,
    )
    .unwrap();
    assert_eq!(unpack(w, Field::Operand2), 2);
    assert_eq!(unpack(w, Field::AtomsOffset), -1);
    assert_eq!(unpack(w, Field::AtomsCasType), 1);
    assert_eq!(unpack(w, Field::AtomsCasOperation), 2);

    let w = encode_al2p(2, true, 5, 3, 4, true, AttributeLoadMode::M64, -3).unwrap();
    assert_eq!(unpack(w, Field::LoadOffset), -3);
    assert_eq!(unpack(w, Field::DestinationPredicate), 5);
    assert_eq!(unpack(w, Field::AttributeMode), 1);
    assert_eq!(unpack(w, Field::OFlag), 1);
}

#[test]
fn instruction_encode_matches_kind_encoders() {
    let i = Instruction::Exit {
        predicate: 7,
        invert: false,
        control_code: ControlCode::TRUE,
        keep_refcount: false,
    };
    assert_eq!(i.encode(), encode_exit(7, false, ControlCode::TRUE, false));
    assert_eq!(Instruction::Ram.encode(), Ok(encode_ram()));
    let i = Instruction::AtomsCas {
        predicate: 1,
        invert: false,
        destination_register: 1,
        source_register_a: 2,
        source_register_b: 0,
        offset: 0,
        type_size: AtomicCasPrimitiveType::U32,
        operation: AtomsCasOperation::CAS,
    };
    assert_eq!(i.encode(), Err(AsmError::InvalidOperandCombination));
}
