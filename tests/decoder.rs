use maxhell::{
    decode_fields, encode_atoms, AsmError, AtomOperation, AtomPrimitiveType,
    AtomicCasPrimitiveType, AtomsCasOperation, AtomsOperation, AtomsPrimitiveType,
    AttributeLoadMode, ControlCode, Field, Instruction, Opcode,
};

fn round_trip(inst: Instruction) {
    let w = inst.encode().unwrap();
    assert_eq!(decode_fields(inst.kind(), w), Ok(inst));
}

#[test]
fn decoding_gives_back_every_kind() {
    round_trip(Instruction::Nop {
        trigger: true,
        predicate: 2,
        invert: true,
        value: 0xbeef,
        control_code: ControlCode::Raw(20),
    });
    round_trip(Instruction::Ram);
    round_trip(Instruction::Sam);
    round_trip(Instruction::Ret { predicate: 7, invert: false, control_code: ControlCode::TRUE });
    round_trip(Instruction::Exit {
        predicate: 0,
        invert: true,
        control_code: ControlCode::LESS_OR_EQUAL,
        keep_refcount: true,
    });
    round_trip(Instruction::GetLmembase { register: 42 });
    round_trip(Instruction::SetLmembase { register: 255 });
    round_trip(Instruction::Ide { value: 0xffff, disable: true });
    round_trip(Instruction::Kil { predicate: 3, invert: false, control_code: ControlCode::Raw(31) });
    round_trip(Instruction::Al2p {
        predicate: 2,
        invert: true,
        destination_predicate: 5,
        destination_register: 3,
        source_register: 4,
        o_flag: true,
        mode: AttributeLoadMode::M64,
        load_offset: -3,
    });
    round_trip(Instruction::Ald {
        predicate: 6,
        invert: true,
        destination_register: 9,
        source_offset_register: 8,
        source_register: 7,
        no_physical: false,
        o_flag: true,
        mode: AttributeLoadMode::M96,
        load_offset: -1024,
    });
    round_trip(Instruction::Ast {
        predicate: 5,
        invert: false,
        destination_offset_register: 250,
        source_register_a: 251,
        source_register_b: 252,
        no_physical: true,
        mode: AttributeLoadMode::M32,
        load_offset: 1023,
    });
    round_trip(Instruction::Atoms {
        predicate: 3,
        invert: true,
        destination_register: 10,
        source_register_a: 11,
        source_register_b: 12,
        offset: -8,
        type_size: AtomsPrimitiveType::S64,
        operation: AtomsOperation::XOR,
    });
    round_trip(Instruction::AtomsCas {
        predicate: 0,
        invert: false,
        destination_register: 1,
        source_register_a: 2,
        source_register_b: 255,
        offset: (1 << 23) - 4,
        type_size: AtomicCasPrimitiveType::U64,
        operation: AtomsCasOperation::CAS,
    });
    round_trip(Instruction::Atom {
        predicate: 1,
        invert: true,
        destination_register: 5,
        source_register_a: 6,
        source_register_b: 7,
        offset: -100,
        type_size: AtomPrimitiveType::F32,
        operation: AtomOperation::SAFE_ADD,
        e_flag: true,
    });
    round_trip(Instruction::AtomCas {
        predicate: 4,
        invert: true,
        destination_register: 1,
        source_register_a: 2,
        source_register_b: 3,
        offset: -(1 << 19),
        type_size: AtomicCasPrimitiveType::U32,
        e_flag: true,
    });
}

#[test]
fn shifted_offset_decodes_to_word_granularity() {
    let w = encode_atoms(0, false, 0, 0, 0, -7, AtomsPrimitiveType::U32, AtomsOperation::ADD)
        .unwrap();
    match decode_fields(Opcode::ATOMS, w) {
        Ok(Instruction::Atoms { offset, .. }) => assert_eq!(offset, -8),
        other => panic!("unexpected decoding {:?}", other),
    }
}

#[test]
fn undefined_domain_values_fail_to_decode() {
    let atom_type_five: u64 = 0xed00000000000000 | (5u64 << 49);
    assert_eq!(
        decode_fields(Opcode::ATOM, atom_type_five),
        Err(AsmError::OutOfRange(Field::AtomType, 5))
    );
    let atoms_op_twelve: u64 = 0xec00000000000000 | (12u64 << 52);
    assert_eq!(
        decode_fields(Opcode::ATOMS, atoms_op_twelve),
        Err(AsmError::OutOfRange(Field::AtomicOperation, 12))
    );
    let cas_op_three: u64 = 0xee00000000000000 | (3u64 << 53);
    assert_eq!(
        decode_fields(Opcode::ATOMS_CAS, cas_op_three),
        Err(AsmError::OutOfRange(Field::AtomsCasOperation, 3))
    );
    let cas_op_cast: u64 = 0xee40000000000000 & !(3u64 << 53);
    assert_eq!(
        decode_fields(Opcode::ATOMS_CAS, cas_op_cast),
        Err(AsmError::OutOfRange(Field::AtomsCasOperation, 0))
    );
    let cas_register_255: u64 = 0xee40000000000000 | (255u64 << 20);
    assert_eq!(
        decode_fields(Opcode::ATOMS_CAS, cas_register_255),
        Err(AsmError::OutOfRange(Field::Operand2, 255))
    );
}
