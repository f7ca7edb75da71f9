use maxhell::{pack, unpack, AsmError, Field};

const ALL_FIELDS: [Field; 27] = [
    Field::Opcode,
    Field::Operand0,
    Field::Operand1,
    Field::Operand2,
    Field::Operand3,
    Field::Imm16,
    Field::Predicate,
    Field::PredicateInvert,
    Field::ConditionCode,
    Field::NopConditionCode,
    Field::NopTrigger,
    Field::KeepRefcount,
    Field::IdeDisable,
    Field::LoadOffset,
    Field::NoPhysical,
    Field::OFlag,
    Field::DestinationPredicate,
    Field::AttributeMode,
    Field::AtomsType,
    Field::AtomsOffset,
    Field::AtomicOperation,
    Field::AtomsCasType,
    Field::AtomsCasOperation,
    Field::AtomOffset,
    Field::AtomEFlag,
    Field::AtomType,
    Field::AtomCasType,
];

fn next(state: &mut u64) -> u64 {
    *state = state.wrapping_mul(6364136223846793005).wrapping_add(1442695040888963407);
    *state
}

fn range_mask(f: Field) -> u64 {
    let width = f.hi() - f.lo() + 1;
    let low = if width == 64 { u64::MAX } else { (1u64 << width) - 1 };
    low << f.lo()
}

#[test]
fn pack_writes_the_field_bits() {
    assert_eq!(pack(0, Field::Predicate, 5), Ok(0x50000));
    assert_eq!(pack(u64::MAX, Field::Predicate, 0), Ok(u64::MAX & !0x70000));
    assert_eq!(pack(0, Field::LoadOffset, -1), Ok(0x7ff << 20));
    assert_eq!(pack(0, Field::Opcode, 0xefa00000), Ok(0xefa0000000000000));
}

#[test]
fn unpack_reads_and_sign_extends() {
    assert_eq!(unpack(0x50000, Field::Predicate), 5);
    assert_eq!(unpack(0x7ff << 20, Field::LoadOffset), -1);
    assert_eq!(unpack(0x400 << 20, Field::LoadOffset), -1024);
    assert_eq!(unpack(0x3ff << 20, Field::LoadOffset), 1023);
    assert_eq!(unpack(0xefa0000000000000, Field::Opcode), 0xefa00000);
}

#[test]
fn pack_rejects_values_that_do_not_fit() {
    assert_eq!(pack(0, Field::Predicate, 8), Err(AsmError::OutOfRange(Field::Predicate, 8)));
    assert_eq!(pack(0, Field::Operand0, -1), Err(AsmError::OutOfRange(Field::Operand0, -1)));
    assert_eq!(pack(0, Field::Operand0, 256), Err(AsmError::OutOfRange(Field::Operand0, 256)));
    assert_eq!(
        pack(0, Field::AtomOffset, -(1 << 19) - 1),
        Err(AsmError::OutOfRange(Field::AtomOffset, -(1 << 19) - 1))
    );
    assert!(pack(0, Field::AtomOffset, -(1 << 19)).is_ok());
    assert_eq!(
        pack(0, Field::Opcode, 1 << 32),
        Err(AsmError::OutOfRange(Field::Opcode, 1 << 32))
    );
}

#[test]
fn pack_never_disturbs_other_bits() {
    let mut state: u64 = 0x243f6a8885a308d3;
    for _ in 0..200 {
        for f in ALL_FIELDS {
            let base = next(&mut state);
            let width = f.hi() - f.lo() + 1;
            let raw = next(&mut state) & ((1u64 << width) - 1);
            let value: i64 = if f.signed() && raw >= 1u64 << (width - 1) {
                raw as i64 - (1i64 << width)
            } else {
                raw as i64
            };
            let packed = pack(base, f, value).unwrap();
            let mask = range_mask(f);
            assert_eq!(packed & !mask, base & !mask);
            assert_eq!(unpack(packed, f), value);
        }
    }
}
