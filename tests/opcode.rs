use maxhell::{AsmError, Opcode};

const ALL: [Opcode; 16] = [
    Opcode::AL2P,
    Opcode::ALD,
    Opcode::AST,
    Opcode::ATOM,
    Opcode::ATOM_CAS,
    Opcode::ATOMS,
    Opcode::ATOMS_CAS,
    Opcode::EXIT,
    Opcode::GETLMEMBASE,
    Opcode::IDE,
    Opcode::KIL,
    Opcode::NOP,
    Opcode::RAM,
    Opcode::RET,
    Opcode::SAM,
    Opcode::SETLMEMBASE,
];

#[test]
fn every_opcode_decodes_from_its_tag() {
    for op in ALL {
        assert_eq!(Opcode::decode(op.encode()), Ok(op));
    }
}

#[test]
fn tags_are_distinct() {
    for a in ALL {
        for b in ALL {
            assert_eq!(a.encode() == b.encode(), a == b);
        }
    }
}

#[test]
fn known_tag_values() {
    assert_eq!(Opcode::AL2P.encode(), 0xefa00000);
    assert_eq!(Opcode::NOP.encode(), 0x50b00000);
    assert_eq!(Opcode::ATOMS_CAS.encode(), 0xee400000);
    assert_eq!(Opcode::decode(0xe3200000), Ok(Opcode::RET));
}

#[test]
fn unknown_tags_fail() {
    assert_eq!(Opcode::decode(0), Err(AsmError::UnknownOpcode(0)));
    assert_eq!(Opcode::decode(0xee000000), Err(AsmError::UnknownOpcode(0xee000000)));
    assert_eq!(Opcode::decode(0xffffffff), Err(AsmError::UnknownOpcode(0xffffffff)));
    let known: Vec<u32> = ALL.iter().map(|o| o.encode()).collect();
    for t in (0u32..=0xffff).map(|x| x.wrapping_mul(0x10001)) {
        if !known.contains(&t) {
            assert_eq!(Opcode::decode(t), Err(AsmError::UnknownOpcode(t)));
        }
    }
}
