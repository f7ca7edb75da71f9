//! An assembler for the instruction words of an undocumented GPU shader
//! instruction set.
//!
//! Each instruction kind has an encoder that packs its operands into a 64-bit
//! word: the opcode tag in bits 63..32, then the operand fields of the kind.
//! Every value is checked against its field before it is written.
//! `assemble_shader` lays a sequence of such words out in 32-byte blocks.

pub mod bits;
pub mod decoder;
pub mod domain;
pub mod encoder;
pub mod error;
pub mod field;
pub mod instruction;
pub mod opcode;
pub mod shader;

pub use domain::{
    AtomOperation, AtomPrimitiveType, AtomicCasPrimitiveType, AtomsCasOperation, AtomsOperation,
    AtomsPrimitiveType, AttributeLoadMode, ControlCode,
};
pub use encoder::{
    encode_al2p, encode_ald, encode_ast, encode_atom, encode_atom_cas, encode_atoms,
    encode_atoms_cas, encode_exit, encode_get_lmembase, encode_ide, encode_kil, encode_nop,
    encode_ram, encode_ret, encode_sam, encode_set_lmembase,
};
pub use decoder::decode_fields;
pub use error::AsmError;
pub use field::{pack, unpack, Field};
pub use instruction::Instruction;
pub use opcode::Opcode;
pub use shader::{assemble_shader, SCHEDULING_PLACEHOLDER};
