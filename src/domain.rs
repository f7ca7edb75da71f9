//! Closed integer domains of instruction operands.
//!
//! Each member stands for one raw value; `raw` gives it and `from_raw` takes
//! it back, failing on a value outside the domain.

use vstd::prelude::*;

verus! {

/// The condition under which a guarded instruction executes.
///
/// Values 0 to 15 have names. Values 16 to 31 are valid but their meaning on
/// the hardware is unknown: they are kept as `Raw` and round-trip unchanged.
#[allow(non_camel_case_types)]
#[derive(Clone, Copy, Debug, PartialEq, Eq, Structural)]
pub enum ControlCode {
    /// Never execute.
    FALSE,
    LESS_THAN,
    EQUAL,
    LESS_OR_EQUAL,
    GREATER_THAN,
    NOT_EQUAL,
    GREATER_OR_EQUAL,
    IS_NUMBER,
    IS_NAN,
    LESS_THAN_OR_NAN,
    EQUAL_OR_NAN,
    LESS_OR_EQUAL_OR_NAN,
    GREATER_THAN_OR_NAN,
    NOT_EQUAL_OR_NAN,
    GREATER_OR_EQUAL_OR_NAN,
    /// Always execute.
    TRUE,
    /// A value from 16 to 31, whose meaning is not known.
    Raw(u8),
}

impl ControlCode {
    /// The value that encodes this condition.
    pub open spec fn spec_raw(self) -> u8 {
        match self {
            ControlCode::FALSE => 0,
            ControlCode::LESS_THAN => 1,
            ControlCode::EQUAL => 2,
            ControlCode::LESS_OR_EQUAL => 3,
            ControlCode::GREATER_THAN => 4,
            ControlCode::NOT_EQUAL => 5,
            ControlCode::GREATER_OR_EQUAL => 6,
            ControlCode::IS_NUMBER => 7,
            ControlCode::IS_NAN => 8,
            ControlCode::LESS_THAN_OR_NAN => 9,
            ControlCode::EQUAL_OR_NAN => 10,
            ControlCode::LESS_OR_EQUAL_OR_NAN => 11,
            ControlCode::GREATER_THAN_OR_NAN => 12,
            ControlCode::NOT_EQUAL_OR_NAN => 13,
            ControlCode::GREATER_OR_EQUAL_OR_NAN => 14,
            ControlCode::TRUE => 15,
            ControlCode::Raw(v) => v,
        }
    }

    /// Whether the condition is a member of the domain: a `Raw` value must
    /// lie between 16 and 31.
    pub open spec fn spec_is_valid(self) -> bool {
        self matches ControlCode::Raw(v) ==> 16 <= v <= 31
    }

    #[verifier::when_used_as_spec(spec_raw)]
    pub fn raw(self) -> (r: u8)
        ensures
            r == self.spec_raw(),
    {
        match self {
            ControlCode::FALSE => 0,
            ControlCode::LESS_THAN => 1,
            ControlCode::EQUAL => 2,
            ControlCode::LESS_OR_EQUAL => 3,
            ControlCode::GREATER_THAN => 4,
            ControlCode::NOT_EQUAL => 5,
            ControlCode::GREATER_OR_EQUAL => 6,
            ControlCode::IS_NUMBER => 7,
            ControlCode::IS_NAN => 8,
            ControlCode::LESS_THAN_OR_NAN => 9,
            ControlCode::EQUAL_OR_NAN => 10,
            ControlCode::LESS_OR_EQUAL_OR_NAN => 11,
            ControlCode::GREATER_THAN_OR_NAN => 12,
            ControlCode::NOT_EQUAL_OR_NAN => 13,
            ControlCode::GREATER_OR_EQUAL_OR_NAN => 14,
            ControlCode::TRUE => 15,
            ControlCode::Raw(v) => v,
        }
    }

    #[verifier::when_used_as_spec(spec_is_valid)]
    pub fn is_valid(self) -> (r: bool)
        ensures
            r == self.spec_is_valid(),
    {
        match self {
            ControlCode::Raw(v) => 16 <= v && v <= 31,
            _ => true,
        }
    }

    /// The condition that `value` encodes, if it lies in 0 to 31.
    pub fn from_raw(value: u8) -> (r: Option<Self>)
        ensures
            r matches Some(c) ==> c.is_valid() && c.raw() == value,
            r is None <==> value > 31,
    {
        match value {
            0 => Some(ControlCode::FALSE),
            1 => Some(ControlCode::LESS_THAN),
            2 => Some(ControlCode::EQUAL),
            3 => Some(ControlCode::LESS_OR_EQUAL),
            4 => Some(ControlCode::GREATER_THAN),
            5 => Some(ControlCode::NOT_EQUAL),
            6 => Some(ControlCode::GREATER_OR_EQUAL),
            7 => Some(ControlCode::IS_NUMBER),
            8 => Some(ControlCode::IS_NAN),
            9 => Some(ControlCode::LESS_THAN_OR_NAN),
            10 => Some(ControlCode::EQUAL_OR_NAN),
            11 => Some(ControlCode::LESS_OR_EQUAL_OR_NAN),
            12 => Some(ControlCode::GREATER_THAN_OR_NAN),
            13 => Some(ControlCode::NOT_EQUAL_OR_NAN),
            14 => Some(ControlCode::GREATER_OR_EQUAL_OR_NAN),
            15 => Some(ControlCode::TRUE),
            _ => {
                if value <= 31 {
                    Some(ControlCode::Raw(value))
                } else {
                    None
                }
            },
        }
    }

    /// Distinct valid conditions have distinct values, so `from_raw(c.raw())`
    /// is `Some(c)` for every valid `c`.
    pub proof fn lemma_raw_injective(a: Self, b: Self)
        requires
            a.is_valid(),
            b.is_valid(),
            a.raw() == b.raw(),
        ensures
            a == b,
    {
    }
}

/// The data width of an attribute load or store.
#[allow(non_camel_case_types)]
#[derive(Clone, Copy, Debug, PartialEq, Eq, Structural)]
pub enum AttributeLoadMode {
    /// 32 bits.
    M32,
    /// 64 bits.
    M64,
    /// 96 bits.
    M96,
    /// 128 bits.
    M128,
}

impl AttributeLoadMode {
    /// The value that encodes this member.
    pub open spec fn spec_raw(self) -> u8 {
        match self {
            AttributeLoadMode::M32 => 0,
            AttributeLoadMode::M64 => 1,
            AttributeLoadMode::M96 => 2,
            AttributeLoadMode::M128 => 3,
        }
    }

    #[verifier::when_used_as_spec(spec_raw)]
    pub fn raw(self) -> (r: u8)
        ensures
            r == self.spec_raw(),
    {
        match self {
            AttributeLoadMode::M32 => 0,
            AttributeLoadMode::M64 => 1,
            AttributeLoadMode::M96 => 2,
            AttributeLoadMode::M128 => 3,
        }
    }

    /// The member that `value` encodes, if any.
    pub fn from_raw(value: u8) -> (r: Option<Self>)
        ensures
            r matches Some(m) ==> m.raw() == value,
            r is None ==> forall|m: Self| m.raw() != value,
    {
        match value {
            0 => Some(AttributeLoadMode::M32),
            1 => Some(AttributeLoadMode::M64),
            2 => Some(AttributeLoadMode::M96),
            3 => Some(AttributeLoadMode::M128),
            _ => None,
        }
    }

    /// Distinct members have distinct values, so `from_raw(m.raw())` is `Some(m)`.
    pub proof fn lemma_raw_injective(a: Self, b: Self)
        requires
            a.raw() == b.raw(),
        ensures
            a == b,
    {
    }
}

/// The data type of an ATOMS operation.
#[allow(non_camel_case_types)]
#[derive(Clone, Copy, Debug, PartialEq, Eq, Structural)]
pub enum AtomsPrimitiveType {
    U32,
    S32,
    U64,
    S64,
}

impl AtomsPrimitiveType {
    /// The value that encodes this member.
    pub open spec fn spec_raw(self) -> u8 {
        match self {
            AtomsPrimitiveType::U32 => 0,
            AtomsPrimitiveType::S32 => 1,
            AtomsPrimitiveType::U64 => 2,
            AtomsPrimitiveType::S64 => 3,
        }
    }

    #[verifier::when_used_as_spec(spec_raw)]
    pub fn raw(self) -> (r: u8)
        ensures
            r == self.spec_raw(),
    {
        match self {
            AtomsPrimitiveType::U32 => 0,
            AtomsPrimitiveType::S32 => 1,
            AtomsPrimitiveType::U64 => 2,
            AtomsPrimitiveType::S64 => 3,
        }
    }

    /// The member that `value` encodes, if any.
    pub fn from_raw(value: u8) -> (r: Option<Self>)
        ensures
            r matches Some(m) ==> m.raw() == value,
            r is None ==> forall|m: Self| m.raw() != value,
    {
        match value {
            0 => Some(AtomsPrimitiveType::U32),
            1 => Some(AtomsPrimitiveType::S32),
            2 => Some(AtomsPrimitiveType::U64),
            3 => Some(AtomsPrimitiveType::S64),
            _ => None,
        }
    }

    /// Distinct members have distinct values, so `from_raw(m.raw())` is `Some(m)`.
    pub proof fn lemma_raw_injective(a: Self, b: Self)
        requires
            a.raw() == b.raw(),
        ensures
            a == b,
    {
    }
}

/// The data type of an ATOM operation.
#[allow(non_camel_case_types)]
#[derive(Clone, Copy, Debug, PartialEq, Eq, Structural)]
pub enum AtomPrimitiveType {
    U32,
    S32,
    U64,
    F32,
}

impl AtomPrimitiveType {
    /// The value that encodes this member.
    pub open spec fn spec_raw(self) -> u8 {
        match self {
            AtomPrimitiveType::U32 => 0,
            AtomPrimitiveType::S32 => 1,
            AtomPrimitiveType::U64 => 2,
            AtomPrimitiveType::F32 => 3,
        }
    }

    #[verifier::when_used_as_spec(spec_raw)]
    pub fn raw(self) -> (r: u8)
        ensures
            r == self.spec_raw(),
    {
        match self {
            AtomPrimitiveType::U32 => 0,
            AtomPrimitiveType::S32 => 1,
            AtomPrimitiveType::U64 => 2,
            AtomPrimitiveType::F32 => 3,
        }
    }

    /// The member that `value` encodes, if any.
    pub fn from_raw(value: u8) -> (r: Option<Self>)
        ensures
            r matches Some(m) ==> m.raw() == value,
            r is None ==> forall|m: Self| m.raw() != value,
    {
        match value {
            0 => Some(AtomPrimitiveType::U32),
            1 => Some(AtomPrimitiveType::S32),
            2 => Some(AtomPrimitiveType::U64),
            3 => Some(AtomPrimitiveType::F32),
            _ => None,
        }
    }

    /// Distinct members have distinct values, so `from_raw(m.raw())` is `Some(m)`.
    pub proof fn lemma_raw_injective(a: Self, b: Self)
        requires
            a.raw() == b.raw(),
        ensures
            a == b,
    {
    }
}

/// The operation of ATOMS.
#[allow(non_camel_case_types)]
#[derive(Clone, Copy, Debug, PartialEq, Eq, Structural)]
pub enum AtomsOperation {
    ADD,
    MIN,
    MAX,
    INC,
    DEC,
    AND,
    OR,
    XOR,
    EXCH,
}

impl AtomsOperation {
    /// The value that encodes this member.
    pub open spec fn spec_raw(self) -> u8 {
        match self {
            AtomsOperation::ADD => 0,
            AtomsOperation::MIN => 1,
            AtomsOperation::MAX => 2,
            AtomsOperation::INC => 3,
            AtomsOperation::DEC => 4,
            AtomsOperation::AND => 5,
            AtomsOperation::OR => 6,
            AtomsOperation::XOR => 7,
            AtomsOperation::EXCH => 8,
        }
    }

    #[verifier::when_used_as_spec(spec_raw)]
    pub fn raw(self) -> (r: u8)
        ensures
            r == self.spec_raw(),
    {
        match self {
            AtomsOperation::ADD => 0,
            AtomsOperation::MIN => 1,
            AtomsOperation::MAX => 2,
            AtomsOperation::INC => 3,
            AtomsOperation::DEC => 4,
            AtomsOperation::AND => 5,
            AtomsOperation::OR => 6,
            AtomsOperation::XOR => 7,
            AtomsOperation::EXCH => 8,
        }
    }

    /// The member that `value` encodes, if any.
    pub fn from_raw(value: u8) -> (r: Option<Self>)
        ensures
            r matches Some(m) ==> m.raw() == value,
            r is None ==> forall|m: Self| m.raw() != value,
    {
        match value {
            0 => Some(AtomsOperation::ADD),
            1 => Some(AtomsOperation::MIN),
            2 => Some(AtomsOperation::MAX),
            3 => Some(AtomsOperation::INC),
            4 => Some(AtomsOperation::DEC),
            5 => Some(AtomsOperation::AND),
            6 => Some(AtomsOperation::OR),
            7 => Some(AtomsOperation::XOR),
            8 => Some(AtomsOperation::EXCH),
            _ => None,
        }
    }

    /// Distinct members have distinct values, so `from_raw(m.raw())` is `Some(m)`.
    pub proof fn lemma_raw_injective(a: Self, b: Self)
        requires
            a.raw() == b.raw(),
        ensures
            a == b,
    {
    }
}

/// The operation of ATOM.
#[allow(non_camel_case_types)]
#[derive(Clone, Copy, Debug, PartialEq, Eq, Structural)]
pub enum AtomOperation {
    ADD,
    MIN,
    MAX,
    INC,
    DEC,
    AND,
    OR,
    XOR,
    EXCH,
    /// Only ATOM has it.
    SAFE_ADD,
}

impl AtomOperation {
    /// The value that encodes this member.
    pub open spec fn spec_raw(self) -> u8 {
        match self {
            AtomOperation::ADD => 0,
            AtomOperation::MIN => 1,
            AtomOperation::MAX => 2,
            AtomOperation::INC => 3,
            AtomOperation::DEC => 4,
            AtomOperation::AND => 5,
            AtomOperation::OR => 6,
            AtomOperation::XOR => 7,
            AtomOperation::EXCH => 8,
            AtomOperation::SAFE_ADD => 10,
        }
    }

    #[verifier::when_used_as_spec(spec_raw)]
    pub fn raw(self) -> (r: u8)
        ensures
            r == self.spec_raw(),
    {
        match self {
            AtomOperation::ADD => 0,
            AtomOperation::MIN => 1,
            AtomOperation::MAX => 2,
            AtomOperation::INC => 3,
            AtomOperation::DEC => 4,
            AtomOperation::AND => 5,
            AtomOperation::OR => 6,
            AtomOperation::XOR => 7,
            AtomOperation::EXCH => 8,
            AtomOperation::SAFE_ADD => 10,
        }
    }

    /// The member that `value` encodes, if any.
    pub fn from_raw(value: u8) -> (r: Option<Self>)
        ensures
            r matches Some(m) ==> m.raw() == value,
            r is None ==> forall|m: Self| m.raw() != value,
    {
        match value {
            0 => Some(AtomOperation::ADD),
            1 => Some(AtomOperation::MIN),
            2 => Some(AtomOperation::MAX),
            3 => Some(AtomOperation::INC),
            4 => Some(AtomOperation::DEC),
            5 => Some(AtomOperation::AND),
            6 => Some(AtomOperation::OR),
            7 => Some(AtomOperation::XOR),
            8 => Some(AtomOperation::EXCH),
            10 => Some(AtomOperation::SAFE_ADD),
            _ => None,
        }
    }

    /// Distinct members have distinct values, so `from_raw(m.raw())` is `Some(m)`.
    pub proof fn lemma_raw_injective(a: Self, b: Self)
        requires
            a.raw() == b.raw(),
        ensures
            a == b,
    {
    }
}

/// The data type of ATOM_CAS and ATOMS_CAS.
#[allow(non_camel_case_types)]
#[derive(Clone, Copy, Debug, PartialEq, Eq, Structural)]
pub enum AtomicCasPrimitiveType {
    U32,
    U64,
}

impl AtomicCasPrimitiveType {
    /// The value that encodes this member.
    pub open spec fn spec_raw(self) -> u8 {
        match self {
            AtomicCasPrimitiveType::U32 => 0,
            AtomicCasPrimitiveType::U64 => 1,
        }
    }

    #[verifier::when_used_as_spec(spec_raw)]
    pub fn raw(self) -> (r: u8)
        ensures
            r == self.spec_raw(),
    {
        match self {
            AtomicCasPrimitiveType::U32 => 0,
            AtomicCasPrimitiveType::U64 => 1,
        }
    }

    /// The member that `value` encodes, if any.
    pub fn from_raw(value: u8) -> (r: Option<Self>)
        ensures
            r matches Some(m) ==> m.raw() == value,
            r is None ==> forall|m: Self| m.raw() != value,
    {
        match value {
            0 => Some(AtomicCasPrimitiveType::U32),
            1 => Some(AtomicCasPrimitiveType::U64),
            _ => None,
        }
    }

    /// Distinct members have distinct values, so `from_raw(m.raw())` is `Some(m)`.
    pub proof fn lemma_raw_injective(a: Self, b: Self)
        requires
            a.raw() == b.raw(),
        ensures
            a == b,
    {
    }
}

/// The operation of ATOMS_CAS.
#[allow(non_camel_case_types)]
#[derive(Clone, Copy, Debug, PartialEq, Eq, Structural)]
pub enum AtomsCasOperation {
    CAST,
    CAST_SPIN,
    CAS,
}

impl AtomsCasOperation {
    /// The value that encodes this member.
    pub open spec fn spec_raw(self) -> u8 {
        match self {
            AtomsCasOperation::CAST => 0,
            AtomsCasOperation::CAST_SPIN => 1,
            AtomsCasOperation::CAS => 2,
        }
    }

    #[verifier::when_used_as_spec(spec_raw)]
    pub fn raw(self) -> (r: u8)
        ensures
            r == self.spec_raw(),
    {
        match self {
            AtomsCasOperation::CAST => 0,
            AtomsCasOperation::CAST_SPIN => 1,
            AtomsCasOperation::CAS => 2,
        }
    }

    /// The member that `value` encodes, if any.
    pub fn from_raw(value: u8) -> (r: Option<Self>)
        ensures
            r matches Some(m) ==> m.raw() == value,
            r is None ==> forall|m: Self| m.raw() != value,
    {
        match value {
            0 => Some(AtomsCasOperation::CAST),
            1 => Some(AtomsCasOperation::CAST_SPIN),
            2 => Some(AtomsCasOperation::CAS),
            _ => None,
        }
    }

    /// Distinct members have distinct values, so `from_raw(m.raw())` is `Some(m)`.
    pub proof fn lemma_raw_injective(a: Self, b: Self)
        requires
            a.raw() == b.raw(),
        ensures
            a == b,
    {
    }
}

} // verus!
