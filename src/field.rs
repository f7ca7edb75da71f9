//! The named fields of an instruction word, and packing values into them.

use vstd::prelude::*;
use vstd::arithmetic::power2::pow2;
use crate::bits::{
    bit, bits_at, get_bits, get_signed_bits, lemma_bits_outside, lemma_low_mask_value,
    lemma_read_other, lemma_read_written, lemma_sign_extend_range, lemma_signed_kept,
    lemma_unsigned_kept, lemma_upper_half, lemma_write_keeps, low_mask, put_bits, sign_extend,
    with_bits,
};
use crate::error::AsmError;

verus! {

/// A bit range of an instruction word with a fixed meaning.
///
/// Fields of different instruction kinds may share bits. Within one kind the
/// operand fields never overlap one another; those above bit 31 lie inside
/// the opcode field and are written over bits where the kind's tag is zero
/// (the ATOMS_CAS operation, which holds tag bit 54, accepts only CAS, whose
/// value sets that bit).
#[allow(non_camel_case_types)]
#[derive(Clone, Copy, Debug, PartialEq, Eq, Structural)]
pub enum Field {
    /// Bits 63..32: the opcode tag.
    Opcode,
    /// Bits 7..0: the first 8-bit register slot.
    Operand0,
    /// Bits 15..8: the second 8-bit register slot.
    Operand1,
    /// Bits 27..20: the third 8-bit register slot.
    Operand2,
    /// Bits 46..39: the fourth 8-bit register slot.
    Operand3,
    /// Bits 35..20: a 16-bit immediate.
    Imm16,
    /// Bits 18..16: the guarding predicate register.
    Predicate,
    /// Bit 19: inverts the guarding predicate.
    PredicateInvert,
    /// Bits 4..0: the condition code of RET, EXIT and KIL.
    ConditionCode,
    /// Bits 12..8: the condition code of NOP.
    NopConditionCode,
    /// Bit 13: the trigger flag of NOP.
    NopTrigger,
    /// Bit 5: the keep-refcount flag of EXIT.
    KeepRefcount,
    /// Bit 5: the disable flag of IDE.
    IdeDisable,
    /// Bits 30..20, signed: the attribute offset of AL2P, ALD and AST.
    LoadOffset,
    /// Bit 31: the no-physical flag of ALD and AST.
    NoPhysical,
    /// Bit 32: the output flag of AL2P and ALD.
    OFlag,
    /// Bits 46..44: the destination predicate register of AL2P.
    DestinationPredicate,
    /// Bits 48..47: the attribute load mode.
    AttributeMode,
    /// Bits 29..28: the primitive type of ATOMS.
    AtomsType,
    /// Bits 51..30, signed: the offset of ATOMS and ATOMS_CAS, in 4-byte units.
    AtomsOffset,
    /// Bits 55..52: the operation of ATOM and ATOMS.
    AtomicOperation,
    /// Bit 52: the primitive type of ATOMS_CAS.
    AtomsCasType,
    /// Bits 54..53: the operation of ATOMS_CAS.
    AtomsCasOperation,
    /// Bits 47..28, signed: the byte offset of ATOM and ATOM_CAS.
    AtomOffset,
    /// Bit 48: the E flag of ATOM and ATOM_CAS.
    AtomEFlag,
    /// Bits 51..49: the primitive type of ATOM.
    AtomType,
    /// Bit 49: the primitive type of ATOM_CAS.
    AtomCasType,
}

impl Field {
    /// The highest bit of the field.
    pub open spec fn spec_hi(self) -> u64 {
        match self {
            Field::Opcode => 63,
            Field::Operand0 => 7,
            Field::Operand1 => 15,
            Field::Operand2 => 27,
            Field::Operand3 => 46,
            Field::Imm16 => 35,
            Field::Predicate => 18,
            Field::PredicateInvert => 19,
            Field::ConditionCode => 4,
            Field::NopConditionCode => 12,
            Field::NopTrigger => 13,
            Field::KeepRefcount => 5,
            Field::IdeDisable => 5,
            Field::LoadOffset => 30,
            Field::NoPhysical => 31,
            Field::OFlag => 32,
            Field::DestinationPredicate => 46,
            Field::AttributeMode => 48,
            Field::AtomsType => 29,
            Field::AtomsOffset => 51,
            Field::AtomicOperation => 55,
            Field::AtomsCasType => 52,
            Field::AtomsCasOperation => 54,
            Field::AtomOffset => 47,
            Field::AtomEFlag => 48,
            Field::AtomType => 51,
            Field::AtomCasType => 49,
        }
    }

    /// The lowest bit of the field.
    pub open spec fn spec_lo(self) -> u64 {
        match self {
            Field::Opcode => 32,
            Field::Operand0 => 0,
            Field::Operand1 => 8,
            Field::Operand2 => 20,
            Field::Operand3 => 39,
            Field::Imm16 => 20,
            Field::Predicate => 16,
            Field::PredicateInvert => 19,
            Field::ConditionCode => 0,
            Field::NopConditionCode => 8,
            Field::NopTrigger => 13,
            Field::KeepRefcount => 5,
            Field::IdeDisable => 5,
            Field::LoadOffset => 20,
            Field::NoPhysical => 31,
            Field::OFlag => 32,
            Field::DestinationPredicate => 44,
            Field::AttributeMode => 47,
            Field::AtomsType => 28,
            Field::AtomsOffset => 30,
            Field::AtomicOperation => 52,
            Field::AtomsCasType => 52,
            Field::AtomsCasOperation => 53,
            Field::AtomOffset => 28,
            Field::AtomEFlag => 48,
            Field::AtomType => 49,
            Field::AtomCasType => 49,
        }
    }

    /// Whether the field holds a two's-complement signed value.
    pub open spec fn spec_signed(self) -> bool {
        self is LoadOffset || self is AtomsOffset || self is AtomOffset
    }

    /// The number of bits of the field.
    pub open spec fn width(self) -> u64 {
        (self.spec_hi() - self.spec_lo() + 1) as u64
    }

    #[verifier::when_used_as_spec(spec_hi)]
    pub fn hi(self) -> (r: u64)
        ensures
            r == self.spec_hi(),
    {
        match self {
            Field::Opcode => 63,
            Field::Operand0 => 7,
            Field::Operand1 => 15,
            Field::Operand2 => 27,
            Field::Operand3 => 46,
            Field::Imm16 => 35,
            Field::Predicate => 18,
            Field::PredicateInvert => 19,
            Field::ConditionCode => 4,
            Field::NopConditionCode => 12,
            Field::NopTrigger => 13,
            Field::KeepRefcount => 5,
            Field::IdeDisable => 5,
            Field::LoadOffset => 30,
            Field::NoPhysical => 31,
            Field::OFlag => 32,
            Field::DestinationPredicate => 46,
            Field::AttributeMode => 48,
            Field::AtomsType => 29,
            Field::AtomsOffset => 51,
            Field::AtomicOperation => 55,
            Field::AtomsCasType => 52,
            Field::AtomsCasOperation => 54,
            Field::AtomOffset => 47,
            Field::AtomEFlag => 48,
            Field::AtomType => 51,
            Field::AtomCasType => 49,
        }
    }

    #[verifier::when_used_as_spec(spec_lo)]
    pub fn lo(self) -> (r: u64)
        ensures
            r == self.spec_lo(),
    {
        match self {
            Field::Opcode => 32,
            Field::Operand0 => 0,
            Field::Operand1 => 8,
            Field::Operand2 => 20,
            Field::Operand3 => 39,
            Field::Imm16 => 20,
            Field::Predicate => 16,
            Field::PredicateInvert => 19,
            Field::ConditionCode => 0,
            Field::NopConditionCode => 8,
            Field::NopTrigger => 13,
            Field::KeepRefcount => 5,
            Field::IdeDisable => 5,
            Field::LoadOffset => 20,
            Field::NoPhysical => 31,
            Field::OFlag => 32,
            Field::DestinationPredicate => 44,
            Field::AttributeMode => 47,
            Field::AtomsType => 28,
            Field::AtomsOffset => 30,
            Field::AtomicOperation => 52,
            Field::AtomsCasType => 52,
            Field::AtomsCasOperation => 53,
            Field::AtomOffset => 28,
            Field::AtomEFlag => 48,
            Field::AtomType => 49,
            Field::AtomCasType => 49,
        }
    }

    #[verifier::when_used_as_spec(spec_signed)]
    pub fn signed(self) -> (r: bool)
        ensures
            r == self.spec_signed(),
    {
        match self {
            Field::LoadOffset | Field::AtomsOffset | Field::AtomOffset => true,
            _ => false,
        }
    }
}

/// Every field lies inside the word and is at most 32 bits wide.
pub proof fn lemma_field_bounds(f: Field)
    ensures
        f.lo() <= f.hi() < 64,
        1 <= f.width() <= 32,
        f.lo() + f.width() <= 64,
{
}

/// Whether `v` can be stored in `f`: `0 <= v < 2^w` for an unsigned field of
/// `w` bits, `-2^(w-1) <= v < 2^(w-1)` for a signed one.
pub open spec fn fits(f: Field, v: i64) -> bool {
    if f.signed() {
        -pow2((f.width() - 1) as nat) <= v < pow2((f.width() - 1) as nat)
    } else {
        0 <= v < pow2(f.width() as nat)
    }
}

/// `w` with `v`, truncated to the width of `f`, written into `f`.
pub open spec fn with_value(w: u64, f: Field, v: i64) -> u64 {
    with_bits(w, f.lo(), f.width(), v as u64)
}

/// The value that `f` holds in `w`, sign-extended for a signed field.
pub open spec fn value_in(w: u64, f: Field) -> i64 {
    if f.signed() {
        sign_extend(bits_at(w, f.lo(), f.width()), f.width())
    } else {
        bits_at(w, f.lo(), f.width()) as i64
    }
}

/// Writes `value` into `field` of `word`; fails, and writes nothing, where the
/// value does not fit the field.
pub fn pack(word: u64, field: Field, value: i64) -> (r: Result<u64, AsmError>)
    ensures
        fits(field, value) ==> r == Ok::<u64, AsmError>(with_value(word, field, value)),
        !fits(field, value) ==> r == Err::<u64, AsmError>(AsmError::OutOfRange(field, value)),
{
    proof {
        lemma_field_bounds(field);
        vstd::arithmetic::power2::lemma2_to64();
    }
    let lo = field.lo();
    let n = field.hi() - lo + 1;
    let ok = if field.signed() {
        let half: u64 = 1u64 << (n - 1);
        proof {
            vstd::bits::lemma_u64_pow2_no_overflow((n - 1) as nat);
            vstd::bits::lemma_u64_shl_is_mul(1, (n - 1) as u64);
            vstd::arithmetic::power2::lemma_pow2_strictly_increases((n - 1) as nat, 32);
        }
        let half = half as i64;
        -half <= value && value < half
    } else {
        let limit: u64 = 1u64 << n;
        proof {
            vstd::bits::lemma_u64_pow2_no_overflow(n as nat);
            vstd::bits::lemma_u64_shl_is_mul(1, n);
        }
        0 <= value && (value as u64) < limit
    };
    if ok {
        Ok(put_bits(word, lo, n, value as u64))
    } else {
        Err(AsmError::OutOfRange(field, value))
    }
}

/// Reads the value that `field` holds in `word`.
pub fn unpack(word: u64, field: Field) -> (r: i64)
    ensures
        r == value_in(word, field),
        fits(field, r),
{
    proof {
        lemma_field_bounds(field);
    }
    let lo = field.lo();
    let n = field.hi() - lo + 1;
    if field.signed() {
        let r = get_signed_bits(word, lo, n);
        proof {
            let m = low_mask(n);
            assert((word >> lo) & m <= m) by (bit_vector);
            lemma_sign_extend_range(bits_at(word, lo, n), n);
        }
        r
    } else {
        let u = get_bits(word, lo, n);
        proof {
            lemma_low_mask_value(n);
            vstd::arithmetic::power2::lemma2_to64();
            if n < 32 {
                vstd::arithmetic::power2::lemma_pow2_strictly_increases(n as nat, 32);
            }
            let m = low_mask(n);
            assert((word >> lo) & m <= m) by (bit_vector);
        }
        u as i64
    }
}

/// A value that fits its field reads back unchanged after it is written.
pub proof fn lemma_value_round_trip(w: u64, f: Field, v: i64)
    requires
        fits(f, v),
    ensures
        value_in(with_value(w, f, v), f) == v,
{
    lemma_field_bounds(f);
    let n = f.width();
    lemma_read_written(w, f.lo(), n, v as u64);
    if f.signed() {
        lemma_signed_kept(v, n);
    } else {
        vstd::arithmetic::power2::lemma2_to64();
        vstd::arithmetic::power2::lemma_pow2_strictly_increases(n as nat, 63);
        lemma_unsigned_kept(v as u64, n);
    }
}

/// Packing a field never disturbs the bits outside `[hi, lo]`.
pub proof fn lemma_pack_isolation(w: u64, f: Field, v: i64, i: u64)
    requires
        i < 64,
        i < f.lo() || f.hi() < i,
    ensures
        bit(with_value(w, f, v), i) == bit(w, i),
{
    lemma_field_bounds(f);
    lemma_bits_outside(w, f.lo(), f.width(), v as u64, i);
}

/// The word built from zero by writing each `(field, value)` entry in turn.
pub open spec fn packed(entries: Seq<(Field, i64)>) -> u64
    decreases entries.len(),
{
    if entries.len() == 0 {
        0
    } else {
        let (f, v) = entries.last();
        with_value(packed(entries.drop_last()), f, v)
    }
}

/// The first entry whose value does not fit its field, if any.
pub open spec fn first_misfit(entries: Seq<(Field, i64)>) -> Option<(Field, i64)>
    decreases entries.len(),
{
    if entries.len() == 0 {
        None
    } else if !fits(entries[0].0, entries[0].1) {
        Some(entries[0])
    } else {
        first_misfit(entries.drop_first())
    }
}

/// Encoding a table of entries: the packed word where every value fits, else
/// the error for the first value that does not.
pub open spec fn packing(entries: Seq<(Field, i64)>) -> Result<u64, AsmError> {
    match first_misfit(entries) {
        Some((f, v)) => Err(AsmError::OutOfRange(f, v)),
        None => Ok(packed(entries)),
    }
}

/// Whether the fields of the entries are listed from the lowest bits up,
/// each one ending below the next one's first bit.
pub open spec fn ascending(entries: Seq<(Field, i64)>) -> bool
    decreases entries.len(),
{
    entries.len() <= 1 || (entries[0].0.hi() < entries[1].0.lo() && ascending(
        entries.drop_first(),
    ))
}

/// Whether each entry ends below the first bit of every later entry, so
/// that no two entries share a bit.
pub open spec fn disjoint(entries: Seq<(Field, i64)>) -> bool {
    forall|i: int, j: int|
        0 <= i < j < entries.len() ==> #[trigger] entries[i].0.hi() < #[trigger] entries[j].0.lo()
}

proof fn lemma_first_misfit_at(entries: Seq<(Field, i64)>, i: int)
    requires
        0 <= i < entries.len(),
        forall|j: int| 0 <= j < i ==> fits(#[trigger] entries[j].0, entries[j].1),
        !fits(entries[i].0, entries[i].1),
    ensures
        first_misfit(entries) == Some(entries[i]),
    decreases i,
{
    if i > 0 {
        let rest = entries.drop_first();
        assert forall|j: int| 0 <= j < i - 1 implies fits(#[trigger] rest[j].0, rest[j].1) by {
            assert(rest[j] == entries[j + 1]);
        }
        lemma_first_misfit_at(rest, i - 1);
    }
}

proof fn lemma_no_misfit(entries: Seq<(Field, i64)>)
    requires
        forall|j: int| 0 <= j < entries.len() ==> fits(#[trigger] entries[j].0, entries[j].1),
    ensures
        first_misfit(entries) is None,
    decreases entries.len(),
{
    if entries.len() > 0 {
        let rest = entries.drop_first();
        assert forall|j: int| 0 <= j < rest.len() implies fits(#[trigger] rest[j].0, rest[j].1) by {
            assert(rest[j] == entries[j + 1]);
        }
        lemma_no_misfit(rest);
    }
}

/// Where no entry is out of range, every entry fits its field.
pub proof fn lemma_all_fit(entries: Seq<(Field, i64)>)
    requires
        first_misfit(entries) is None,
    ensures
        forall|j: int| 0 <= j < entries.len() ==> fits(#[trigger] entries[j].0, entries[j].1),
    decreases entries.len(),
{
    if entries.len() > 0 {
        let rest = entries.drop_first();
        lemma_all_fit(rest);
        assert forall|j: int| 0 <= j < entries.len() implies fits(
            #[trigger] entries[j].0,
            entries[j].1,
        ) by {
            if j > 0 {
                assert(entries[j] == rest[j - 1]);
            }
        }
    }
}

/// Fields listed from the lowest bits up share no bit.
pub proof fn lemma_ascending_disjoint(entries: Seq<(Field, i64)>)
    requires
        ascending(entries),
    ensures
        disjoint(entries),
    decreases entries.len(),
{
    if entries.len() > 1 {
        let rest = entries.drop_first();
        lemma_ascending_disjoint(rest);
        assert forall|i: int, j: int|
            0 <= i < j < entries.len() implies #[trigger] entries[i].0.hi()
            < #[trigger] entries[j].0.lo() by {
            lemma_field_bounds(entries[1].0);
            lemma_field_bounds(entries[j].0);
            if i > 0 {
                assert(entries[i] == rest[i - 1] && entries[j] == rest[j - 1]);
            } else if j > 1 {
                assert(entries[1] == rest[0] && entries[j] == rest[j - 1]);
                assert(rest[0].0.hi() < rest[j - 1].0.lo());
            }
        }
    }
}

/// Writes each `(field, value)` entry in turn into a zero word; fails on the
/// first value that does not fit its field.
pub fn pack_all(entries: &Vec<(Field, i64)>) -> (r: Result<u64, AsmError>)
    ensures
        r == packing(entries@),
{
    let mut word: u64 = 0;
    let mut i: usize = 0;
    while i < entries.len()
        invariant
            i <= entries@.len(),
            word == packed(entries@.take(i as int)),
            forall|j: int| 0 <= j < i ==> fits(#[trigger] entries@[j].0, entries@[j].1),
        decreases entries@.len() - i,
    {
        let (f, v) = entries[i];
        match pack(word, f, v) {
            Ok(w) => {
                assert(entries@.take(i + 1).drop_last() =~= entries@.take(i as int));
                word = w;
                i = i + 1;
            },
            Err(e) => {
                proof {
                    lemma_first_misfit_at(entries@, i as int);
                }
                return Err(e);
            },
        }
    }
    proof {
        lemma_no_misfit(entries@);
        assert(entries@.take(i as int) =~= entries@);
    }
    Ok(word)
}

/// In a word packed from entries that fit, a field that no later entry
/// overlaps reads back the value that was written into it.
pub proof fn lemma_read_back(entries: Seq<(Field, i64)>, k: int)
    requires
        forall|j: int| 0 <= j < entries.len() ==> fits(#[trigger] entries[j].0, entries[j].1),
        0 <= k < entries.len(),
        forall|j: int|
            k < j < entries.len() ==> entries[k].0.hi() < (#[trigger] entries[j].0).lo(),
    ensures
        value_in(packed(entries), entries[k].0) == entries[k].1,
    decreases entries.len(),
{
    let last = entries.len() - 1;
    let (f, v) = entries.last();
    let before = entries.drop_last();
    if k == last {
        lemma_value_round_trip(packed(before), f, v);
    } else {
        assert(before[k] == entries[k]);
        assert forall|j: int|
            0 <= j < before.len() implies fits(#[trigger] before[j].0, before[j].1) by {
            assert(before[j] == entries[j]);
        }
        assert forall|j: int| k < j < before.len() implies before[k].0.hi() < (
        #[trigger] before[j].0).lo() by {
            assert(before[j] == entries[j]);
        }
        lemma_read_back(before, k);
        let g = entries[k].0;
        assert(entries[last] == (f, v));
        lemma_field_bounds(f);
        lemma_field_bounds(g);
        lemma_read_other(packed(before), f.lo(), f.width(), v as u64, g.lo(), g.width());
    }
}

/// Whether writing `v` into `f` sets every bit that `t` has inside `f`.
pub open spec fn covers(f: Field, v: i64, t: u64) -> bool {
    (((v as u64) & low_mask(f.width())) << f.lo()) & t == (low_mask(f.width()) << f.lo()) & t
}

/// A table that starts with a 32-bit tag, and whose later entries each set
/// every bit of the tag that lies in their field, packs to a word that holds
/// every bit of the tag.
pub proof fn lemma_packed_keeps(entries: Seq<(Field, i64)>, x: u32)
    requires
        entries.len() >= 1,
        entries[0] == (Field::Opcode, x as i64),
        forall|k: int|
            1 <= k < entries.len() ==> covers(
                #[trigger] entries[k].0,
                entries[k].1,
                (x as u64) << 32,
            ),
    ensures
        packed(entries) & ((x as u64) << 32) == (x as u64) << 32,
    decreases entries.len(),
{
    let before = entries.drop_last();
    let (f, v) = entries.last();
    if entries.len() == 1 {
        assert(packed(before) == 0);
        assert(f == Field::Opcode && v == x as i64);
        assert((x as i64) as u64 == x as u64);
        lemma_upper_half(x);
    } else {
        assert(before[0] == entries[0]);
        assert forall|k: int| 1 <= k < before.len() implies covers(
            #[trigger] before[k].0,
            before[k].1,
            (x as u64) << 32,
        ) by {
            assert(before[k] == entries[k]);
        }
        lemma_packed_keeps(before, x);
        let last = entries.len() - 1;
        assert(covers(entries[last].0, entries[last].1, (x as u64) << 32));
        lemma_field_bounds(f);
        lemma_write_keeps(packed(before), f.lo(), f.width(), v as u64, (x as u64) << 32);
    }
}

} // verus!
