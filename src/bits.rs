//! Bit ranges of a 64-bit instruction word.
//!
//! A range is given by its lowest bit `lo` and its width `n`; the word is read
//! and written through the `BitRange` impls of the `bitfield` crate.

use vstd::prelude::*;
use vstd::arithmetic::power2::pow2;
use bitfield::BitRange;

verus! {

/// The value whose low `n` bits are set.
pub open spec fn low_mask(n: u64) -> u64 {
    (!0u64) >> ((64 - n) as u64)
}

/// Bits `lo ..= lo + n - 1` of `w`, moved down to bit 0.
pub open spec fn bits_at(w: u64, lo: u64, n: u64) -> u64 {
    (w >> lo) & low_mask(n)
}

/// `w` with bits `lo ..= lo + n - 1` replaced by the low `n` bits of `v`.
pub open spec fn with_bits(w: u64, lo: u64, n: u64, v: u64) -> u64 {
    (w & !(low_mask(n) << lo)) | ((v & low_mask(n)) << lo)
}

/// The `n`-bit two's-complement value `u`, sign-extended to 64 bits.
pub open spec fn sign_extend(u: u64, n: u64) -> i64 {
    ((u as i64) << ((64 - n) as u64)) >> ((64 - n) as u64)
}

/// Bit `i` of `w`.
pub open spec fn bit(w: u64, i: u64) -> u64 {
    (w >> i) & 1
}

/// The mask that `bitfield` builds for bits `hi ..= lo` of a `u64`.
pub open spec fn bitfield_mask(hi: u64, lo: u64) -> u64 {
    (!0u64) << ((63 - hi) as u64) >> ((63 - hi + lo) as u64) << lo
}

/// Relies on `<u64 as bitfield::BitRange<u64>>::set_bit_range` (written by
/// `impl_bitrange_for_u!`): it builds the mask of bits `hi ..= lo` by
/// shifting all ones, clears the mask, and ors in `value << lo` under it.
#[verifier::external_body]
fn set_bit_range(word: u64, hi: u64, lo: u64, value: u64) -> (r: u64)
    requires
        lo <= hi < 64,
    ensures
        r == (word & !bitfield_mask(hi, lo)) | ((value << lo) & bitfield_mask(hi, lo)),
{
    let mut w = word;
    <u64 as BitRange<u64>>::set_bit_range(&mut w, hi as usize, lo as usize, value);
    w
}

/// Relies on `<u64 as bitfield::BitRange<u64>>::bit_range` (written by
/// `impl_bitrange_for_u!`): it shifts bit `hi` up to bit 63 and then bit `lo`
/// down to bit 0, and shifts the result up and back down by `63 - hi + lo`.
#[verifier::external_body]
fn bit_range(word: u64, hi: u64, lo: u64) -> (r: u64)
    requires
        lo <= hi < 64,
    ensures
        r == ((word << ((63 - hi) as u64)) >> ((63 - hi + lo) as u64)) << ((63 - hi + lo) as u64)
            >> ((63 - hi + lo) as u64),
{
    <u64 as BitRange<u64>>::bit_range(&word, hi as usize, lo as usize)
}

/// Relies on `<u64 as bitfield::BitRange<i64>>::bit_range` (written by
/// `impl_bitrange_for_u!`): as the `u64` one, but the second shift up and
/// back down is done on an `i64`, which copies bit `hi` into the bits above.
#[verifier::external_body]
fn signed_bit_range(word: u64, hi: u64, lo: u64) -> (r: i64)
    requires
        lo <= hi < 64,
    ensures
        r == ((((word << ((63 - hi) as u64)) >> ((63 - hi + lo) as u64)) as i64) << ((63 - hi
            + lo) as u64)) >> ((63 - hi + lo) as u64),
{
    <u64 as BitRange<i64>>::bit_range(&word, hi as usize, lo as usize)
}

/// Writes the low `n` bits of `value` into bits `lo ..= lo + n - 1` of `word`.
pub fn put_bits(word: u64, lo: u64, n: u64, value: u64) -> (r: u64)
    requires
        1 <= n,
        lo + n <= 64,
    ensures
        r == with_bits(word, lo, n, value),
{
    let hi = lo + n - 1;
    let r = set_bit_range(word, hi, lo, value);
    let ghost k: u64 = (63 - hi) as u64;
    let ghost m: u64 = (63 - hi + lo) as u64;
    assert(((word & !((!0u64) << k >> m << lo)) | ((value << lo) & ((!0u64) << k >> m << lo)))
        == (word & !(((!0u64) >> m) << lo)) | ((value & ((!0u64) >> m)) << lo)) by (bit_vector)
        requires
            k + lo + 1 + (64 - m) == 65,
            m < 64,
    ;
    r
}

/// Reads bits `lo ..= lo + n - 1` of `word`.
pub fn get_bits(word: u64, lo: u64, n: u64) -> (r: u64)
    requires
        1 <= n,
        lo + n <= 64,
    ensures
        r == bits_at(word, lo, n),
{
    let hi = lo + n - 1;
    let r = bit_range(word, hi, lo);
    proof {
        let k: u64 = (63 - hi) as u64;
        let m: u64 = (63 - hi + lo) as u64;
        lemma_shifted_down(word, k, lo, m);
        let x = (word << k) >> m;
        assert((x << m) >> m == x) by (bit_vector)
            requires
                m < 64,
                x == (word >> lo) & ((!0u64) >> m),
        ;
    }
    r
}

/// Reads bits `lo ..= lo + n - 1` of `word` as an `n`-bit signed value.
pub fn get_signed_bits(word: u64, lo: u64, n: u64) -> (r: i64)
    requires
        1 <= n,
        lo + n <= 64,
    ensures
        r == sign_extend(bits_at(word, lo, n), n),
{
    let hi = lo + n - 1;
    let r = signed_bit_range(word, hi, lo);
    proof {
        lemma_shifted_down(word, (63 - hi) as u64, lo, (63 - hi + lo) as u64);
    }
    r
}

/// Shifting up past the top of the range and back down isolates the range.
#[verifier::rlimit(100)]
proof fn lemma_shifted_down(w: u64, k: u64, lo: u64, m: u64)
    requires
        k + lo == m,
        m < 64,
    ensures
        (w << k) >> m == (w >> lo) & ((!0u64) >> m),
{
    let x: u64 = w << k;
    assert(x >> m == (x >> k) >> lo) by (bit_vector)
        requires
            k + lo == m,
            m < 64,
    ;
    assert((w << k) >> k == w & ((!0u64) >> k)) by (bit_vector)
        requires
            k < 64,
    ;
    assert((w & ((!0u64) >> k)) >> lo == (w >> lo) & ((!0u64) >> m)) by (bit_vector)
        requires
            k + lo == m,
            m < 64,
    ;
}

/// Reading back the range just written gives the low `n` bits of the value.
#[verifier::rlimit(100)]
pub proof fn lemma_read_written(w: u64, lo: u64, n: u64, v: u64)
    requires
        1 <= n,
        lo + n <= 64,
    ensures
        bits_at(with_bits(w, lo, n, v), lo, n) == v & low_mask(n),
{
    let m: u64 = (64 - n) as u64;
    assert((((w & !(((!0u64) >> m) << lo)) | ((v & ((!0u64) >> m)) << lo)) >> lo) & ((!0u64) >> m)
        == v & ((!0u64) >> m)) by (bit_vector)
        requires
            lo + 64 - m <= 64,
            m < 64,
    ;
}

/// Writing one range leaves every range disjoint from it as it was.
#[verifier::rlimit(100)]
pub proof fn lemma_read_other(w: u64, lo: u64, n: u64, v: u64, lo2: u64, n2: u64)
    requires
        1 <= n,
        lo + n <= 64,
        1 <= n2,
        lo2 + n2 <= 64,
        lo + n <= lo2 || lo2 + n2 <= lo,
    ensures
        bits_at(with_bits(w, lo, n, v), lo2, n2) == bits_at(w, lo2, n2),
{
    let m: u64 = (64 - n) as u64;
    let m2: u64 = (64 - n2) as u64;
    assert((((w & !(((!0u64) >> m) << lo)) | ((v & ((!0u64) >> m)) << lo)) >> lo2) & ((!0u64)
        >> m2) == (w >> lo2) & ((!0u64) >> m2)) by (bit_vector)
        requires
            lo + 64 - m <= 64,
            m < 64,
            lo2 + 64 - m2 <= 64,
            m2 < 64,
            lo + 64 - m <= lo2 || lo2 + 64 - m2 <= lo,
    ;
}

/// Writing bits `lo ..= lo + n - 1` changes no bit outside them.
pub proof fn lemma_bits_outside(w: u64, lo: u64, n: u64, v: u64, i: u64)
    requires
        1 <= n,
        lo + n <= 64,
        i < 64,
        i < lo || lo + n <= i,
    ensures
        bit(with_bits(w, lo, n, v), i) == bit(w, i),
{
    let m: u64 = (64 - n) as u64;
    assert((((w & !(((!0u64) >> m) << lo)) | ((v & ((!0u64) >> m)) << lo)) >> i) & 1 == (w >> i)
        & 1) by (bit_vector)
        requires
            lo + 64 - m <= 64,
            m < 64,
            i < 64,
            i < lo || lo + 64 - m <= i,
    ;
}

/// The low `n` bits make up `2^n - 1`.
pub proof fn lemma_low_mask_value(n: u64)
    requires
        1 <= n < 64,
    ensures
        low_mask(n) == pow2(n as nat) - 1,
{
    assert((!0u64) >> ((64 - n) as u64) == ((1u64 << n) - 1) as u64) by (bit_vector)
        requires
            1 <= n < 64,
    ;
    vstd::bits::lemma_u64_pow2_no_overflow(n as nat);
    vstd::bits::lemma_u64_shl_is_mul(1, n);
}

/// A value below `2^n` is its own low `n` bits.
pub proof fn lemma_unsigned_kept(v: u64, n: u64)
    requires
        1 <= n < 64,
        v < pow2(n as nat),
    ensures
        v & low_mask(n) == v,
{
    lemma_low_mask_value(n);
    let m = low_mask(n);
    assert(v & m == v) by (bit_vector)
        requires
            v <= m,
            m == (!0u64) >> ((64 - n) as u64),
            1 <= n < 64,
    ;
}

/// Sign extension undoes the truncation of a value in the `n`-bit signed range.
pub proof fn lemma_signed_kept(v: i64, n: u64)
    requires
        1 <= n < 64,
        -pow2((n - 1) as nat) <= v < pow2((n - 1) as nat),
    ensures
        sign_extend((v as u64) & low_mask(n), n) == v,
{
    let k: u64 = (n - 1) as u64;
    vstd::bits::lemma_u64_pow2_no_overflow(k as nat);
    vstd::bits::lemma_u64_shl_is_mul(1, k);
    let h: u64 = 1u64 << k;
    assert(sign_extend((v as u64) & low_mask(n), n) == v) by (bit_vector)
        requires
            1 <= n < 64,
            k == n - 1,
            h == 1u64 << k,
            -(h as int) <= v < h,
    ;
}

/// A sign-extended `n`-bit value lies in the `n`-bit signed range.
pub proof fn lemma_sign_extend_range(u: u64, n: u64)
    requires
        1 <= n < 64,
        u <= low_mask(n),
    ensures
        -pow2((n - 1) as nat) <= sign_extend(u, n) < pow2((n - 1) as nat),
{
    let k: u64 = (n - 1) as u64;
    vstd::bits::lemma_u64_pow2_no_overflow(k as nat);
    vstd::bits::lemma_u64_shl_is_mul(1, k);
    let h: u64 = 1u64 << k;
    assert(-(h as int) <= sign_extend(u, n) < h) by (bit_vector)
        requires
            1 <= n < 64,
            k == n - 1,
            h == 1u64 << k,
            u <= (!0u64) >> ((64 - n) as u64),
    ;
}

/// Writing a range keeps every bit of `t` set in the word, where the value
/// written sets every bit that `t` has inside the range.
pub proof fn lemma_write_keeps(w: u64, lo: u64, n: u64, v: u64, t: u64)
    requires
        1 <= n,
        lo + n <= 64,
        w & t == t,
        ((v & low_mask(n)) << lo) & t == (low_mask(n) << lo) & t,
    ensures
        with_bits(w, lo, n, v) & t == t,
{
    let m = low_mask(n);
    assert(((w & !(m << lo)) | ((v & m) << lo)) & t == t) by (bit_vector)
        requires
            w & t == t,
            ((v & m) << lo) & t == (m << lo) & t,
    ;
}

/// A range that ends below bit `s` shares no bit with a `t` that has no bit
/// below `s`.
pub proof fn lemma_range_below(lo: u64, n: u64, v: u64, s: u64, t: u64)
    requires
        1 <= n,
        lo + n <= s <= 64,
        t & low_mask(s) == 0,
    ensures
        ((v & low_mask(n)) << lo) & t == 0,
        (low_mask(n) << lo) & t == 0,
{
    let m: u64 = (64 - n) as u64;
    let ms: u64 = (64 - s) as u64;
    assert(((v & ((!0u64) >> m)) << lo) & t == 0 && (((!0u64) >> m) << lo) & t == 0) by (bit_vector)
        requires
            lo + 64 - m <= 64 - ms,
            m < 64,
            ms < 64,
            t & ((!0u64) >> ms) == 0,
    ;
}

/// A 32-bit value written into the upper half of a zero word is all there.
pub proof fn lemma_upper_half(x: u32)
    ensures
        with_bits(0, 32, 32, x as u64) & ((x as u64) << 32) == (x as u64) << 32,
{
    let y = x as u64;
    assert(((0u64 & !(((!0u64) >> 32u64) << 32u64)) | ((y & ((!0u64) >> 32u64)) << 32u64)) & (y
        << 32u64) == y << 32u64) by (bit_vector);
}

/// A 32-bit value with no bit below `z`, moved to the upper half, has no bit
/// below `32 + z`.
pub proof fn lemma_upper_zeros(x: u32, z: u64)
    requires
        1 <= z < 32,
        (x as u64) & low_mask(z) == 0,
    ensures
        ((x as u64) << 32) & low_mask((32 + z) as u64) == 0,
{
    let y = x as u64;
    assert((y << 32u64) & ((!0u64) >> ((32 - z) as u64)) == 0) by (bit_vector)
        requires
            1 <= z < 32,
            y < 0x1_0000_0000,
            y & ((!0u64) >> ((64 - z) as u64)) == 0,
    ;
}

/// Where the upper half of `w` has every bit of `x` set, so has `w >> 32`.
pub proof fn lemma_upper_bits(w: u64, x: u32)
    requires
        w & ((x as u64) << 32) == (x as u64) << 32,
    ensures
        ((w >> 32) as u32) & x == x,
{
    let y = x as u64;
    assert(((w >> 32u64) as u32) & (y as u32) == y as u32) by (bit_vector)
        requires
            w & (y << 32u64) == y << 32u64,
            y < 0x1_0000_0000,
    ;
}

} // verus!
