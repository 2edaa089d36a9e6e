//! Rounding of sizes and offsets to alignment boundaries.

use vstd::prelude::*;

verus! {

/// Whether `n` is a power of two that fits in 64 bits.
pub open spec fn is_pow2(n: u64) -> bool {
    exists|k: nat| k < 64 && n == #[trigger] vstd::arithmetic::power2::pow2(k)
}

/// The bits of `value + alignment - 1` above the mask `alignment - 1`.
pub open spec fn mask_up(value: u64, alignment: u64) -> u64 {
    ((value + alignment - 1) as u64) & !((alignment - 1) as u64)
}

/// The bits of `value + alignment - 1` under the mask `alignment - 1`.
pub open spec fn mask_low(value: u64, alignment: u64) -> u64 {
    ((value + alignment - 1) as u64) & ((alignment - 1) as u64)
}

/// The largest multiple of `alignment` that does not exceed `value`;
/// `value` itself when `alignment` is zero.
pub open spec fn align_down_spec(value: int, alignment: int) -> int {
    if alignment == 0 {
        value
    } else {
        (value / alignment) * alignment
    }
}

/// The smallest multiple of `alignment` that is not below `value`;
/// `value` itself when `alignment` is zero.
pub open spec fn round_up_spec(value: int, alignment: int) -> int {
    if alignment == 0 {
        value
    } else {
        ((value + alignment - 1) / alignment) * alignment
    }
}

/// Rounds `value` down to a multiple of `alignment`.
pub fn align_down(value: usize, alignment: usize) -> (aligned: usize)
    ensures
        aligned == align_down_spec(value as int, alignment as int),
        aligned <= value,
        alignment != 0 ==> aligned % alignment == 0 && value - aligned < alignment,
{
    if alignment == 0 {
        return value;
    }
    proof {
        lemma_floor_multiple(value as int, alignment as int);
    }
    (value / alignment) * alignment
}

/// Rounds `value` down to a multiple of `alignment`.
pub fn align_down_32(value: u32, alignment: u32) -> (aligned: u32)
    ensures
        aligned == align_down_spec(value as int, alignment as int),
        aligned <= value,
        alignment != 0 ==> aligned % alignment == 0 && value - aligned < alignment,
{
    if alignment == 0 {
        return value;
    }
    proof {
        lemma_floor_multiple(value as int, alignment as int);
    }
    (value / alignment) * alignment
}

/// Rounds `value` down to a multiple of `alignment`.
pub fn align_down_64(value: u64, alignment: u64) -> (aligned: u64)
    ensures
        aligned == align_down_spec(value as int, alignment as int),
        aligned <= value,
        alignment != 0 ==> aligned % alignment == 0 && value - aligned < alignment,
{
    if alignment == 0 {
        return value;
    }
    proof {
        lemma_floor_multiple(value as int, alignment as int);
    }
    (value / alignment) * alignment
}

/// Rounds `value` up to the next multiple of `alignment`, which is meant to
/// be a power of two; a zero `alignment` or a zero `value` is handed back
/// unchanged. For any other `alignment` the result is the masked sum that
/// [`mask_up`] spells out.
pub fn align_up(value: usize, alignment: usize) -> (aligned: usize)
    requires
        value + alignment <= usize::MAX,
    ensures
        alignment == 0 || value == 0 ==> aligned == value,
        alignment != 0 && value != 0 ==> aligned == mask_up(value as u64, alignment as u64),
        is_pow2(alignment as u64) ==> aligned == round_up_spec(value as int, alignment as int)
            && aligned >= value && aligned - value < alignment && aligned % alignment == 0,
{
    proof {
        lemma_pow2_positive(alignment as u64);
    }
    if alignment == 0 {
        return value;
    }
    if value == 0 {
        assert((alignment - 1) / (alignment as int) == 0) by {
            vstd::arithmetic::div_mod::lemma_basic_div(alignment - 1, alignment as int);
        }
        return 0;
    }
    let sum: usize = value + alignment - 1;
    let mask: usize = alignment - 1;
    let aligned: usize = sum & !mask;
    proof {
        let s = sum as u64;
        let m = mask as u64;
        assert(aligned as u64 == s & !m) by (bit_vector)
            requires
                aligned == sum & !mask,
                s == sum as u64,
                m == mask as u64,
        ;
        if is_pow2(alignment as u64) {
            lemma_mask_up_rounds(value as u64, alignment as u64);
        }
    }
    aligned
}

/// The low bits of `value + alignment - 1` under the mask `alignment - 1`;
/// a zero `alignment` hands `value` back, and a zero `value` gives zero.
/// With a power of two as `alignment` this is the remainder of
/// `value + alignment - 1` by `alignment`.
pub fn align_up_32(value: u32, alignment: u32) -> (low: u32)
    requires
        value + alignment <= u32::MAX,
    ensures
        alignment == 0 ==> low == value,
        alignment != 0 && value == 0 ==> low == 0,
        alignment != 0 && value != 0 ==> low == mask_low(value as u64, alignment as u64),
        is_pow2(alignment as u64) && value != 0 ==> low == (value + alignment - 1) % (alignment as int),
{
    proof {
        lemma_pow2_positive(alignment as u64);
    }
    if alignment == 0 {
        return value;
    }
    if value == 0 {
        return 0;
    }
    let sum: u32 = value + alignment - 1;
    let mask: u32 = alignment - 1;
    let low: u32 = sum & mask;
    proof {
        let s = sum as u64;
        let m = mask as u64;
        assert(low as u64 == s & m) by (bit_vector)
            requires
                low == sum & mask,
                s == sum as u64,
                m == mask as u64,
        ;
        if is_pow2(alignment as u64) {
            lemma_mask_low_is_remainder(s, alignment as u64);
        }
    }
    low
}

/// The low bits of `value + alignment - 1` under the mask `alignment - 1`;
/// a zero `alignment` hands `value` back. With a power of two as
/// `alignment` this is the remainder of `value + alignment - 1` by
/// `alignment`.
pub fn align_up_64(value: u64, alignment: u64) -> (low: u64)
    requires
        value + alignment <= u64::MAX,
    ensures
        alignment == 0 ==> low == value,
        alignment != 0 ==> low == mask_low(value, alignment),
        is_pow2(alignment) ==> low == (value + alignment - 1) % (alignment as int),
{
    proof {
        lemma_pow2_positive(alignment);
    }
    if alignment == 0 {
        return value;
    }
    let sum: u64 = value + alignment - 1;
    let low: u64 = sum & (alignment - 1);
    proof {
        if is_pow2(alignment) {
            lemma_mask_low_is_remainder(sum, alignment);
        }
    }
    low
}

/// Zero is no power of two.
pub proof fn lemma_pow2_positive(a: u64)
    ensures
        is_pow2(a) ==> a > 0,
{
    if is_pow2(a) {
        let k = choose|k: nat| k < 64 && a == #[trigger] vstd::arithmetic::power2::pow2(k);
        vstd::arithmetic::power2::lemma_pow2_pos(k);
    }
}

/// Under a power-of-two `a`, masking with `a - 1` takes the remainder by `a`.
pub proof fn lemma_mask_low_is_remainder(s: u64, a: u64)
    requires
        is_pow2(a),
    ensures
        a > 0,
        s & ((a - 1) as u64) == s % a,
{
    let k = choose|k: nat| k < 64 && a == #[trigger] vstd::arithmetic::power2::pow2(k);
    vstd::bits::lemma_u64_pow2_no_overflow(k);
    vstd::bits::lemma_u64_low_bits_mask_is_mod(s, k);
}

/// Under a power-of-two `a`, clearing the bits of `a - 1` in `v + a - 1`
/// gives the smallest multiple of `a` that is not below `v`.
pub proof fn lemma_mask_up_rounds(v: u64, a: u64)
    requires
        is_pow2(a),
        v + a <= u64::MAX,
    ensures
        mask_up(v, a) == round_up_spec(v as int, a as int),
        mask_up(v, a) >= v,
        mask_up(v, a) - v < a,
        mask_up(v, a) % a == 0,
{
    lemma_mask_low_is_remainder((v + a - 1) as u64, a);
    let s: u64 = (v + a - 1) as u64;
    let m: u64 = (a - 1) as u64;
    assert(s & !m == s - (s & m)) by (bit_vector);
    lemma_floor_multiple(s as int, a as int);
}

/// `(v / a) * a` is a multiple of `a` within `a` below `v`.
pub proof fn lemma_floor_multiple(v: int, a: int)
    requires
        0 <= v,
        0 < a,
    ensures
        0 <= (v / a) * a <= v,
        v - (v / a) * a < a,
        ((v / a) * a) % a == 0,
        (v / a) * a == v - v % a,
{
    vstd::arithmetic::div_mod::lemma_fundamental_div_mod(v, a);
    vstd::arithmetic::div_mod::lemma_mod_multiples_basic(v / a, a);
    assert(a * (v / a) == (v / a) * a) by (nonlinear_arith);
    vstd::arithmetic::div_mod::lemma_mod_bound(v, a);
}

} // verus!
