//! # Bit fields
//!
//! Reading a range of bits, or a single bit, out of an unsigned integer.
use vstd::prelude::*;
use vstd::arithmetic::power2::pow2;

verus! {

/// The bits `start..end` of `num`, shifted down to bit 0.
pub open spec fn bit_field(num: nat, start: nat, end: nat) -> nat {
    (num % pow2(end)) / pow2(start)
}

/// What a bit-range read of `num` (an integer of `width` bits) gives: with
/// an empty range `start..start`, the single bit `start` left in place;
/// otherwise the bits `start..end` (no further than the width) shifted down
/// to bit 0.
pub open spec fn bit_range_of(num: nat, width: nat, start: nat, end: nat) -> nat {
    if start == end {
        bit_field(num, start, start + 1) * pow2(start)
    } else {
        bit_field(num, start, if end < width { end } else { width })
    }
}

/// Whether bit `index` of `num` is set.
pub open spec fn bit_of(num: nat, index: nat) -> bool {
    (num / pow2(index)) % 2 == 1
}

proof fn lemma_pow2_facts(e: nat)
    requires
        e <= 64,
    ensures
        pow2(e) > 0,
        e < 64 ==> pow2(e) <= u64::MAX,
        e == 64 ==> pow2(e) == 0x1_0000_0000_0000_0000,
{
    vstd::arithmetic::power2::lemma_pow2_pos(e);
    vstd::arithmetic::power2::lemma2_to64();
    vstd::arithmetic::power2::lemma2_to64_rest();
    if e < 64 {
        vstd::bits::lemma_u64_pow2_no_overflow(e);
    }
}

proof fn lemma_single_bit(n: int, p: int)
    requires
        n >= 0,
        p > 0,
    ensures
        (n % (p * 2)) / p == (n / p) % 2,
{
    vstd::arithmetic::div_mod::lemma_mod_breakdown(n, p, 2);
    let k = (n / p) % 2;
    let r = n % p;
    vstd::arithmetic::div_mod::lemma_mod_bound(n, p);
    assert(p * k == k * p) by (nonlinear_arith);
    vstd::arithmetic::div_mod::lemma_fundamental_div_mod_converse(n % (p * 2), p, k, r);
}

/// The bit-range read on an integer of `width` bits held in a `u64`.
fn bit_range_in(num: u64, width: u32, start: u32, end: u32) -> (r: u64)
    requires
        1 <= width <= 64,
        (num as nat) < pow2(width as nat),
        start < width,
    ensures
        r == bit_range_of(num as nat, width as nat, start as nat, end as nat),
        r < pow2(width as nat),
{
    proof {
        lemma_pow2_facts(start as nat);
        lemma_pow2_facts(width as nat);
        vstd::bits::lemma_u64_shr_is_div(num, start as u64);
        vstd::bits::lemma_u64_shl_is_mul(1, start as u64);
    }
    if start == end {
        let place: u64 = 1u64 << (start as u64);
        let bit: u64 = (num >> (start as u64)) % 2;
        proof {
            vstd::arithmetic::power2::lemma_pow2_adds(start as nat, 1);
            vstd::arithmetic::power2::lemma2_to64();
            lemma_single_bit(num as int, pow2(start as nat) as int);
            assert(pow2(start as nat + 1) == pow2(start as nat) * 2);
            vstd::arithmetic::power2::lemma_pow2_strictly_increases(start as nat, width as nat);
            assert(bit * place <= place) by (nonlinear_arith)
                requires bit <= 1;
        }
        bit * place
    } else {
        let top: u32 = if end < width { end } else { width };
        proof {
            lemma_pow2_facts(top as nat);
            vstd::arithmetic::power2::lemma_pow2_strictly_increases(start as nat, width as nat);
        }
        let low: u64 = if top == 64 {
            proof {
                vstd::arithmetic::div_mod::lemma_small_mod(num as nat, pow2(64));
            }
            num
        } else {
            proof {
                vstd::bits::lemma_u64_shl_is_mul(1, top as u64);
            }
            let modulus: u64 = 1u64 << (top as u64);
            num % modulus
        };
        proof {
            vstd::bits::lemma_u64_shr_is_div(low, start as u64);
            vstd::arithmetic::div_mod::lemma_mod_decreases(num as nat, pow2(top as nat));
            vstd::arithmetic::div_mod::lemma_div_is_ordered_by_denominator(low as int, 1, pow2(start as nat) as int);
        }
        low >> (start as u64)
    }
}

/// Whether bit `index` of `num` is set.
fn bit_in(num: u64, index: u32) -> (b: bool)
    requires
        index < 64,
    ensures
        b == bit_of(num as nat, index as nat),
{
    let shifted = num >> (index as u64);
    proof {
        vstd::bits::lemma_u64_shr_is_div(num, index as u64);
    }
    assert((shifted & 1u64 != 0u64) == (shifted % 2 == 1)) by (bit_vector);
    (shifted & 1) != 0
}

/// The bits `start..end` of `num` shifted down to bit 0; for an empty range
/// `start..start`, the bit `start` of `num` left in place. A range that ends
/// past bit 7 stops there. To read `N` bits from `start`, pass
/// `start + N` as `end`; to read up to the top, pass 8.
pub fn bit_range_u8(num: u8, start: u32, end: u32) -> (r: u8)
    requires
        start < 8,
        start != end ==> end >= 1,
    ensures
        r == bit_range_of(num as nat, 8, start as nat, end as nat),
{
    proof {
        vstd::arithmetic::power2::lemma2_to64();
        vstd::arithmetic::power2::lemma2_to64_rest();
    }
    let r = bit_range_in(num as u64, 8, start, end);
    r as u8
}

/// Whether bit `index` of `num` is set.
pub fn bit_u8(num: u8, index: u32) -> (b: bool)
    requires
        index < 8,
    ensures
        b == bit_of(num as nat, index as nat),
{
    bit_in(num as u64, index)
}

/// The bits `start..end` of `num` shifted down to bit 0; for an empty range
/// `start..start`, the bit `start` of `num` left in place. A range that ends
/// past bit 15 stops there. To read `N` bits from `start`, pass
/// `start + N` as `end`; to read up to the top, pass 16.
pub fn bit_range_u16(num: u16, start: u32, end: u32) -> (r: u16)
    requires
        start < 16,
        start != end ==> end >= 1,
    ensures
        r == bit_range_of(num as nat, 16, start as nat, end as nat),
{
    proof {
        vstd::arithmetic::power2::lemma2_to64();
        vstd::arithmetic::power2::lemma2_to64_rest();
    }
    let r = bit_range_in(num as u64, 16, start, end);
    r as u16
}

/// Whether bit `index` of `num` is set.
pub fn bit_u16(num: u16, index: u32) -> (b: bool)
    requires
        index < 16,
    ensures
        b == bit_of(num as nat, index as nat),
{
    bit_in(num as u64, index)
}

/// The bits `start..end` of `num` shifted down to bit 0; for an empty range
/// `start..start`, the bit `start` of `num` left in place. A range that ends
/// past bit 31 stops there. To read `N` bits from `start`, pass
/// `start + N` as `end`; to read up to the top, pass 32.
pub fn bit_range_u32(num: u32, start: u32, end: u32) -> (r: u32)
    requires
        start < 32,
        start != end ==> end >= 1,
    ensures
        r == bit_range_of(num as nat, 32, start as nat, end as nat),
{
    proof {
        vstd::arithmetic::power2::lemma2_to64();
        vstd::arithmetic::power2::lemma2_to64_rest();
    }
    let r = bit_range_in(num as u64, 32, start, end);
    r as u32
}

/// Whether bit `index` of `num` is set.
pub fn bit_u32(num: u32, index: u32) -> (b: bool)
    requires
        index < 32,
    ensures
        b == bit_of(num as nat, index as nat),
{
    bit_in(num as u64, index)
}

/// The bits `start..end` of `num` shifted down to bit 0; for an empty range
/// `start..start`, the bit `start` of `num` left in place. A range that ends
/// past bit 63 stops there. To read `N` bits from `start`, pass
/// `start + N` as `end`; to read up to the top, pass 64.
pub fn bit_range_u64(num: u64, start: u32, end: u32) -> (r: u64)
    requires
        start < 64,
        start != end ==> end >= 1,
    ensures
        r == bit_range_of(num as nat, 64, start as nat, end as nat),
{
    proof {
        vstd::arithmetic::power2::lemma2_to64();
        vstd::arithmetic::power2::lemma2_to64_rest();
    }
    let r = bit_range_in(num as u64, 64, start, end);
    r as u64
}

/// Whether bit `index` of `num` is set.
pub fn bit_u64(num: u64, index: u32) -> (b: bool)
    requires
        index < 64,
    ensures
        b == bit_of(num as nat, index as nat),
{
    bit_in(num as u64, index)
}

/// Reading the range from bit 0 to the width (or beyond) gives the number
/// back.
pub proof fn lemma_full_range(num: nat, width: nat, end: nat)
    requires
        num < pow2(width),
        width <= end,
        width > 0,
    ensures
        bit_range_of(num, width, 0, end) == num,
{
    vstd::arithmetic::power2::lemma_pow2_pos(0);
    vstd::arithmetic::power2::lemma2_to64();
    vstd::arithmetic::div_mod::lemma_small_mod(num, pow2(width));
}

} // verus!
