//! Bit-level model of the IEEE-754 binary64 numbers that scalar values carry.
//!
//! A number is stored as its 64-bit interchange encoding. Everything that can
//! be decided by looking at the bits alone — the NaN test, the zero test,
//! equality and ordering of non-NaN values — is implemented and verified here.
//! Arithmetic, which needs rounding, lives behind the trusted bridge in
//! `float_ops`.

use vstd::prelude::*;
use vstd::arithmetic::power2::pow2;

verus! {

/// Mask of the sign bit.
pub const SIGN_MASK: u64 = 0x8000_0000_0000_0000;

/// Mask of everything but the sign bit (exponent and fraction).
pub const ABS_MASK: u64 = 0x7FFF_FFFF_FFFF_FFFF;

/// Mask of the 11 exponent bits.
pub const EXP_MASK: u64 = 0x7FF0_0000_0000_0000;

/// Mask of the 52 fraction bits.
pub const FRAC_MASK: u64 = 0x000F_FFFF_FFFF_FFFF;

/// The encoding of +0.0.
pub const NUM_ZERO: u64 = 0;

/// The encoding of -0.0.
pub const NUM_NEG_ZERO: u64 = 0x8000_0000_0000_0000;

/// The encoding of 0.5, the threshold the repeat counter is tested against.
pub const NUM_HALF: u64 = 0x3FE0_0000_0000_0000;

/// The encoding of 1.0.
pub const NUM_ONE: u64 = 0x3FF0_0000_0000_0000;

/// The encoding of 90.0, the direction that points right.
pub const NUM_NINETY: u64 = 0x4056_8000_0000_0000;

/// The encoding of 100.0, the default sprite size in percent.
pub const NUM_HUNDRED: u64 = 0x4059_0000_0000_0000;

/// The encoding of pi / 180, the factor that takes degrees to radians.
pub const NUM_RAD_PER_DEG: u64 = 0x3F91_DF46_A252_9D39;

/// An encoding denotes NaN when the exponent field is all ones and the
/// fraction is not zero.
pub open spec fn num_is_nan(b: u64) -> bool {
    b & EXP_MASK == EXP_MASK && b & FRAC_MASK != 0
}

/// An encoding denotes zero (of either sign) when everything but the sign
/// bit is zero.
pub open spec fn num_is_zero(b: u64) -> bool {
    b & ABS_MASK == 0
}

/// The sign bit: set on negative numbers (and on -0.0).
pub open spec fn num_is_negative(b: u64) -> bool {
    b & SIGN_MASK != 0
}

/// The magnitude bits: exponent and fraction. For two non-NaN encodings of
/// one sign, larger magnitude bits denote a larger absolute value.
pub open spec fn num_magnitude(b: u64) -> u64 {
    b & ABS_MASK
}

/// Value equality of two non-NaN encodings: the bits agree, or both denote
/// zero (+0.0 and -0.0 compare equal).
pub open spec fn num_eq(a: u64, b: u64) -> bool {
    a == b || (num_is_zero(a) && num_is_zero(b))
}

/// The strict order of two non-NaN encodings. Both zeros are equal; a
/// negative number is below a positive one; among one sign the magnitude
/// bits order the values, reversed for negatives.
pub open spec fn num_lt(a: u64, b: u64) -> bool {
    if num_is_zero(a) && num_is_zero(b) {
        false
    } else if num_is_zero(a) {
        !num_is_negative(b)
    } else if num_is_zero(b) {
        num_is_negative(a)
    } else if num_is_negative(a) != num_is_negative(b) {
        num_is_negative(a)
    } else if !num_is_negative(a) {
        num_magnitude(a) < num_magnitude(b)
    } else {
        num_magnitude(b) < num_magnitude(a)
    }
}

/// a > b exactly when b < a.
pub open spec fn num_gt(a: u64, b: u64) -> bool {
    num_lt(b, a)
}

/// The NaN test, decided on the bits.
pub fn is_nan_bits(b: u64) -> (r: bool)
    ensures
        r == num_is_nan(b),
{
    b & EXP_MASK == EXP_MASK && b & FRAC_MASK != 0
}

/// The zero test, decided on the bits: +0.0 and -0.0 both count.
pub fn is_zero_bits(b: u64) -> (r: bool)
    ensures
        r == num_is_zero(b),
{
    b & ABS_MASK == 0
}

/// Value equality of two non-NaN encodings.
pub fn eq_bits(a: u64, b: u64) -> (r: bool)
    ensures
        r == num_eq(a, b),
{
    a == b || (a & ABS_MASK == 0 && b & ABS_MASK == 0)
}

/// The strict order of two non-NaN encodings.
pub fn lt_bits(a: u64, b: u64) -> (r: bool)
    ensures
        r == num_lt(a, b),
{
    let za = a & ABS_MASK == 0;
    let zb = b & ABS_MASK == 0;
    if za && zb {
        false
    } else if za {
        b & SIGN_MASK == 0
    } else if zb {
        a & SIGN_MASK != 0
    } else if (a & SIGN_MASK != 0) != (b & SIGN_MASK != 0) {
        a & SIGN_MASK != 0
    } else if a & SIGN_MASK == 0 {
        (a & ABS_MASK) < (b & ABS_MASK)
    } else {
        (b & ABS_MASK) < (a & ABS_MASK)
    }
}

/// The order is trichotomous on non-NaN encodings: exactly one of
/// `a < b`, `a == b`, `b < a` holds.
pub proof fn lemma_num_trichotomy(a: u64, b: u64)
    ensures
        num_eq(a, b) || num_lt(a, b) || num_lt(b, a),
        num_eq(a, b) ==> !num_lt(a, b) && !num_lt(b, a),
{
    assert((a & ABS_MASK == b & ABS_MASK && (a & SIGN_MASK == 0 <==> b & SIGN_MASK == 0))
        ==> a == b) by (bit_vector);
}

/// The position of the highest set bit: `2^floor_log2(n) <= n < 2^(floor_log2(n)+1)`.
pub open spec fn floor_log2(n: nat) -> nat
    decreases n,
{
    if n < 2 {
        0
    } else {
        1 + floor_log2(n / 2)
    }
}

/// The natural number an encoding denotes exactly, if any: zero for the
/// zero encoding, else sign 0, biased exponent in [1023, 1075], and a
/// significand that the exponent shifts to a whole number.
pub open spec fn f64_as_nat(b: u64) -> Option<nat> {
    if b == 0 {
        Some(0 as nat)
    } else {
        let e = b / 0x10_0000_0000_0000;
        let frac = b % 0x10_0000_0000_0000;
        if 1023 <= e <= 1075 {
            let m = frac + 0x10_0000_0000_0000;
            let shift = pow2((1075 - e) as nat);
            if m % (shift as int) == 0 {
                Some((m / (shift as int)) as nat)
            } else {
                None
            }
        } else {
            None
        }
    }
}

/// The natural number an encoding denotes exactly, as the machine reads
/// it; nothing for a negative, fractional, huge or non-finite encoding.
pub fn f64_to_nat_u64(b: u64) -> (r: Option<u64>)
    ensures
        match r {
            Some(n) => f64_as_nat(b) == Some(n as nat),
            None => f64_as_nat(b) is None,
        },
{
    if b == 0 {
        return Some(0);
    }
    let e = b / 0x10_0000_0000_0000;
    let frac = b % 0x10_0000_0000_0000;
    if e < 1023 || e > 1075 {
        return None;
    }
    let m = frac + 0x10_0000_0000_0000;
    let mut shift: u64 = 1;
    let mut k: u64 = 1075 - e;
    proof {
        vstd::arithmetic::power2::lemma2_to64();
        vstd::arithmetic::power2::lemma2_to64_rest();
    }
    while k > 0
        invariant
            k <= 1075 - e,
            e <= 1075,
            1075 - e <= 52,
            1 <= shift,
            shift == pow2(((1075 - e) - k) as nat),
            shift <= 0x10_0000_0000_0000,
        decreases k,
    {
        proof {
            let j = ((1075 - e) - k) as nat;
            vstd::arithmetic::power2::lemma_pow2_unfold((j + 1) as nat);
            if j + 1 < 52 {
                vstd::arithmetic::power2::lemma_pow2_strictly_increases((j + 1) as nat, 52);
            }
            vstd::arithmetic::power2::lemma2_to64();
            vstd::arithmetic::power2::lemma2_to64_rest();
        }
        shift = shift * 2;
        k = k - 1;
    }
    if m % shift == 0 {
        Some(m / shift)
    } else {
        None
    }
}

/// The binary64 encoding of a natural number below 2^52: sign 0, biased
/// exponent `1023 + floor_log2(n)`, and the fraction bits left after the
/// leading one of `n` is shifted up to the hidden position 52.
pub open spec fn f64_of_nat(n: nat) -> u64
    recommends
        n <= 0x10_0000_0000_0000,
{
    if n == 0 {
        NUM_ZERO
    } else {
        let k = floor_log2(n);
        (((1023 + k) * pow2(52) + (n * pow2((52 - k) as nat) - pow2(52))) % 0x1_0000_0000_0000_0000) as u64
    }
}

/// `floor_log2` names the position of the highest set bit.
pub proof fn lemma_floor_log2_bounds(n: nat)
    requires
        n >= 1,
    ensures
        pow2(floor_log2(n)) <= n < pow2(floor_log2(n) + 1),
    decreases n,
{
    if n < 2 {
        vstd::arithmetic::power2::lemma2_to64();
    } else {
        lemma_floor_log2_bounds(n / 2);
        let k = floor_log2(n / 2);
        vstd::arithmetic::power2::lemma_pow2_unfold(k + 1);
        vstd::arithmetic::power2::lemma_pow2_unfold(k + 2);
    }
}

/// A number up to 2^52 has its highest set bit at position 52 or below.
pub proof fn lemma_floor_log2_le_52(n: nat)
    requires
        1 <= n <= 0x10_0000_0000_0000,
    ensures
        floor_log2(n) <= 52,
{
    lemma_floor_log2_bounds(n);
    if floor_log2(n) > 52 {
        vstd::arithmetic::power2::lemma_pow2_strictly_increases(52, floor_log2(n));
        vstd::arithmetic::power2::lemma2_to64_rest();
    }
}

/// The encoding of a natural number up to 2^52 lies between the encoding
/// of one and the first encoding past 2^53, and decodes back to the
/// number itself.
pub proof fn lemma_f64_of_nat_decode(n: nat)
    requires
        1 <= n <= 0x10_0000_0000_0000,
    ensures
        NUM_ONE <= f64_of_nat(n) < 0x4340_0000_0000_0000,
        f64_as_nat(f64_of_nat(n)) == Some(n),
{
    vstd::arithmetic::power2::lemma2_to64_rest();
    let k = floor_log2(n);
    lemma_floor_log2_bounds(n);
    lemma_floor_log2_le_52(n);
    let scale = pow2((52 - k) as nat);
    vstd::arithmetic::power2::lemma_pow2_pos((52 - k) as nat);
    vstd::arithmetic::power2::lemma_pow2_adds(k, (52 - k) as nat);
    vstd::arithmetic::power2::lemma_pow2_adds(k + 1, (52 - k) as nat);
    assert(pow2(52) == pow2(k) * scale);
    assert(pow2(53) == pow2(k + 1) * scale);
    // n * 2^(52-k) lands in [2^52, 2^53).
    vstd::arithmetic::mul::lemma_mul_inequality(pow2(k) as int, n as int, scale as int);
    vstd::arithmetic::mul::lemma_mul_strict_inequality(n as int, pow2(k + 1) as int, scale as int);
    assert(pow2(52) <= n * scale < pow2(53));
    let frac = (n * scale - pow2(52)) as nat;
    assert(frac < pow2(52));
    // The raw encoding is below 1076 * 2^52, so the wrap-around mod is idle.
    let raw = (1023 + k) * pow2(52) + frac;
    vstd::arithmetic::mul::lemma_mul_inequality((1023 + k) as int, 1075, pow2(52) as int);
    assert(raw < 1076 * pow2(52)) by {
        vstd::arithmetic::mul::lemma_mul_is_distributive_add_other_way(
            pow2(52) as int,
            1075,
            1,
        );
    }
    assert(1076 * pow2(52) == 0x4340_0000_0000_0000);
    vstd::arithmetic::div_mod::lemma_small_mod(raw, 0x1_0000_0000_0000_0000);
    assert(f64_of_nat(n) == raw as u64);
    assert(raw >= 1023 * pow2(52)) by {
        vstd::arithmetic::mul::lemma_mul_inequality(1023, (1023 + k) as int, pow2(52) as int);
    }
    assert(1023 * pow2(52) == NUM_ONE);
    // Decoding: the top twelve bits read back 1023 + k, the rest frac.
    let b = raw as u64;
    vstd::arithmetic::div_mod::lemma_fundamental_div_mod_converse(
        b as int,
        pow2(52) as int,
        (1023 + k) as int,
        frac as int,
    );
    assert(b / 0x10_0000_0000_0000 == 1023 + k);
    assert(b % 0x10_0000_0000_0000 == frac);
    // The significand with its hidden bit is exactly n * 2^(52-k).
    assert(frac + 0x10_0000_0000_0000 == n * scale);
    assert(1075 - (1023 + k) == 52 - k);
    vstd::arithmetic::div_mod::lemma_mod_multiples_basic(n as int, scale as int);
    vstd::arithmetic::div_mod::lemma_div_multiples_vanish(n as int, scale as int);
    assert(b != 0);
    assert(f64_as_nat(b) == Some(n));
}

} // verus!
