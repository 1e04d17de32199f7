//! Bit-level model of double-precision values.
//!
//! Every evaluator in this crate partitions its domain by comparing the
//! magnitude of its argument against fixed breakpoints, and the Chebyshev
//! evaluators additionally split the magnitude into a normalized mantissa
//! and a binary exponent.  Both are exact integer computations on the
//! 64-bit encoding of the argument.  This module fixes the meaning of an
//! encoding `b`: when `b` is finite it stands for the real number
//! `(-1)^sign_of(b) * abs_scaled(b) / 2^1074`, where `abs_scaled(b)` is an
//! exact integer.  Infinities order above every finite encoding under the
//! same definition, so magnitude comparisons extend to them unchanged.

use vstd::prelude::*;

verus! {

use vstd::arithmetic::power2::{
    pow2, lemma_pow2_adds, lemma_pow2_pos, lemma_pow2_strictly_increases, lemma2_to64,
    lemma2_to64_rest,
};
use vstd::arithmetic::mul::{lemma_mul_inequality, lemma_mul_strict_inequality};

/// Mask of every bit of an encoding but the sign.
pub const ABS_MASK: u64 = 0x7fff_ffff_ffff_ffff;

/// The sign bit of an encoding.
pub const SIGN_MASK: u64 = 0x8000_0000_0000_0000;

/// One past the largest fraction field: 2^52.
pub const FRAC_LIMIT: u64 = 0x10_0000_0000_0000;

/// The exponent field shared by infinities and NaNs.
pub const EXP_SPECIAL: u64 = 0x7ff;

/// Bits of the value one.
pub const ONE_BITS: u64 = 0x3ff0_0000_0000_0000;

/// Whether the sign bit of `b` is set.
pub open spec fn sign_of(b: u64) -> bool {
    b / SIGN_MASK == 1
}

/// The 11-bit biased exponent field of `b`.
pub open spec fn exp_of(b: u64) -> u64 {
    (b / FRAC_LIMIT) % 0x800
}

/// The 52-bit fraction field of `b`.
pub open spec fn frac_of(b: u64) -> u64 {
    b % FRAC_LIMIT
}

/// `b` encodes a NaN.
pub open spec fn is_nan_of(b: u64) -> bool {
    exp_of(b) == EXP_SPECIAL && frac_of(b) != 0
}

/// `b` encodes an infinity (of either sign).
pub open spec fn is_inf_of(b: u64) -> bool {
    exp_of(b) == EXP_SPECIAL && frac_of(b) == 0
}

/// `b` encodes a finite value.
pub open spec fn is_finite_of(b: u64) -> bool {
    exp_of(b) != EXP_SPECIAL
}

/// `b` encodes a zero (of either sign).
pub open spec fn is_zero_of(b: u64) -> bool {
    exp_of(b) == 0 && frac_of(b) == 0
}

/// The integer significand of `b`: the fraction field, with the hidden bit
/// restored for normal encodings.
pub open spec fn mant_of(b: u64) -> int {
    if exp_of(b) == 0 {
        frac_of(b) as int
    } else {
        frac_of(b) + FRAC_LIMIT
    }
}

/// The power of two that scales `mant_of` up to `|value| * 2^1074`.
/// Subnormal encodings and the smallest normal exponent share scale 0,
/// which is what makes `abs_scaled` continuous across that boundary.
pub open spec fn scale_of(b: u64) -> nat {
    if exp_of(b) == 0 {
        0
    } else {
        (exp_of(b) - 1) as nat
    }
}

/// The magnitude of `b` as an exact integer: for finite `b` the encoded
/// value has absolute value `abs_scaled(b) / 2^1074`.  Infinite encodings
/// yield an integer above that of every finite encoding.
pub open spec fn abs_scaled(b: u64) -> int {
    mant_of(b) * pow2(scale_of(b))
}

/// Magnitude order on encodings, ignoring both sign bits.
pub open spec fn mag_lt(a: u64, b: u64) -> bool {
    abs_scaled(a) < abs_scaled(b)
}

/// Value order on non-NaN encodings, sign included.
pub open spec fn val_lt(a: u64, b: u64) -> bool {
    if sign_of(a) {
        if sign_of(b) {
            abs_scaled(b) < abs_scaled(a)
        } else {
            !(abs_scaled(a) == 0 && abs_scaled(b) == 0)
        }
    } else {
        if sign_of(b) {
            false
        } else {
            abs_scaled(a) < abs_scaled(b)
        }
    }
}

/// The exponent field, as the encoding's high bits place it.
pub fn exp_field(b: u64) -> (e: u64)
    ensures
        e == exp_of(b),
        e < 0x800,
{
    proof {
        assert((b >> 52u64) & 0x7ff == (b / 0x10_0000_0000_0000) % 0x800) by (bit_vector);
    }
    (b >> 52u64) & 0x7ff
}

/// The fraction field, as the encoding's low bits place it.
pub fn frac_field(b: u64) -> (f: u64)
    ensures
        f == frac_of(b),
        f < FRAC_LIMIT,
{
    proof {
        assert(b & 0xf_ffff_ffff_ffff == b % 0x10_0000_0000_0000) by (bit_vector);
    }
    b & 0xf_ffff_ffff_ffff
}

/// Whether the encoding's sign bit is set.
pub fn sign_bit(b: u64) -> (s: bool)
    ensures
        s == sign_of(b),
{
    proof {
        assert((b >= 0x8000_0000_0000_0000) == (b / 0x8000_0000_0000_0000 == 1)) by (bit_vector);
    }
    b >= SIGN_MASK
}

/// Clears the sign bit: the encoding of the absolute value.
pub fn abs_bits(b: u64) -> (r: u64)
    ensures
        !sign_of(r),
        exp_of(r) == exp_of(b),
        frac_of(r) == frac_of(b),
{
    proof {
        assert((b & 0x7fff_ffff_ffff_ffff) / 0x8000_0000_0000_0000 != 1
            && (b & 0x7fff_ffff_ffff_ffff) / 0x10_0000_0000_0000 % 0x800
                == b / 0x10_0000_0000_0000 % 0x800
            && (b & 0x7fff_ffff_ffff_ffff) % 0x10_0000_0000_0000
                == b % 0x10_0000_0000_0000) by (bit_vector);
    }
    b & ABS_MASK
}

/// Flips the sign bit: the encoding of the negated value.
pub fn neg_bits(b: u64) -> (r: u64)
    ensures
        sign_of(r) == !sign_of(b),
        exp_of(r) == exp_of(b),
        frac_of(r) == frac_of(b),
{
    proof {
        assert(((b ^ 0x8000_0000_0000_0000) / 0x8000_0000_0000_0000 == 1)
                == !(b / 0x8000_0000_0000_0000 == 1)
            && (b ^ 0x8000_0000_0000_0000) / 0x10_0000_0000_0000 % 0x800
                == b / 0x10_0000_0000_0000 % 0x800
            && (b ^ 0x8000_0000_0000_0000) % 0x10_0000_0000_0000
                == b % 0x10_0000_0000_0000) by (bit_vector);
    }
    b ^ SIGN_MASK
}

/// The sign utility: the magnitude of `mag` under the sign of `from`.
pub fn copysign_bits(mag: u64, from: u64) -> (r: u64)
    ensures
        sign_of(r) == sign_of(from),
        exp_of(r) == exp_of(mag),
        frac_of(r) == frac_of(mag),
{
    proof {
        assert(((mag & 0x7fff_ffff_ffff_ffff) | (from & 0x8000_0000_0000_0000))
                / 0x8000_0000_0000_0000 == from / 0x8000_0000_0000_0000
            && ((mag & 0x7fff_ffff_ffff_ffff) | (from & 0x8000_0000_0000_0000))
                / 0x10_0000_0000_0000 % 0x800 == mag / 0x10_0000_0000_0000 % 0x800
            && ((mag & 0x7fff_ffff_ffff_ffff) | (from & 0x8000_0000_0000_0000))
                % 0x10_0000_0000_0000 == mag % 0x10_0000_0000_0000
            && from / 0x8000_0000_0000_0000 <= 1) by (bit_vector);
    }
    (mag & ABS_MASK) | (from & SIGN_MASK)
}

/// Whether `b` encodes a NaN.
pub fn is_nan_bits(b: u64) -> (r: bool)
    ensures
        r == is_nan_of(b),
{
    let e = exp_field(b);
    let f = frac_field(b);
    e == EXP_SPECIAL && f != 0
}

/// Whether `b` encodes an infinity.
pub fn is_inf_bits(b: u64) -> (r: bool)
    ensures
        r == is_inf_of(b),
{
    let e = exp_field(b);
    let f = frac_field(b);
    e == EXP_SPECIAL && f == 0
}

/// Whether `b` encodes a zero.
pub fn is_zero_bits(b: u64) -> (r: bool)
    ensures
        r == is_zero_of(b),
{
    let e = exp_field(b);
    let f = frac_field(b);
    e == 0 && f == 0
}

/// A sign-cleared encoding is exactly its exponent and fraction fields.
proof fn lemma_fields_compose(b: u64)
    requires
        !sign_of(b),
    ensures
        b == exp_of(b) * FRAC_LIMIT + frac_of(b),
{
    assert(b / 0x8000_0000_0000_0000 != 1
        ==> b == ((b / 0x10_0000_0000_0000) % 0x800) * 0x10_0000_0000_0000
            + (b % 0x10_0000_0000_0000)) by (bit_vector);
}

/// The magnitude of a nonzero encoding is positive.
pub proof fn lemma_abs_scaled_zero(b: u64)
    ensures
        (abs_scaled(b) == 0) == is_zero_of(b),
        abs_scaled(b) >= 0,
{
    lemma_pow2_pos(scale_of(b));
    if mant_of(b) > 0 {
        lemma_mul_strict_inequality(0, mant_of(b), pow2(scale_of(b)) as int);
    }
}

/// One direction of the order correspondence: a strictly smaller
/// sign-cleared encoding has a strictly smaller magnitude.
proof fn lemma_abs_lt_forward(a: u64, b: u64)
    requires
        !sign_of(a),
        !sign_of(b),
        a < b,
    ensures
        abs_scaled(a) < abs_scaled(b),
{
    lemma_fields_compose(a);
    lemma_fields_compose(b);
    lemma2_to64();
    lemma2_to64_rest();
    let ea = exp_of(a) as int;
    let eb = exp_of(b) as int;
    let ma = mant_of(a);
    let mb = mant_of(b);
    assert(ea <= eb) by (nonlinear_arith)
        requires
            ea * 0x10_0000_0000_0000 + frac_of(a) < eb * 0x10_0000_0000_0000 + frac_of(b),
            frac_of(a) < 0x10_0000_0000_0000,
            frac_of(b) < 0x10_0000_0000_0000,
            0 <= frac_of(a),
            0 <= frac_of(b),
    ;
    if scale_of(a) == scale_of(b) {
        // Same scale (equal exponents, or a subnormal against the smallest
        // normal exponent): the significands compare directly.
        assert(ma < mb);
        lemma_pow2_pos(scale_of(a));
        lemma_mul_strict_inequality(ma, mb, pow2(scale_of(a)) as int);
    } else {
        // Strictly larger scale: the magnitudes live in disjoint ranges.
        assert(eb >= 2);
        assert(ma < 2 * 0x10_0000_0000_0000);
        assert(mb >= 0x10_0000_0000_0000);
        // abs_scaled(a) < 2^53 * 2^scale_a = 2^(53 + scale_a)
        lemma_pow2_pos(scale_of(a));
        lemma_mul_strict_inequality(ma, pow2(53) as int, pow2(scale_of(a)) as int);
        lemma_pow2_adds(53, scale_of(a));
        assert(abs_scaled(a) < pow2(53 + scale_of(a)));
        // abs_scaled(b) >= 2^52 * 2^(eb - 1) = 2^(51 + eb)
        lemma_pow2_adds(52, (eb - 1) as nat);
        assert(pow2(52) * pow2((eb - 1) as nat) == pow2((51 + eb) as nat));
        assert(abs_scaled(b) >= pow2((51 + eb) as nat)) by {
            assert(mb * pow2((eb - 1) as nat) >= pow2(52) * pow2((eb - 1) as nat)) by {
                lemma_mul_inequality(pow2(52) as int, mb, pow2((eb - 1) as nat) as int);
                vstd::arithmetic::mul::lemma_mul_is_commutative(mb, pow2((eb - 1) as nat) as int);
                vstd::arithmetic::mul::lemma_mul_is_commutative(
                    pow2(52) as int,
                    pow2((eb - 1) as nat) as int,
                );
            };
        };
        if 53 + scale_of(a) == (51 + eb) as nat {
            assert(abs_scaled(a) < abs_scaled(b));
        } else {
            assert(53 + scale_of(a) < (51 + eb) as nat);
            lemma_pow2_strictly_increases(53 + scale_of(a), (51 + eb) as nat);
        }
    }
}

/// Signed value order on two non-NaN encodings.
pub fn lt_bits(a: u64, b: u64) -> (r: bool)
    requires
        !is_nan_of(a),
        !is_nan_of(b),
    ensures
        r == val_lt(a, b),
{
    let sa = sign_bit(a);
    let sb = sign_bit(b);
    let aa = abs_bits(a);
    let ab = abs_bits(b);
    proof {
        lemma_abs_lt_iff(aa, ab);
        lemma_abs_lt_iff(ab, aa);
        lemma_abs_scaled_zero(a);
        lemma_abs_scaled_zero(b);
        assert(abs_scaled(aa) == abs_scaled(a));
        assert(abs_scaled(ab) == abs_scaled(b));
    }
    if sa {
        if sb {
            ab < aa
        } else {
            let za = is_zero_bits(a);
            let zb = is_zero_bits(b);
            !(za && zb)
        }
    } else {
        if sb {
            false
        } else {
            aa < ab
        }
    }
}

/// The floating-point decomposition utility: a positive finite nonzero
/// encoding split into a normalized significand and a binary exponent.
/// The result satisfies `value == (m_bits / 2^53) * 2^e` exactly, with
/// `m_bits / 2^53` in `[1/2, 1)`; the equation below is that identity with
/// both sides scaled by `2^(1074 + 53)` so that it stays in integers.
pub fn frexp_bits(b: u64) -> (r: (u64, i32))
    requires
        !sign_of(b),
        is_finite_of(b),
        !is_zero_of(b),
    ensures
        FRAC_LIMIT <= r.0 < 2 * FRAC_LIMIT,
        -1073 <= r.1 <= 1024,
        r.0 * pow2((r.1 + 1074) as nat) == abs_scaled(b) * pow2(53),
        exp_of(b) != 0 ==> r.0 == mant_of(b) && r.1 == exp_of(b) - 1022,
{
    let e = exp_field(b);
    let f = frac_field(b);
    if e >= 1 {
        proof {
            assert(f | 0x10_0000_0000_0000 == f + 0x10_0000_0000_0000) by (bit_vector)
                requires
                    f < 0x10_0000_0000_0000,
            ;
            // mant * 2^(e + 52) == (mant * 2^(e - 1)) * 2^53
            lemma_pow2_adds((e - 1) as nat, 53);
            vstd::arithmetic::mul::lemma_mul_is_associative(
                mant_of(b),
                pow2((e - 1) as nat) as int,
                pow2(53) as int,
            );
        }
        (f | FRAC_LIMIT, e as i32 - 1022)
    } else {
        // Subnormal: shift the fraction up until the hidden-bit position.
        let mut m = f;
        let mut ex: i32 = -1021;
        proof {
            lemma2_to64();
            assert(m == frac_of(b) * pow2((-1021 - ex) as nat));
        }
        while m < FRAC_LIMIT
            invariant
                1 <= m < 2 * FRAC_LIMIT,
                -1073 <= ex <= -1021,
                1 <= frac_of(b) < FRAC_LIMIT,
                m == frac_of(b) * pow2((-1021 - ex) as nat),
            decreases 2 * FRAC_LIMIT - m,
        {
            proof {
                let j = (-1021 - ex) as nat;
                // m is at least 2^j, so the guard bounds j below 52.
                lemma_mul_inequality(1, frac_of(b) as int, pow2(j) as int);
                lemma2_to64();
                lemma2_to64_rest();
                if j >= 52 {
                    if j > 52 {
                        lemma_pow2_strictly_increases(52, j);
                    }
                    assert(false);
                }
                lemma_pow2_adds(j, 1);
                vstd::arithmetic::mul::lemma_mul_is_associative(
                    frac_of(b) as int,
                    pow2(j) as int,
                    2,
                );
            }
            m = m * 2;
            ex = ex - 1;
        }
        proof {
            let j = (-1021 - ex) as nat;
            // Reassemble the ensures equation from the loop invariant.
            lemma_pow2_adds(j, (ex + 1074) as nat);
            vstd::arithmetic::mul::lemma_mul_is_associative(
                frac_of(b) as int,
                pow2(j) as int,
                pow2((ex + 1074) as nat) as int,
            );
            assert(abs_scaled(b) == frac_of(b) * pow2(0));
            lemma2_to64();
        }
        (m, ex)
    }
}

/// Magnitude order coincides with unsigned order on sign-cleared encodings;
/// NaNs excepted, this is the ordering every regime test in the crate uses.
pub proof fn lemma_abs_lt_iff(a: u64, b: u64)
    requires
        !sign_of(a),
        !sign_of(b),
    ensures
        (a < b) == mag_lt(a, b),
        (a == b) == (abs_scaled(a) == abs_scaled(b)),
{
    if a < b {
        lemma_abs_lt_forward(a, b);
    } else if b < a {
        lemma_abs_lt_forward(b, a);
    }
}

} // verus!
