//! Evaluation planning for the gamma and incomplete-gamma engine.
//!
//! The engine's numeric kernels (the rational approximation behind
//! `ln_gamma`, the power series and continued fraction behind `gammp` and
//! `gammq`, and the Halley refinement behind `invgammp`) run in floating
//! point.  What is decided exactly, on the argument's bit pattern, is
//! everything around them: which arguments are inside the documented
//! domain, which ones sit on a pole, which short-circuit answers apply,
//! which initial-guess formula the inverse uses, and — for the reflection
//! identity on negative arguments — the parity of `floor(-x)` that fixes
//! the result's sign, which a naive `sin(pi * x)` evaluation would get
//! wrong near its zeros.  This module verifies those decisions.

use vstd::prelude::*;

verus! {

use vstd::arithmetic::power2::{
    pow2, lemma_pow2_adds, lemma_pow2_pos, lemma_pow2_strictly_increases, lemma2_to64,
    lemma2_to64_rest,
};
use vstd::arithmetic::div_mod::{
    lemma_basic_div, lemma_div_multiples_vanish_fancy, lemma_fundamental_div_mod,
    lemma_mod_multiples_basic, lemma_mod_multiples_vanish, lemma_small_mod,
};
use vstd::arithmetic::mul::lemma_mul_strict_inequality;
use vstd::bits::{lemma_u64_shl_is_mul, lemma_u64_shr_is_div};
use crate::ieee::{
    abs_bits, abs_scaled, exp_field, exp_of, frac_field, frac_of, is_finite_of, is_inf_bits,
    is_inf_of, is_nan_bits, is_nan_of, is_zero_bits, is_zero_of, lemma_abs_lt_iff,
    lemma_abs_scaled_zero, mag_lt, mant_of, scale_of, sign_bit, sign_of, FRAC_LIMIT,
    ONE_BITS,
};

/// The magnitude of a finite encoding rounded down to an integer:
/// `floor(|value|)`, as `abs_scaled` counts in units of `2^-1074`.
pub open spec fn spec_abs_floor(b: u64) -> int {
    abs_scaled(b) / pow2(1074) as int
}

/// Whether a finite encoding holds a mathematical integer.
pub open spec fn spec_is_integer(b: u64) -> bool {
    is_finite_of(b) && abs_scaled(b) % pow2(1074) as int == 0
}

/// Splitting a significand times `2^scale` by `2^1074` is splitting the
/// significand by the remaining power of two.
proof fn lemma_scaled_split(m: int, scale: nat)
    requires
        0 <= m,
        scale <= 1074,
    ensures
        (m * pow2(scale)) % pow2(1074) as int == (m % pow2((1074 - scale) as nat) as int) * pow2(scale),
        (m * pow2(scale)) / pow2(1074) as int == m / pow2((1074 - scale) as nat) as int,
{
    let s = (1074 - scale) as nat;
    lemma_pow2_pos(s);
    lemma_pow2_pos(scale);
    lemma_pow2_pos(1074);
    lemma_pow2_adds(s, scale);
    let ps = pow2(s) as int;
    let pc = pow2(scale) as int;
    let pbig = pow2(1074) as int;
    lemma_fundamental_div_mod(m, ps);
    let q = m / ps;
    let r = m % ps;
    assert(m * pc == pbig * q + r * pc) by (nonlinear_arith)
        requires
            m == ps * q + r,
            pbig == ps * pc,
    ;
    assert(r * pc < pbig) by {
        lemma_mul_strict_inequality(r, ps, pc);
    };
    assert(0 <= r * pc) by (nonlinear_arith)
        requires
            0 <= r,
            0 < pc,
    ;
    lemma_mod_multiples_vanish(q, r * pc, pbig);
    lemma_small_mod((r * pc) as nat, pbig as nat);
    lemma_div_multiples_vanish_fancy(q, r * pc, pbig);
    assert(0 <= r) by {
        lemma_fundamental_div_mod(m, ps);
    };
    assert(0 <= q) by (nonlinear_arith)
        requires
            m == ps * q + r,
            0 <= m,
            r < ps,
            0 < ps,
    ;
}

/// Below the exponent of one, the floor is zero and only zero itself is an
/// integer.
proof fn lemma_floor_small(b: u64)
    requires
        is_finite_of(b),
        exp_of(b) <= 1022,
    ensures
        spec_abs_floor(b) == 0,
        spec_is_integer(b) == is_zero_of(b),
{
    lemma2_to64();
    lemma2_to64_rest();
    lemma_abs_scaled_zero(b);
    assert(abs_scaled(b) < pow2(1074)) by {
        lemma_pow2_pos(scale_of(b));
        lemma_mul_strict_inequality(mant_of(b), pow2(53) as int, pow2(scale_of(b)) as int);
        lemma_pow2_adds(53, scale_of(b));
        if 53 + scale_of(b) < 1074 {
            lemma_pow2_strictly_increases(53 + scale_of(b), 1074);
        }
    };
    lemma_basic_div(abs_scaled(b), pow2(1074) as int);
    lemma_small_mod(abs_scaled(b) as nat, pow2(1074));
}

/// In the band where the fraction field straddles the binary point, floor
/// and integrality are read off the significand shifted by `1075 - exp`.
proof fn lemma_floor_mid(b: u64)
    requires
        is_finite_of(b),
        1023 <= exp_of(b) <= 1075,
    ensures
        spec_abs_floor(b) == mant_of(b) / pow2((1075 - exp_of(b)) as nat) as int,
        spec_is_integer(b) == (mant_of(b) % pow2((1075 - exp_of(b)) as nat) as int == 0),
{
    lemma_scaled_split(mant_of(b), scale_of(b));
    lemma_pow2_pos((1075 - exp_of(b)) as nat);
    lemma_pow2_pos(scale_of(b));
    let r = mant_of(b) % pow2((1075 - exp_of(b)) as nat) as int;
    assert((r * pow2(scale_of(b)) == 0) == (r == 0)) by (nonlinear_arith)
        requires
            0 < pow2(scale_of(b)),
            0 <= r,
    ;
}

/// Above that band every value is an even integer: the units bit has been
/// scaled past the fraction field.
proof fn lemma_floor_large(b: u64)
    requires
        is_finite_of(b),
        exp_of(b) >= 1076,
    ensures
        spec_is_integer(b),
        spec_abs_floor(b) % 2 == 0,
{
    let k = (scale_of(b) - 1074) as nat;
    lemma_pow2_adds(k, 1074);
    lemma_pow2_pos(k);
    lemma_pow2_pos(1074);
    let m = mant_of(b);
    let pk = pow2(k) as int;
    let pbig = pow2(1074) as int;
    assert(abs_scaled(b) == (m * pk) * pbig) by (nonlinear_arith)
        requires
            abs_scaled(b) == m * (pk * pbig),
    ;
    lemma_mod_multiples_basic(m * pk, pbig);
    vstd::arithmetic::div_mod::lemma_div_by_multiple(m * pk, pbig);
    assert(0 <= m * pk) by (nonlinear_arith)
        requires
            0 <= m,
            0 < pk,
    ;
    // k >= 1, so the floor m * 2^k is twice m * 2^(k-1).
    lemma_pow2_adds((k - 1) as nat, 1);
    lemma2_to64();
    assert(m * pk == (m * pow2((k - 1) as nat)) * 2) by (nonlinear_arith)
        requires
            pk == pow2((k - 1) as nat) * 2,
    ;
    lemma_mod_multiples_basic(m * pow2((k - 1) as nat) as int, 2);
}

/// Whether the encoding holds a mathematical integer.  Zeros count;
/// infinities and NaNs do not.
pub fn is_integer_bits(b: u64) -> (r: bool)
    ensures
        r == spec_is_integer(b),
{
    let e = exp_field(b);
    let f = frac_field(b);
    if e == 0x7ff {
        false
    } else if e <= 1022 {
        proof {
            lemma_floor_small(b);
        }
        e == 0 && f == 0
    } else if e >= 1075 {
        proof {
            if e >= 1076 {
                lemma_floor_large(b);
            } else {
                lemma_floor_mid(b);
                lemma2_to64();
                lemma_small_mod(0, 1);
            }
        }
        true
    } else {
        // 1023 <= e <= 1074: the low 1075 - e fraction bits must vanish.
        let s = 1075 - e;
        let pw = 1u64 << s;
        proof {
            lemma_floor_mid(b);
            lemma2_to64();
            lemma2_to64_rest();
            vstd::bits::lemma_u64_pow2_no_overflow(s as nat);
            lemma_u64_shl_is_mul(1u64, s);
            // The hidden bit is a multiple of 2^s, so only the fraction
            // field decides divisibility.
            lemma_pow2_adds((52 - s) as nat, s as nat);
            lemma_pow2_pos((52 - s) as nat);
            lemma_pow2_pos(s as nat);
            assert(mant_of(b) == pow2(s as nat) * pow2((52 - s) as nat) + frac_of(b))
                by (nonlinear_arith)
                requires
                    mant_of(b) == frac_of(b) + pow2(52),
                    pow2(52) == pow2((52 - s) as nat) * pow2(s as nat),
            ;
            lemma_mod_multiples_vanish(
                pow2((52 - s) as nat) as int,
                frac_of(b) as int,
                pow2(s as nat) as int,
            );
            lemma2_to64();
            lemma2_to64_rest();
        }
        f % pw == 0
    }
}

/// Whether `floor(|value|)` of a finite encoding is odd.  For the gamma
/// reflection this is evaluated on the negated argument, where it fixes
/// the sign of `pi / sin(pi * x)` reliably.
pub fn abs_floor_is_odd(b: u64) -> (r: bool)
    requires
        is_finite_of(b),
    ensures
        r == (spec_abs_floor(b) % 2 == 1),
{
    let e = exp_field(b);
    let f = frac_field(b);
    if e <= 1022 {
        proof {
            lemma_floor_small(b);
        }
        false
    } else if e >= 1076 {
        proof {
            lemma_floor_large(b);
        }
        false
    } else {
        // 1023 <= e <= 1075: the floor is the significand shifted down.
        let s = 1075 - e;
        let m = f | FRAC_LIMIT;
        let q = m >> s;
        proof {
            lemma_floor_mid(b);
            assert(f | 0x10_0000_0000_0000 == f + 0x10_0000_0000_0000) by (bit_vector)
                requires
                    f < 0x10_0000_0000_0000,
            ;
            lemma_u64_shr_is_div(m, s);
            lemma2_to64();
            lemma2_to64_rest();
            assert((q & 1) == q % 2) by (bit_vector);
        }
        (q & 1) == 1
    }
}

/// The plan for `ln_gamma`: defined for positive arguments, a NaN domain
/// failure everywhere else, NaN propagated.
#[derive(Clone, Copy, Debug, PartialEq, Eq, Structural)]
pub enum LnGammaPlan {
    NanInput,
    DomainErr,
    Compute,
}

/// The domain decision of `ln_gamma` over the exact value model.
pub open spec fn spec_ln_gamma_plan(b: u64) -> LnGammaPlan {
    if is_nan_of(b) {
        LnGammaPlan::NanInput
    } else if sign_of(b) || is_zero_of(b) {
        LnGammaPlan::DomainErr
    } else {
        LnGammaPlan::Compute
    }
}

/// Validates the domain of `ln_gamma`: the rational approximation runs
/// exactly on the positive arguments.
pub fn ln_gamma_plan(b: u64) -> (p: LnGammaPlan)
    ensures
        p == spec_ln_gamma_plan(b),
{
    if is_nan_bits(b) {
        LnGammaPlan::NanInput
    } else if sign_bit(b) {
        LnGammaPlan::DomainErr
    } else if is_zero_bits(b) {
        LnGammaPlan::DomainErr
    } else {
        LnGammaPlan::Compute
    }
}

/// The plan for `gamma`: the positive path exponentiates `ln_gamma`; the
/// poles at zero and the negative integers (the negative infinite limit
/// included) fail the domain; other negative arguments go through the
/// reflection identity, whose sign is `odd_floor`.
#[derive(Clone, Copy, Debug, PartialEq, Eq, Structural)]
pub enum GammaPlan {
    NanInput,
    Pole,
    Positive,
    Reflection { odd_floor: bool },
}

/// The dispatch of `gamma` over the exact value model.  On the reflection
/// path `sin(pi * x)`, and with it the whole result, is positive exactly
/// when `floor(-x)` is odd, so `odd_floor` fixes the sign.
pub open spec fn spec_gamma_plan(b: u64) -> GammaPlan {
    if is_nan_of(b) {
        GammaPlan::NanInput
    } else if is_zero_of(b) || (sign_of(b) && (is_inf_of(b) || spec_is_integer(b))) {
        GammaPlan::Pole
    } else if !sign_of(b) {
        GammaPlan::Positive
    } else {
        GammaPlan::Reflection { odd_floor: spec_abs_floor(b) % 2 == 1 }
    }
}

/// Dispatches `gamma`: detects the poles exactly on the bit pattern and
/// hands the reflection path the parity of `floor(-x)`.
pub fn gamma_plan(b: u64) -> (p: GammaPlan)
    ensures
        p == spec_gamma_plan(b),
{
    if is_nan_bits(b) {
        GammaPlan::NanInput
    } else if is_zero_bits(b) {
        GammaPlan::Pole
    } else if sign_bit(b) {
        if is_inf_bits(b) || is_integer_bits(b) {
            GammaPlan::Pole
        } else {
            GammaPlan::Reflection { odd_floor: abs_floor_is_odd(b) }
        }
    } else {
        GammaPlan::Positive
    }
}

/// `gamma` exponentiates `ln_gamma` on its positive path, and the two
/// functions agree on what that path is: `gamma` takes it exactly where
/// `ln_gamma` accepts its argument.
pub proof fn lemma_gamma_positive_path(b: u64)
    ensures
        (spec_gamma_plan(b) is Positive) == (spec_ln_gamma_plan(b) is Compute),
{
}

/// The shared domain plan of `gammp` and `gammq`: both need `a > 0` and
/// `x >= 0` and fail with NaN otherwise.  Inside the domain the kernel
/// picks the power series or the continued fraction by the floating-point
/// comparison of `x` against `a + 1`, which belongs to the kernel.
#[derive(Clone, Copy, Debug, PartialEq, Eq, Structural)]
pub enum IncGammaPlan {
    NanInput,
    DomainErr,
    Compute,
}

/// The shared domain decision of the regularized incomplete gammas.
pub open spec fn spec_inc_gamma_plan(a_bits: u64, x_bits: u64) -> IncGammaPlan {
    if is_nan_of(a_bits) || is_nan_of(x_bits) {
        IncGammaPlan::NanInput
    } else if sign_of(a_bits) || is_zero_of(a_bits) || (sign_of(x_bits) && !is_zero_of(x_bits)) {
        IncGammaPlan::DomainErr
    } else {
        IncGammaPlan::Compute
    }
}

/// Validates the shared domain of `gammp` and `gammq`: exactly the pairs
/// with `a > 0` and `x >= 0` reach the kernels.
pub fn inc_gamma_plan(a_bits: u64, x_bits: u64) -> (p: IncGammaPlan)
    ensures
        p == spec_inc_gamma_plan(a_bits, x_bits),
{
    if is_nan_bits(a_bits) || is_nan_bits(x_bits) {
        IncGammaPlan::NanInput
    } else if sign_bit(a_bits) || is_zero_bits(a_bits) {
        IncGammaPlan::DomainErr
    } else if sign_bit(x_bits) && !is_zero_bits(x_bits) {
        IncGammaPlan::DomainErr
    } else {
        IncGammaPlan::Compute
    }
}

/// The plan for `invgammp`: domain `p` in `[0, 1]` and `a > 0`; the edges
/// short-circuit (`p = 0` to zero, `p = 1` to infinity); inside, the
/// initial guess is the power-law formula below `a = 1` and the
/// normal-approximation transform from `a = 1` up.
#[derive(Clone, Copy, Debug, PartialEq, Eq, Structural)]
pub enum InvGammaPlan {
    NanInput,
    DomainErr,
    AtZero,
    AtOne,
    GuessSmall,
    GuessLarge,
}

/// The dispatch of `invgammp` over the exact value model.
pub open spec fn spec_inv_gamma_plan(p_bits: u64, a_bits: u64) -> InvGammaPlan {
    if is_nan_of(p_bits) || is_nan_of(a_bits) {
        InvGammaPlan::NanInput
    } else if sign_of(a_bits) || is_zero_of(a_bits) {
        InvGammaPlan::DomainErr
    } else if sign_of(p_bits) && !is_zero_of(p_bits) {
        InvGammaPlan::DomainErr
    } else if mag_lt(ONE_BITS, p_bits) {
        InvGammaPlan::DomainErr
    } else if is_zero_of(p_bits) {
        InvGammaPlan::AtZero
    } else if abs_scaled(p_bits) == abs_scaled(ONE_BITS) {
        InvGammaPlan::AtOne
    } else if mag_lt(a_bits, ONE_BITS) {
        InvGammaPlan::GuessSmall
    } else {
        InvGammaPlan::GuessLarge
    }
}

/// Dispatches `invgammp`: validates `p` in `[0, 1]` and `a > 0`, peels the
/// two short-circuit edges off, and selects the initial-guess formula.
pub fn inv_gamma_plan(p_bits: u64, a_bits: u64) -> (p: InvGammaPlan)
    ensures
        p == spec_inv_gamma_plan(p_bits, a_bits),
{
    if is_nan_bits(p_bits) || is_nan_bits(a_bits) {
        return InvGammaPlan::NanInput;
    }
    let pa = abs_bits(p_bits);
    let aa = abs_bits(a_bits);
    proof {
        assert(abs_scaled(pa) == abs_scaled(p_bits));
        assert(abs_scaled(aa) == abs_scaled(a_bits));
        lemma_abs_lt_iff(ONE_BITS, pa);
        lemma_abs_lt_iff(pa, ONE_BITS);
        lemma_abs_lt_iff(aa, ONE_BITS);
    }
    if sign_bit(a_bits) || is_zero_bits(a_bits) {
        InvGammaPlan::DomainErr
    } else if sign_bit(p_bits) && !is_zero_bits(p_bits) {
        InvGammaPlan::DomainErr
    } else if pa > ONE_BITS {
        InvGammaPlan::DomainErr
    } else if is_zero_bits(p_bits) {
        InvGammaPlan::AtZero
    } else if pa == ONE_BITS {
        InvGammaPlan::AtOne
    } else if aa < ONE_BITS {
        InvGammaPlan::GuessSmall
    } else {
        InvGammaPlan::GuessLarge
    }
}

} // verus!
