//! Evaluation planning for the scaled complementary error function
//! `erfcx(x) = exp(x^2) * erfc(x)`.
//!
//! The function is defined for every real argument.  On the positive side
//! it decays like `1 / (x * sqrt(pi))` and is evaluated by a power series
//! near the origin, by the Gauss continued fraction over the middle of
//! the range, and by the asymptotic series in `1 / x^2` beyond it.  On
//! the negative side it grows like `2 * exp(x^2)` and is reached through
//! the reflection `erfcx(-x) = 2 * exp(x^2) - erfcx(x)`, until `exp(x^2)`
//! itself leaves the finite range and the result is infinite.  This
//! module verifies the dispatch between those five regimes.

use vstd::prelude::*;

verus! {

use crate::ieee::{
    abs_bits, abs_scaled, is_nan_bits, is_nan_of, is_zero_bits, is_zero_of, lemma_abs_lt_iff,
    lt_bits, mag_lt, sign_bit, sign_of, val_lt, ONE_BITS,
};

/// Bits of `-26.7`: below it `2 * exp(x^2)` overflows every finite
/// double and the result is positive infinity.
pub const NEG_OVERFLOW_LIMIT_BITS: u64 = 0xc03a_b333_3333_3333;

/// Bits of `50`: from it up the asymptotic series in `1 / x^2` holds
/// full precision.
pub const ASYMPTOTIC_LIMIT_BITS: u64 = 0x4049_0000_0000_0000;

/// The plan for `erfcx`.
#[derive(Clone, Copy, Debug, PartialEq, Eq, Structural)]
pub enum ErfcxPlan {
    /// NaN propagates to NaN.
    NanInput,
    /// `x < -26.7`: the result overflows to positive infinity.
    NegOverflow,
    /// `-26.7 <= x < 0`: reflect, `2 * exp(x^2) - erfcx(-x)`.
    NegReflect,
    /// `0 <= x < 1`: power series, scaled by `exp(x^2)`.
    PosSeries,
    /// `1 <= x < 50`: Gauss continued fraction.
    PosContinuedFraction,
    /// `50 <= x`: asymptotic series in `1 / x^2`; infinity decays to zero.
    PosAsymptotic,
}

/// The dispatch of `erfcx` over the exact value model.
pub open spec fn spec_erfcx_plan(b: u64) -> ErfcxPlan {
    if is_nan_of(b) {
        ErfcxPlan::NanInput
    } else if val_lt(b, NEG_OVERFLOW_LIMIT_BITS) {
        ErfcxPlan::NegOverflow
    } else if sign_of(b) && !is_zero_of(b) {
        ErfcxPlan::NegReflect
    } else if mag_lt(b, ONE_BITS) {
        ErfcxPlan::PosSeries
    } else if mag_lt(b, ASYMPTOTIC_LIMIT_BITS) {
        ErfcxPlan::PosContinuedFraction
    } else {
        ErfcxPlan::PosAsymptotic
    }
}

/// Dispatches `erfcx`: every real argument lands in exactly one of the
/// five regimes.
pub fn erfcx_plan(b: u64) -> (p: ErfcxPlan)
    ensures
        p == spec_erfcx_plan(b),
{
    if is_nan_bits(b) {
        return ErfcxPlan::NanInput;
    }
    let a = abs_bits(b);
    proof {
        assert(abs_scaled(a) == abs_scaled(b));
        lemma_abs_lt_iff(a, ONE_BITS);
        lemma_abs_lt_iff(a, ASYMPTOTIC_LIMIT_BITS);
    }
    if lt_bits(b, NEG_OVERFLOW_LIMIT_BITS) {
        ErfcxPlan::NegOverflow
    } else if sign_bit(b) && !is_zero_bits(b) {
        ErfcxPlan::NegReflect
    } else if a < ONE_BITS {
        ErfcxPlan::PosSeries
    } else if a < ASYMPTOTIC_LIMIT_BITS {
        ErfcxPlan::PosContinuedFraction
    } else {
        ErfcxPlan::PosAsymptotic
    }
}

/// The five regimes partition the real line: the two negative ones are
/// selected exactly on the negative arguments, split at `-26.7`, and the
/// three positive ones exactly on the nonnegative arguments (zeros of
/// either sign included), split at `1` and `50`.
pub proof fn lemma_erfcx_partition(b: u64)
    requires
        !is_nan_of(b),
    ensures
        val_lt(NEG_OVERFLOW_LIMIT_BITS, 0u64),
        mag_lt(ONE_BITS, ASYMPTOTIC_LIMIT_BITS),
        ((spec_erfcx_plan(b) is NegOverflow) || (spec_erfcx_plan(b) is NegReflect)) == (sign_of(b)
            && !is_zero_of(b)),
        (spec_erfcx_plan(b) is PosSeries) == ((!sign_of(b) || is_zero_of(b)) && mag_lt(
            b,
            ONE_BITS,
        )),
        (spec_erfcx_plan(b) is PosContinuedFraction) == ((!sign_of(b) || is_zero_of(b))
            && !mag_lt(b, ONE_BITS) && mag_lt(b, ASYMPTOTIC_LIMIT_BITS)),
        (spec_erfcx_plan(b) is PosAsymptotic) == ((!sign_of(b) || is_zero_of(b)) && !mag_lt(
            b,
            ASYMPTOTIC_LIMIT_BITS,
        )),
{
    crate::ieee::lemma_abs_scaled_zero(b);
    crate::ieee::lemma_abs_scaled_zero(NEG_OVERFLOW_LIMIT_BITS);
    lemma_abs_lt_iff(ONE_BITS, ASYMPTOTIC_LIMIT_BITS);
}

} // verus!
