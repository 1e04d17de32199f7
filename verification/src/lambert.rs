//! Evaluation planning for the two real branches of the Lambert W
//! function, solving `w * exp(w) = x`.
//!
//! The principal branch `lambert_w0` is defined for `x >= -1/e`, the
//! secondary branch `lambert_wm1` for `-1/e <= x < 0`; everything below
//! the branch point is a NaN domain failure, and the branch point itself
//! returns exactly `-1`.  Away from the short-circuits a solver picks an
//! initial estimate by regime — a square-root series next to the branch
//! point, a logarithmic estimate toward the ends of the domain, an
//! estimate built from ln(1 + x) in between — and then runs a fixed number of
//! cubically convergent Fritsch updates.  The single-pass reduced-accuracy
//! variants dispatch through the same plans and merely stop refining
//! early.  This module verifies the dispatch: the domain boundary is
//! honored exactly, bit for bit, and every argument lands in exactly one
//! regime.

use vstd::prelude::*;

verus! {

use crate::ieee::{
    abs_bits, abs_scaled, is_inf_bits, is_inf_of, is_nan_bits, is_nan_of, is_zero_bits,
    is_zero_of, lemma_abs_lt_iff, lt_bits, sign_bit, sign_of, val_lt, ONE_BITS,
};

/// Bits of the magnitude of the branch point: the double nearest `1/e`.
pub const INV_E_BITS: u64 = 0x3fd7_8b56_362c_ef38;

/// Bits of the branch point `-1/e` itself.
pub const NEG_INV_E_BITS: u64 = 0xbfd7_8b56_362c_ef38;

/// Bits of `-0.3`: below it the principal branch starts from the
/// square-root series around the branch point.
pub const W0_NEAR_BRANCH_LIMIT_BITS: u64 = 0xbfd3_3333_3333_3333;

/// Bits of the double nearest `e`: above it the principal branch starts
/// from the logarithmic estimate.
pub const W0_LOG_LIMIT_BITS: u64 = 0x4005_bf0a_8b14_5769;

/// Bits of `-0.25`: below it the secondary branch starts from the
/// square-root series, from it up from the logarithmic estimate.
pub const WM1_NEAR_BRANCH_LIMIT_BITS: u64 = 0xbfd0_0000_0000_0000;

/// The plan for the principal branch `lambert_w0`.
#[derive(Clone, Copy, Debug, PartialEq, Eq, Structural)]
pub enum W0Plan {
    /// NaN propagates to NaN.
    NanInput,
    /// `x < -1/e`: outside the domain, NaN.
    BelowBranch,
    /// `x == -1/e` exactly: the result is exactly `-1`.
    AtBranch,
    /// `x == 0` (either sign): the result is `x` itself.
    AtZero,
    /// `x == +inf`: the result is `+inf`.
    Infinite,
    /// `-1/e < x < -0.3`: square-root series estimate, then refinement.
    NearBranch,
    /// `-0.3 <= x <= e`: estimate from ln(1 + x), then refinement.
    Central,
    /// `x > e`: logarithmic estimate, then refinement.
    LogLarge,
}

/// The plan for the secondary branch `lambert_wm1`.
#[derive(Clone, Copy, Debug, PartialEq, Eq, Structural)]
pub enum Wm1Plan {
    /// NaN propagates to NaN.
    NanInput,
    /// `x < -1/e`: outside the domain, NaN.
    BelowBranch,
    /// `x == -1/e` exactly: the result is exactly `-1`.
    AtBranch,
    /// `x >= 0` (zeros included): outside the domain, NaN.
    NonNegative,
    /// `-1/e < x < -0.25`: square-root series estimate, then refinement.
    NearBranch,
    /// `-0.25 <= x < 0`: logarithmic estimate, then refinement.
    LogNearZero,
}

/// The dispatch of the principal branch over the exact value model.
pub open spec fn spec_w0_plan(b: u64) -> W0Plan {
    if is_nan_of(b) {
        W0Plan::NanInput
    } else if val_lt(b, NEG_INV_E_BITS) {
        W0Plan::BelowBranch
    } else if sign_of(b) && abs_scaled(b) == abs_scaled(NEG_INV_E_BITS) {
        W0Plan::AtBranch
    } else if is_zero_of(b) {
        W0Plan::AtZero
    } else if is_inf_of(b) {
        W0Plan::Infinite
    } else if val_lt(b, W0_NEAR_BRANCH_LIMIT_BITS) {
        W0Plan::NearBranch
    } else if val_lt(W0_LOG_LIMIT_BITS, b) {
        W0Plan::LogLarge
    } else {
        W0Plan::Central
    }
}

/// The dispatch of the secondary branch over the exact value model.
pub open spec fn spec_wm1_plan(b: u64) -> Wm1Plan {
    if is_nan_of(b) {
        Wm1Plan::NanInput
    } else if val_lt(b, NEG_INV_E_BITS) {
        Wm1Plan::BelowBranch
    } else if sign_of(b) && abs_scaled(b) == abs_scaled(NEG_INV_E_BITS) {
        Wm1Plan::AtBranch
    } else if !sign_of(b) || is_zero_of(b) {
        Wm1Plan::NonNegative
    } else if val_lt(b, WM1_NEAR_BRANCH_LIMIT_BITS) {
        Wm1Plan::NearBranch
    } else {
        Wm1Plan::LogNearZero
    }
}

/// Dispatches the principal branch `lambert_w0`.
pub fn w0_plan(b: u64) -> (p: W0Plan)
    ensures
        p == spec_w0_plan(b),
{
    if is_nan_bits(b) {
        return W0Plan::NanInput;
    }
    let a = abs_bits(b);
    proof {
        assert(abs_scaled(a) == abs_scaled(b));
        lemma_abs_lt_iff(a, INV_E_BITS);
        lemma_abs_lt_iff(INV_E_BITS, a);
    }
    if lt_bits(b, NEG_INV_E_BITS) {
        W0Plan::BelowBranch
    } else if sign_bit(b) && a == INV_E_BITS {
        W0Plan::AtBranch
    } else if is_zero_bits(b) {
        W0Plan::AtZero
    } else if is_inf_bits(b) {
        W0Plan::Infinite
    } else if lt_bits(b, W0_NEAR_BRANCH_LIMIT_BITS) {
        W0Plan::NearBranch
    } else if lt_bits(W0_LOG_LIMIT_BITS, b) {
        W0Plan::LogLarge
    } else {
        W0Plan::Central
    }
}

/// Dispatches the secondary branch `lambert_wm1`.
pub fn wm1_plan(b: u64) -> (p: Wm1Plan)
    ensures
        p == spec_wm1_plan(b),
{
    if is_nan_bits(b) {
        return Wm1Plan::NanInput;
    }
    let a = abs_bits(b);
    proof {
        assert(abs_scaled(a) == abs_scaled(b));
        lemma_abs_lt_iff(a, INV_E_BITS);
        lemma_abs_lt_iff(INV_E_BITS, a);
    }
    if lt_bits(b, NEG_INV_E_BITS) {
        Wm1Plan::BelowBranch
    } else if sign_bit(b) && a == INV_E_BITS {
        Wm1Plan::AtBranch
    } else if !sign_bit(b) || is_zero_bits(b) {
        Wm1Plan::NonNegative
    } else if lt_bits(b, WM1_NEAR_BRANCH_LIMIT_BITS) {
        Wm1Plan::NearBranch
    } else {
        Wm1Plan::LogNearZero
    }
}

/// Domain boundary exclusivity of both branches: everything strictly
/// below the branch point `-1/e` — the argument `-1` among it — is
/// rejected with the NaN plan by the principal and the secondary branch
/// alike, while the branch point itself is answered exactly.
pub proof fn lemma_lambert_domain_boundary(b: u64)
    requires
        !is_nan_of(b),
    ensures
        val_lt(b, NEG_INV_E_BITS) ==> spec_w0_plan(b) is BelowBranch && spec_wm1_plan(
            b,
        ) is BelowBranch,
        val_lt(0xbff0_0000_0000_0000, NEG_INV_E_BITS),
        spec_w0_plan(NEG_INV_E_BITS) is AtBranch,
        spec_wm1_plan(NEG_INV_E_BITS) is AtBranch,
{
    lemma_abs_lt_iff(INV_E_BITS, ONE_BITS);
    assert(abs_scaled(0xbff0_0000_0000_0000) == abs_scaled(ONE_BITS));
    assert(abs_scaled(NEG_INV_E_BITS) == abs_scaled(INV_E_BITS));
}

/// The breakpoints of both branches are totally ordered on the value
/// axis: `-1/e < -0.3 < -0.25 < 0 < e`, so each guess regime sits on its
/// own interval of the domain.
pub proof fn lemma_lambert_breakpoints_ordered()
    ensures
        val_lt(NEG_INV_E_BITS, W0_NEAR_BRANCH_LIMIT_BITS),
        val_lt(W0_NEAR_BRANCH_LIMIT_BITS, WM1_NEAR_BRANCH_LIMIT_BITS),
        val_lt(WM1_NEAR_BRANCH_LIMIT_BITS, 0u64),
        val_lt(0u64, W0_LOG_LIMIT_BITS),
{
    lemma_abs_lt_iff(0x3fd3_3333_3333_3333, INV_E_BITS);
    lemma_abs_lt_iff(0x3fd0_0000_0000_0000, 0x3fd3_3333_3333_3333);
    assert(abs_scaled(NEG_INV_E_BITS) == abs_scaled(INV_E_BITS));
    assert(abs_scaled(W0_NEAR_BRANCH_LIMIT_BITS) == abs_scaled(0x3fd3_3333_3333_3333));
    assert(abs_scaled(WM1_NEAR_BRANCH_LIMIT_BITS) == abs_scaled(0x3fd0_0000_0000_0000));
    crate::ieee::lemma_abs_scaled_zero(WM1_NEAR_BRANCH_LIMIT_BITS);
    crate::ieee::lemma_abs_scaled_zero(W0_LOG_LIMIT_BITS);
    crate::ieee::lemma_abs_scaled_zero(0u64);
}

} // verus!
