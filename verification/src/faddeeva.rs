//! Evaluation planning for the imaginary part of the Faddeeva function on
//! the real axis (the scaled Dawson integral).
//!
//! The evaluator splits the magnitude of its argument into three regimes:
//! an odd Maclaurin polynomial below `0.51`, panelled Chebyshev
//! interpolation up to `12`, and a truncated asymptotic series above that.
//! Within the first and last regimes the number of series coefficients is
//! itself picked by magnitude, and beyond `6.9e7` only the single leading
//! term survives, which avoids intermediate overflow.  The planner here
//! performs that whole selection on the argument's bit pattern, including
//! the mantissa/exponent split and the table indexing of the Chebyshev
//! regime, and proves that the partition is exhaustive, that every index
//! stays inside the coefficient tables, and that the outcome depends only
//! on the magnitude, never on the sign.

use vstd::prelude::*;

verus! {

use crate::ieee::{
    abs_bits, abs_scaled, exp_field, exp_of, frac_field, frac_of, is_nan_bits, is_nan_of,
    lemma_abs_lt_iff, mag_lt, mant_of, sign_bit, sign_of, FRAC_LIMIT,
};

/// Bits of the magnitude below which the Maclaurin regime applies (0.51).
pub const MACLAURIN_LIMIT_BITS: u64 = 0x3fe0_51eb_851e_b852;

/// Bits of the magnitude below which four Maclaurin coefficients hold full
/// precision (0.003).
pub const MACLAURIN_TINY_BITS: u64 = 0x3f68_9374_bc6a_7efa;

/// Bits of the magnitude below which seven Maclaurin coefficients suffice
/// (0.083).
pub const MACLAURIN_SMALL_BITS: u64 = 0x3fb5_3f7c_ed91_6873;

/// Bits of the magnitude below which ten Maclaurin coefficients suffice
/// (0.272).
pub const MACLAURIN_MID_BITS: u64 = 0x3fd1_6872_b020_c49c;

/// Bits of the magnitude below which the Chebyshev regime applies (12).
pub const CHEBYSHEV_LIMIT_BITS: u64 = 0x4028_0000_0000_0000;

/// Bits of the magnitude below which the asymptotic series keeps ten extra
/// terms (23.2).
pub const ASYMPTOTIC_NEAR_BITS: u64 = 0x4037_3333_3333_3333;

/// Bits of the magnitude below which six extra asymptotic terms suffice
/// (150).
pub const ASYMPTOTIC_MID_BITS: u64 = 0x4062_c000_0000_0000;

/// Bits of the magnitude beyond which only the leading asymptotic term is
/// safe from intermediate overflow (6.9e7).
pub const ASYMPTOTIC_FAR_BITS: u64 = 0x4190_736d_0000_0000;

/// Panels per octave of magnitude: the subdivision factor 2^6.
pub const PANELS_PER_OCTAVE: usize = 64;

/// Chebyshev coefficients per panel in the main table.
pub const PANEL_TERMS: usize = 8;

/// Low-order correction coefficients per panel in the second table.
pub const CORRECTION_TERMS: usize = 2;

/// Panels covering the Chebyshev regime; the octaves reach [8, 16) but the
/// regime is clipped at 12, so the last quarter of the last octave is
/// never indexed.
pub const PANEL_COUNT: usize = 288;

/// Length of the main Chebyshev coefficient table.
pub const MAIN_TABLE_LEN: usize = PANEL_COUNT * PANEL_TERMS;

/// Length of the low-order correction coefficient table.
pub const CORRECTION_TABLE_LEN: usize = PANEL_COUNT * CORRECTION_TERMS;

/// The approximation strategy selected for one argument magnitude.
#[derive(Clone, Copy, Debug, PartialEq, Eq, Structural)]
pub enum ImwMethod {
    /// NaN propagates to NaN.
    NanInput,
    /// Odd Maclaurin polynomial: `coeffs` coefficients applied to powers
    /// `x, x^3, ..., x^(2 * coeffs - 1)`.
    Maclaurin { coeffs: usize },
    /// Panelled Chebyshev interpolation on the magnitude's normalized
    /// significand `m_bits` (scaled by 2^53): sub-panel `ip` within the
    /// octave, flat panel number `panel`, the offsets `p_base` and
    /// `q_base` of the panel's blocks in the two coefficient tables, and
    /// the interpolation variable `t = t_num / 2^45` as its exact
    /// integer numerator.
    Chebyshev { m_bits: u64, ip: usize, panel: usize, p_base: usize, q_base: usize, t_num: i64 },
    /// Truncated asymptotic series in `1/x`: `coeffs` coefficients, the
    /// leading one included.
    Asymptotic { coeffs: usize },
    /// The single leading asymptotic term.
    AsymptoticLead,
}

/// A full evaluation plan: the method for the magnitude, and whether the
/// result must be negated (the function is odd).
#[derive(Clone, Copy, Debug, PartialEq, Eq, Structural)]
pub struct ImwPlan {
    pub negate: bool,
    pub method: ImwMethod,
}

/// The sub-panel index within an octave: `floor(128 * m)` for the
/// normalized mantissa `m` in `[1/2, 1)`.
pub open spec fn spec_panel_ip(b: u64) -> int {
    mant_of(b) / 0x4000_0000_0000
}

/// The flat panel number of magnitude `b` inside the Chebyshev regime.
pub open spec fn spec_panel(b: u64) -> int {
    (exp_of(b) - 1022) * 64 + spec_panel_ip(b) - 64
}

/// The numerator of the local interpolation variable
/// `t = 256 * m - (1 + 2 * ip)`, scaled by 2^45 to stay an integer.
pub open spec fn spec_t_num(b: u64) -> int {
    mant_of(b) - (2 * spec_panel_ip(b) + 1) * 0x2000_0000_0000
}

/// The strategy the evaluator uses for an argument with bit pattern `b`:
/// the magnitude regimes of the evaluator, written over the exact integer
/// magnitude `abs_scaled`.
pub open spec fn spec_imw_method(b: u64) -> ImwMethod {
    if is_nan_of(b) {
        ImwMethod::NanInput
    } else if mag_lt(b, MACLAURIN_LIMIT_BITS) {
        if mag_lt(b, MACLAURIN_TINY_BITS) {
            ImwMethod::Maclaurin { coeffs: 4 }
        } else if mag_lt(b, MACLAURIN_SMALL_BITS) {
            ImwMethod::Maclaurin { coeffs: 7 }
        } else if mag_lt(b, MACLAURIN_MID_BITS) {
            ImwMethod::Maclaurin { coeffs: 10 }
        } else {
            ImwMethod::Maclaurin { coeffs: 13 }
        }
    } else if mag_lt(b, CHEBYSHEV_LIMIT_BITS) {
        ImwMethod::Chebyshev {
            m_bits: mant_of(b) as u64,
            ip: spec_panel_ip(b) as usize,
            panel: spec_panel(b) as usize,
            p_base: (spec_panel(b) * 8) as usize,
            q_base: (spec_panel(b) * 2) as usize,
            t_num: spec_t_num(b) as i64,
        }
    } else if mag_lt(b, ASYMPTOTIC_NEAR_BITS) {
        ImwMethod::Asymptotic { coeffs: 11 }
    } else if mag_lt(b, ASYMPTOTIC_MID_BITS) {
        ImwMethod::Asymptotic { coeffs: 7 }
    } else if mag_lt(b, ASYMPTOTIC_FAR_BITS) {
        ImwMethod::Asymptotic { coeffs: 4 }
    } else {
        ImwMethod::AsymptoticLead
    }
}

/// Selects the evaluation strategy for the argument with bit pattern `b`.
///
/// The method is exactly `spec_imw_method(b)`; in the Chebyshev regime the
/// significand, sub-panel and table offsets are returned with the proof
/// that both table lookups stay in bounds.  The sub-panel brackets the
/// significand within one 2^46-wide slot, which pins the interpolation
/// variable `t = 256 * m - (1 + 2 * ip)` inside `[-1, 1)`.
pub fn im_w_plan(b: u64) -> (p: ImwPlan)
    ensures
        p.negate == sign_of(b),
        p.method == spec_imw_method(b),
        (p.method matches ImwMethod::Chebyshev { m_bits, ip, panel, p_base, q_base, t_num } ==> {
            &&& FRAC_LIMIT <= m_bits < 2 * FRAC_LIMIT
            &&& 64 <= ip <= 127
            &&& ip * 0x4000_0000_0000 <= m_bits < (ip + 1) * 0x4000_0000_0000
            &&& 1 <= panel < PANEL_COUNT
            &&& p_base == panel * 8 && p_base + PANEL_TERMS <= MAIN_TABLE_LEN
            &&& q_base == panel * 2 && q_base + CORRECTION_TERMS <= CORRECTION_TABLE_LEN
            &&& t_num == m_bits - (2 * ip + 1) * 0x2000_0000_0000
            &&& -0x2000_0000_0000 <= t_num < 0x2000_0000_0000
        }),
{
    let negate = sign_bit(b);
    if is_nan_bits(b) {
        return ImwPlan { negate, method: ImwMethod::NanInput };
    }
    let a = abs_bits(b);
    proof {
        assert(abs_scaled(a) == abs_scaled(b));
        lemma_abs_lt_iff(a, MACLAURIN_TINY_BITS);
        lemma_abs_lt_iff(a, MACLAURIN_SMALL_BITS);
        lemma_abs_lt_iff(a, MACLAURIN_MID_BITS);
        lemma_abs_lt_iff(a, MACLAURIN_LIMIT_BITS);
        lemma_abs_lt_iff(a, CHEBYSHEV_LIMIT_BITS);
        lemma_abs_lt_iff(a, ASYMPTOTIC_NEAR_BITS);
        lemma_abs_lt_iff(a, ASYMPTOTIC_MID_BITS);
        lemma_abs_lt_iff(a, ASYMPTOTIC_FAR_BITS);
    }
    if a < MACLAURIN_LIMIT_BITS {
        let method = if a < MACLAURIN_TINY_BITS {
            ImwMethod::Maclaurin { coeffs: 4 }
        } else if a < MACLAURIN_SMALL_BITS {
            ImwMethod::Maclaurin { coeffs: 7 }
        } else if a < MACLAURIN_MID_BITS {
            ImwMethod::Maclaurin { coeffs: 10 }
        } else {
            ImwMethod::Maclaurin { coeffs: 13 }
        };
        ImwPlan { negate, method }
    } else if a < CHEBYSHEV_LIMIT_BITS {
        let e = exp_field(a);
        let f = frac_field(a);
        proof {
            assert(0x3fe0_51eb_851e_b852 <= a < 0x4028_0000_0000_0000
                ==> {
                    &&& 1022 <= a / 0x10_0000_0000_0000 % 0x800 <= 1026
                    &&& (a / 0x10_0000_0000_0000 % 0x800 == 1026
                        ==> a % 0x10_0000_0000_0000 < 0x8_0000_0000_0000)
                    &&& (a / 0x10_0000_0000_0000 % 0x800 == 1022
                        ==> a % 0x10_0000_0000_0000 >= 0x51eb_851e_b852)
                }) by (bit_vector);
            assert(f | 0x10_0000_0000_0000 == f + 0x10_0000_0000_0000) by (bit_vector)
                requires
                    f < 0x10_0000_0000_0000,
            ;
        }
        let m_bits = f | FRAC_LIMIT;
        let ip = (m_bits >> 46u64) as usize;
        proof {
            assert(m_bits >> 46u64 == m_bits / 0x4000_0000_0000) by (bit_vector);
            assert(64 <= m_bits >> 46u64 <= 127) by (bit_vector)
                requires
                    0x10_0000_0000_0000 <= m_bits < 0x20_0000_0000_0000,
            ;
            assert(m_bits < 0x18_0000_0000_0000 ==> m_bits >> 46u64 <= 95) by (bit_vector);
            assert(m_bits >= 0x15_1eb8_51eb_8520 ==> m_bits >> 46u64 >= 65) by (bit_vector);
            assert((m_bits >> 46u64) * 0x4000_0000_0000 <= m_bits
                && m_bits < ((m_bits >> 46u64) + 1) * 0x4000_0000_0000) by (bit_vector)
                requires
                    m_bits < 0x20_0000_0000_0000,
            ;
        }
        let panel = (e as usize - 1022) * PANELS_PER_OCTAVE + ip - 64;
        let t_num = m_bits as i64 - (2 * ip as i64 + 1) * 0x2000_0000_0000;
        ImwPlan {
            negate,
            method: ImwMethod::Chebyshev {
                m_bits,
                ip,
                panel,
                p_base: panel * 8,
                q_base: panel * 2,
                t_num,
            },
        }
    } else if a < ASYMPTOTIC_NEAR_BITS {
        ImwPlan { negate, method: ImwMethod::Asymptotic { coeffs: 11 } }
    } else if a < ASYMPTOTIC_MID_BITS {
        ImwPlan { negate, method: ImwMethod::Asymptotic { coeffs: 7 } }
    } else if a < ASYMPTOTIC_FAR_BITS {
        ImwPlan { negate, method: ImwMethod::Asymptotic { coeffs: 4 } }
    } else {
        ImwPlan { negate, method: ImwMethod::AsymptoticLead }
    }
}

/// The strategy depends only on the magnitude: negating the argument (any
/// encoding `nb` with the sign flipped and all other fields unchanged)
/// leaves the method untouched.  Since `im_w_plan` records the sign solely
/// in `negate`, the evaluator is odd by construction in every regime.
pub proof fn lemma_imw_method_ignores_sign(b: u64, nb: u64)
    requires
        exp_of(nb) == exp_of(b),
        frac_of(nb) == frac_of(b),
    ensures
        spec_imw_method(nb) == spec_imw_method(b),
{
    assert(abs_scaled(nb) == abs_scaled(b));
}

/// The regime breakpoints partition the whole magnitude axis: they are
/// strictly increasing, and each strategy is selected exactly on its own
/// interval, boundaries resolved toward the upper regime.
pub proof fn lemma_imw_partition(b: u64)
    requires
        !is_nan_of(b),
    ensures
        mag_lt(MACLAURIN_TINY_BITS, MACLAURIN_SMALL_BITS),
        mag_lt(MACLAURIN_SMALL_BITS, MACLAURIN_MID_BITS),
        mag_lt(MACLAURIN_MID_BITS, MACLAURIN_LIMIT_BITS),
        mag_lt(MACLAURIN_LIMIT_BITS, CHEBYSHEV_LIMIT_BITS),
        mag_lt(CHEBYSHEV_LIMIT_BITS, ASYMPTOTIC_NEAR_BITS),
        mag_lt(ASYMPTOTIC_NEAR_BITS, ASYMPTOTIC_MID_BITS),
        mag_lt(ASYMPTOTIC_MID_BITS, ASYMPTOTIC_FAR_BITS),
        (spec_imw_method(b) matches ImwMethod::Maclaurin { .. }) == mag_lt(
            b,
            MACLAURIN_LIMIT_BITS,
        ),
        (spec_imw_method(b) matches ImwMethod::Chebyshev { .. }) == (!mag_lt(
            b,
            MACLAURIN_LIMIT_BITS,
        ) && mag_lt(b, CHEBYSHEV_LIMIT_BITS)),
        ((spec_imw_method(b) matches ImwMethod::Asymptotic { .. }) || spec_imw_method(
            b,
        ) is AsymptoticLead) == !mag_lt(b, CHEBYSHEV_LIMIT_BITS),
{
    lemma_abs_lt_iff(MACLAURIN_TINY_BITS, MACLAURIN_SMALL_BITS);
    lemma_abs_lt_iff(MACLAURIN_SMALL_BITS, MACLAURIN_MID_BITS);
    lemma_abs_lt_iff(MACLAURIN_MID_BITS, MACLAURIN_LIMIT_BITS);
    lemma_abs_lt_iff(MACLAURIN_LIMIT_BITS, CHEBYSHEV_LIMIT_BITS);
    lemma_abs_lt_iff(CHEBYSHEV_LIMIT_BITS, ASYMPTOTIC_NEAR_BITS);
    lemma_abs_lt_iff(ASYMPTOTIC_NEAR_BITS, ASYMPTOTIC_MID_BITS);
    lemma_abs_lt_iff(ASYMPTOTIC_MID_BITS, ASYMPTOTIC_FAR_BITS);
}

} // verus!
