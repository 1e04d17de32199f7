//! The Faddeeva planner: breakpoint constants, regime selection, panel
//! indexing, and oddness of the plan.

use puruspe::faddeeva::{
    im_w_plan, ImwMethod, ASYMPTOTIC_FAR_BITS, ASYMPTOTIC_MID_BITS, ASYMPTOTIC_NEAR_BITS,
    CHEBYSHEV_LIMIT_BITS, CORRECTION_TABLE_LEN, MACLAURIN_LIMIT_BITS, MACLAURIN_MID_BITS,
    MACLAURIN_SMALL_BITS, MACLAURIN_TINY_BITS, MAIN_TABLE_LEN,
};

#[test]
fn test_breakpoint_constants_encode_the_breakpoints() {
    assert_eq!(MACLAURIN_TINY_BITS, 0.003f64.to_bits());
    assert_eq!(MACLAURIN_SMALL_BITS, 0.083f64.to_bits());
    assert_eq!(MACLAURIN_MID_BITS, 0.272f64.to_bits());
    assert_eq!(MACLAURIN_LIMIT_BITS, 0.51f64.to_bits());
    assert_eq!(CHEBYSHEV_LIMIT_BITS, 12.0f64.to_bits());
    assert_eq!(ASYMPTOTIC_NEAR_BITS, 23.2f64.to_bits());
    assert_eq!(ASYMPTOTIC_MID_BITS, 150.0f64.to_bits());
    assert_eq!(ASYMPTOTIC_FAR_BITS, 6.9e7f64.to_bits());
}

#[test]
fn test_imw_regime_selection() {
    let cases: Vec<(f64, ImwMethod)> = vec![
        (0.0, ImwMethod::Maclaurin { coeffs: 4 }),
        (0.0029, ImwMethod::Maclaurin { coeffs: 4 }),
        (0.003, ImwMethod::Maclaurin { coeffs: 7 }),
        (0.08, ImwMethod::Maclaurin { coeffs: 7 }),
        (0.083, ImwMethod::Maclaurin { coeffs: 10 }),
        (0.27, ImwMethod::Maclaurin { coeffs: 10 }),
        (0.272, ImwMethod::Maclaurin { coeffs: 13 }),
        (0.5099, ImwMethod::Maclaurin { coeffs: 13 }),
        (12.0, ImwMethod::Asymptotic { coeffs: 11 }),
        (23.0, ImwMethod::Asymptotic { coeffs: 11 }),
        (23.2, ImwMethod::Asymptotic { coeffs: 7 }),
        (149.0, ImwMethod::Asymptotic { coeffs: 7 }),
        (150.0, ImwMethod::Asymptotic { coeffs: 4 }),
        (6.8e7, ImwMethod::Asymptotic { coeffs: 4 }),
        (6.9e7, ImwMethod::AsymptoticLead),
        (1e300, ImwMethod::AsymptoticLead),
        (f64::INFINITY, ImwMethod::AsymptoticLead),
    ];
    for (x, expected) in cases {
        assert_eq!(im_w_plan(x.to_bits()).method, expected, "regime of {x:e}");
        assert_eq!(
            im_w_plan((-x).to_bits()).method,
            expected,
            "regime of {:e}",
            -x
        );
    }
    assert!(matches!(
        im_w_plan(0.51f64.to_bits()).method,
        ImwMethod::Chebyshev { .. }
    ));
    assert!(matches!(
        im_w_plan(11.999f64.to_bits()).method,
        ImwMethod::Chebyshev { .. }
    ));
    assert_eq!(im_w_plan(f64::NAN.to_bits()).method, ImwMethod::NanInput);
}

#[test]
fn test_plan_is_odd() {
    let xs: Vec<f64> = vec![
        0.001, 0.05, 0.1, 0.3, 0.509, 0.51, 0.52, 1.0, 7.3, 11.9, 12.0, 12.1, 20.0, 23.2, 100.0,
        150.0, 1e6, 6.9e7, 1e200,
    ];
    for x in xs {
        let plus = im_w_plan(x.to_bits());
        let minus = im_w_plan((-x).to_bits());
        assert_eq!(plus.method, minus.method, "method at |x| = {x:e}");
        assert!(!plus.negate);
        assert!(minus.negate);
    }
}

/// The mantissa/exponent split of a positive normal double, as the
/// Chebyshev lookup uses it: `x == m * 2^e` with `m` in `[1/2, 1)`.
fn frexp(x: f64) -> (f64, i32) {
    let bits = x.to_bits();
    let e = ((bits >> 52) & 0x7ff) as i32 - 1022;
    let m = f64::from_bits((bits & 0xf_ffff_ffff_ffff) | (1022u64 << 52));
    (m, e)
}

#[test]
fn test_panel_indexing_matches_float_arithmetic() {
    // Sweep the whole Chebyshev band and check the verified integer
    // indexing against the panel arithmetic done in floating point.
    let mut x = 0.51f64;
    while x < 12.0 {
        let (xm, je) = frexp(x);
        let ip_float = (128.0 * xm) as i32;
        let lij_float = je * 64 + ip_float - 64;
        match im_w_plan(x.to_bits()).method {
            ImwMethod::Chebyshev {
                m_bits,
                ip,
                panel,
                p_base,
                q_base,
                t_num,
            } => {
                assert_eq!(xm, (m_bits as f64) / (2.0f64).powi(53), "mantissa at {x}");
                assert_eq!(ip as i32, ip_float, "sub-panel at {x}");
                assert_eq!(panel as i32, lij_float, "panel at {x}");
                assert_eq!(p_base, panel * 8);
                assert_eq!(q_base, panel * 2);
                assert!(p_base + 8 <= MAIN_TABLE_LEN);
                assert!(q_base + 2 <= CORRECTION_TABLE_LEN);
                // The interpolation variable, recovered exactly from its
                // integer numerator, matches the float arithmetic and
                // stays inside [-1, 1).
                let t = 256.0 * xm - (1 + 2 * ip as i32) as f64;
                assert_eq!(t, (t_num as f64) * (2.0f64).powi(-45), "t at {x}");
                assert!((-1.0..1.0).contains(&t), "t = {t} at {x}");
            }
            other => panic!("expected the Chebyshev regime at {x}, got {other:?}"),
        }
        x += 0.0137;
    }
}

#[test]
fn test_panel_range_over_band_edges() {
    let first = im_w_plan(0.51f64.to_bits()).method;
    match first {
        ImwMethod::Chebyshev { panel, .. } => assert_eq!(panel, 1),
        _ => panic!("0.51 must be in the Chebyshev regime"),
    }
    let last = im_w_plan(11.999999999f64.to_bits()).method;
    match last {
        ImwMethod::Chebyshev { panel, .. } => assert_eq!(panel, 287),
        _ => panic!("just below 12 must be in the Chebyshev regime"),
    }
}
