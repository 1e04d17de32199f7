//! The bit-level value model against the host's double arithmetic: field
//! extraction, sign transfer, ordering, and the mantissa/exponent split.

use puruspe::ieee::{
    abs_bits, copysign_bits, exp_field, frac_field, frexp_bits, is_inf_bits, is_nan_bits,
    is_zero_bits, lt_bits, neg_bits, sign_bit,
};

fn samples() -> Vec<f64> {
    vec![
        0.0,
        -0.0,
        1.0,
        -1.0,
        0.51,
        -0.51,
        0.003,
        12.0,
        23.2,
        150.0,
        6.9e7,
        1e-10,
        1e10,
        5e-324,
        -5e-324,
        1e-310,
        -1e-310,
        f64::MIN_POSITIVE,
        f64::MAX,
        -f64::MAX,
        f64::INFINITY,
        f64::NEG_INFINITY,
    ]
}

#[test]
fn test_field_extraction() {
    for x in samples() {
        let b = x.to_bits();
        assert_eq!(exp_field(b), (b >> 52) & 0x7ff);
        assert_eq!(frac_field(b), b & 0xf_ffff_ffff_ffff);
        assert_eq!(sign_bit(b), x.is_sign_negative());
    }
}

#[test]
fn test_abs_and_neg() {
    for x in samples() {
        let b = x.to_bits();
        assert_eq!(abs_bits(b), x.abs().to_bits());
        assert_eq!(neg_bits(b), (-x).to_bits());
    }
}

#[test]
fn test_copysign_matches_std() {
    for mag in samples() {
        for from in samples() {
            let r = copysign_bits(mag.to_bits(), from.to_bits());
            assert_eq!(r, mag.copysign(from).to_bits());
        }
    }
}

#[test]
fn test_predicates() {
    assert!(is_nan_bits(f64::NAN.to_bits()));
    assert!(!is_nan_bits(f64::INFINITY.to_bits()));
    assert!(is_inf_bits(f64::INFINITY.to_bits()));
    assert!(is_inf_bits(f64::NEG_INFINITY.to_bits()));
    assert!(!is_inf_bits(f64::MAX.to_bits()));
    assert!(is_zero_bits(0.0f64.to_bits()));
    assert!(is_zero_bits((-0.0f64).to_bits()));
    assert!(!is_zero_bits(5e-324f64.to_bits()));
}

#[test]
fn test_lt_bits_matches_float_order() {
    for a in samples() {
        for b in samples() {
            assert_eq!(
                lt_bits(a.to_bits(), b.to_bits()),
                a < b,
                "order of {a:e} and {b:e}"
            );
        }
    }
}

/// Rebuilds `(m_bits / 2^53) * 2^e` in floating point; the scaling is
/// split in two so that neither power of two leaves the finite range.
fn rebuild(m_bits: u64, e: i32) -> f64 {
    let m = (m_bits as f64) * (2.0f64).powi(-53);
    if e < -1000 {
        (m * (2.0f64).powi(-1000)) * (2.0f64).powi(e + 1000)
    } else if e > 1000 {
        (m * (2.0f64).powi(1000)) * (2.0f64).powi(e - 1000)
    } else {
        m * (2.0f64).powi(e)
    }
}

#[test]
fn test_frexp_decomposition_is_exact() {
    for x in samples() {
        if !(x > 0.0) || x.is_infinite() {
            continue;
        }
        let (m_bits, e) = frexp_bits(x.to_bits());
        assert!((1u64 << 52) <= m_bits && m_bits < (1u64 << 53));
        assert_eq!(rebuild(m_bits, e), x, "frexp of {x:e}");
    }
}

#[test]
fn test_frexp_of_subnormal() {
    let x = 3e-320f64;
    let (m_bits, e) = frexp_bits(x.to_bits());
    assert!((1u64 << 52) <= m_bits && m_bits < (1u64 << 53));
    assert!(e < -1021);
    assert_eq!(rebuild(m_bits, e), x);
}
