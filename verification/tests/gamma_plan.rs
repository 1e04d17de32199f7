//! The gamma-engine planners: domain validation, pole detection, the
//! reflection parity, and the inverse's dispatch.

use puruspe::gamma::{
    abs_floor_is_odd, gamma_plan, inc_gamma_plan, inv_gamma_plan, is_integer_bits, ln_gamma_plan,
    GammaPlan, IncGammaPlan, InvGammaPlan, LnGammaPlan,
};

#[test]
fn test_ln_gamma_domain() {
    for x in [1.0f64, 2.0, 0.5, 1e-10, 1e10, f64::MAX, f64::MIN_POSITIVE, 5e-324] {
        assert_eq!(
            ln_gamma_plan(x.to_bits()),
            LnGammaPlan::Compute,
            "ln_gamma must accept {x:e}"
        );
    }
    for x in [0.0f64, -0.0, -1.0, -0.5, -1e-300, f64::NEG_INFINITY] {
        assert_eq!(
            ln_gamma_plan(x.to_bits()),
            LnGammaPlan::DomainErr,
            "ln_gamma must reject {x:e}"
        );
    }
    assert_eq!(ln_gamma_plan(f64::NAN.to_bits()), LnGammaPlan::NanInput);
}

#[test]
fn test_integer_detection() {
    for x in [0.0f64, -0.0, 1.0, -1.0, 2.0, -100.0, 4503599627370496.0, 1e300, -1e22] {
        assert!(is_integer_bits(x.to_bits()), "{x:e} is an integer");
    }
    for x in [
        0.5f64,
        -0.5,
        -1.5,
        2.0000000000000004,
        1e-300,
        5e-324,
        f64::INFINITY,
        f64::NAN,
        4503599627370495.5,
    ] {
        assert!(!is_integer_bits(x.to_bits()), "{x:e} is not an integer");
    }
}

#[test]
fn test_floor_parity() {
    let odd = [1.0f64, 1.5, 3.0, 3.9, 9007199254740991.0, 2251799813685249.2];
    for x in odd {
        assert!(abs_floor_is_odd(x.to_bits()), "floor({x:e}) is odd");
    }
    let even = [0.0f64, 0.3, 2.0, 2.7, 4.0, 1e300, 0.9999999999999999];
    for x in even {
        assert!(!abs_floor_is_odd(x.to_bits()), "floor({x:e}) is even");
    }
}

#[test]
fn test_gamma_dispatch() {
    for x in [0.0f64, -0.0, -1.0, -2.0, -100.0, f64::NEG_INFINITY] {
        assert_eq!(gamma_plan(x.to_bits()), GammaPlan::Pole, "pole at {x:e}");
    }
    for x in [0.5f64, 1.0, 2.5, 170.0, 1e-10, f64::INFINITY] {
        assert_eq!(gamma_plan(x.to_bits()), GammaPlan::Positive);
    }
    // The reflection parity drives the sign: gamma(-0.5) < 0, and
    // gamma(-1.5) > 0, exactly as floor(0.5) is even and floor(1.5) odd.
    assert_eq!(
        gamma_plan((-0.5f64).to_bits()),
        GammaPlan::Reflection { odd_floor: false }
    );
    assert_eq!(
        gamma_plan((-1.5f64).to_bits()),
        GammaPlan::Reflection { odd_floor: true }
    );
    assert_eq!(
        gamma_plan((-2.5f64).to_bits()),
        GammaPlan::Reflection { odd_floor: false }
    );
    assert_eq!(gamma_plan(f64::NAN.to_bits()), GammaPlan::NanInput);
}

#[test]
fn test_gamma_positive_path_is_ln_gamma_domain() {
    // gamma exponentiates ln_gamma exactly where ln_gamma accepts.
    for x in [
        1.0f64,
        2.0,
        0.5,
        1e-10,
        1e10,
        f64::INFINITY,
        0.0,
        -0.0,
        -0.5,
        -1.0,
        -2.5,
        f64::NEG_INFINITY,
        f64::NAN,
    ] {
        assert_eq!(
            gamma_plan(x.to_bits()) == GammaPlan::Positive,
            ln_gamma_plan(x.to_bits()) == LnGammaPlan::Compute,
            "positive-path agreement at {x:e}"
        );
    }
}

#[test]
fn test_inc_gamma_domain() {
    let ok: [(f64, f64); 5] = [(0.1, 0.1), (0.5, 0.0), (1.0, 20.0), (10.0, 1e-10), (5.0, 1e10)];
    for (a, x) in ok {
        assert_eq!(
            inc_gamma_plan(a.to_bits(), x.to_bits()),
            IncGammaPlan::Compute,
            "gammp must accept a = {a}, x = {x:e}"
        );
    }
    let bad: [(f64, f64); 5] = [(0.0, 1.0), (-0.5, 1.0), (-0.0, 1.0), (1.0, -0.1), (1.0, -1e-300)];
    for (a, x) in bad {
        assert_eq!(
            inc_gamma_plan(a.to_bits(), x.to_bits()),
            IncGammaPlan::DomainErr,
            "gammp must reject a = {a}, x = {x:e}"
        );
    }
    // x == -0.0 compares equal to zero and stays inside the domain.
    assert_eq!(
        inc_gamma_plan(1.0f64.to_bits(), (-0.0f64).to_bits()),
        IncGammaPlan::Compute
    );
    assert_eq!(
        inc_gamma_plan(f64::NAN.to_bits(), 1.0f64.to_bits()),
        IncGammaPlan::NanInput
    );
    assert_eq!(
        inc_gamma_plan(1.0f64.to_bits(), f64::NAN.to_bits()),
        IncGammaPlan::NanInput
    );
}

#[test]
fn test_inv_gamma_dispatch() {
    assert_eq!(
        inv_gamma_plan(0.0f64.to_bits(), 2.0f64.to_bits()),
        InvGammaPlan::AtZero
    );
    assert_eq!(
        inv_gamma_plan((-0.0f64).to_bits(), 2.0f64.to_bits()),
        InvGammaPlan::AtZero
    );
    assert_eq!(
        inv_gamma_plan(1.0f64.to_bits(), 2.0f64.to_bits()),
        InvGammaPlan::AtOne
    );
    assert_eq!(
        inv_gamma_plan(0.5f64.to_bits(), 0.1f64.to_bits()),
        InvGammaPlan::GuessSmall
    );
    assert_eq!(
        inv_gamma_plan(0.5f64.to_bits(), 0.9999f64.to_bits()),
        InvGammaPlan::GuessSmall
    );
    assert_eq!(
        inv_gamma_plan(0.5f64.to_bits(), 1.0f64.to_bits()),
        InvGammaPlan::GuessLarge
    );
    assert_eq!(
        inv_gamma_plan(0.99f64.to_bits(), 10.0f64.to_bits()),
        InvGammaPlan::GuessLarge
    );
    for (p, a) in [(1.0000000000000002f64, 1.0f64), (-0.1, 1.0), (0.5, 0.0), (0.5, -1.0), (2.0, 3.0)] {
        assert_eq!(
            inv_gamma_plan(p.to_bits(), a.to_bits()),
            InvGammaPlan::DomainErr,
            "invgammp must reject p = {p}, a = {a}"
        );
    }
    assert_eq!(
        inv_gamma_plan(f64::NAN.to_bits(), 1.0f64.to_bits()),
        InvGammaPlan::NanInput
    );
}
