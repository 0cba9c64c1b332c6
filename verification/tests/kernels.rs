//! Trigonometric and transcendental kernels against f64 references.

use ocean_sim::fixed::FRAC;
use ocean_sim::transcend::{exp_fx, ln_fx, tanh_fx, pow_fx};
use ocean_sim::trig::{sin_turns, cos_turns, QUARTER};

const S: i64 = FRAC;

fn close(got: i64, expected: f64, tol: f64) -> bool {
    let g = got as f64 / S as f64;
    (g - expected).abs() <= tol
}

#[test]
fn trig_is_exact_at_phase_zero() {
    assert_eq!(sin_turns(0), 0);
    assert_eq!(cos_turns(0), S);
}

#[test]
fn trig_is_exact_at_quadrant_boundaries() {
    // sin and cos at quarter, half and three-quarter turns
    assert_eq!(sin_turns(QUARTER), S);
    assert_eq!(cos_turns(QUARTER), 0);
    assert_eq!(sin_turns(2 * QUARTER), 0);
    assert_eq!(cos_turns(2 * QUARTER), -S);
    assert_eq!(sin_turns(3 * QUARTER), -S);
    assert_eq!(cos_turns(3 * QUARTER), 0);
}

#[test]
fn trig_matches_reference_values() {
    let pi = std::f64::consts::PI;
    // an eighth of a turn is 45 degrees
    assert!(close(sin_turns(S / 8), (pi / 4.0).sin(), 1e-4));
    assert!(close(cos_turns(S / 8), (pi / 4.0).cos(), 1e-4));
    // negative phases wrap
    assert!(close(sin_turns(-S / 8), -(pi / 4.0).sin(), 1e-4));
    // a phase beyond a full turn reduces
    assert!(close(sin_turns(S + S / 8), (pi / 4.0).sin(), 1e-4));
}

#[test]
fn exp_is_exact_at_zero_and_matches_reference() {
    assert_eq!(exp_fx(0), S);
    assert!(close(exp_fx(S), std::f64::consts::E, 1e-3));
    assert!(close(exp_fx(-S), (-1.0f64).exp(), 1e-4));
    assert!(close(exp_fx(-4 * S), (-4.0f64).exp(), 1e-4));
}

#[test]
fn exp_flushes_to_zero_far_below() {
    assert_eq!(exp_fx(-100 * S), 0);
}

#[test]
fn ln_is_exact_at_one_and_matches_reference() {
    assert_eq!(ln_fx(S), 0);
    assert!(close(ln_fx(2 * S), std::f64::consts::LN_2, 1e-4));
    assert!(close(ln_fx(10 * S), (10.0f64).ln(), 1e-4));
    assert!(close(ln_fx(S / 4), (0.25f64).ln(), 1e-4));
}

#[test]
fn tanh_matches_reference() {
    assert_eq!(tanh_fx(0), 0);
    assert_eq!(tanh_fx(20 * S), S);
    assert!(close(tanh_fx(S), (1.0f64).tanh(), 1e-3));
    assert!(close(tanh_fx(S / 2), (0.5f64).tanh(), 1e-3));
}

#[test]
fn pow_matches_reference() {
    // 4^0.5 = 2
    assert!(close(pow_fx(4 * S, S / 2), 2.0, 1e-3));
    // 100^-0.22
    assert!(close(pow_fx(100 * S, -230686), (100.0f64).powf(-0.22), 1e-3));
}
