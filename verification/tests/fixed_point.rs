//! Fixed-point arithmetic kernels on concrete values.

use ocean_sim::fixed::{FRAC, SAT, add_fx, sub_fx, mul_fx, div_fx, muli_fx, sqrt_fx, mod_floor};

const S: i64 = FRAC;

#[test]
fn add_saturates_at_the_band_edge() {
    assert_eq!(add_fx(SAT, SAT), SAT);
    assert_eq!(add_fx(-SAT, -SAT), -SAT);
    assert_eq!(add_fx(3 * S, 4 * S), 7 * S);
}

#[test]
fn sub_is_exact_in_band() {
    assert_eq!(sub_fx(3 * S, 5 * S), -2 * S);
    assert_eq!(sub_fx(0, -SAT), SAT);
}

#[test]
fn mul_matches_real_products() {
    assert_eq!(mul_fx(3 * S, 2 * S), 6 * S);
    assert_eq!(mul_fx(-3 * S, 2 * S), -6 * S);
    // half times half is a quarter
    assert_eq!(mul_fx(S / 2, S / 2), S / 4);
}

#[test]
fn mul_rounds_toward_negative_infinity() {
    // -1 raw times 1.0 is -1/FRAC, which floors to -1 raw
    assert_eq!(mul_fx(-1, S), -1);
    assert_eq!(mul_fx(1, 1), 0);
    assert_eq!(mul_fx(-1, 1), -1);
}

#[test]
fn div_matches_real_quotients() {
    assert_eq!(div_fx(6 * S, 2 * S), 3 * S);
    assert_eq!(div_fx(S, 3 * S), 349525);
}

#[test]
fn muli_scales_by_plain_integers() {
    assert_eq!(muli_fx(S, 7), 7 * S);
    assert_eq!(muli_fx(-S, 3), -3 * S);
}

#[test]
fn sqrt_exact_on_perfect_squares() {
    assert_eq!(sqrt_fx(4 * S), 2 * S);
    assert_eq!(sqrt_fx(9 * S), 3 * S);
    assert_eq!(sqrt_fx(0), 0);
}

#[test]
fn sqrt_of_two_matches_reference() {
    // floor(sqrt(2) * 2^20)
    assert_eq!(sqrt_fx(2 * S), 1482910);
}

#[test]
fn mod_floor_is_euclidean() {
    assert_eq!(mod_floor(7, 4), 3);
    assert_eq!(mod_floor(-7, 4), 1);
    assert_eq!(mod_floor(-8, 4), 0);
}
