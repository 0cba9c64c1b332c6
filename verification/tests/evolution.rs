//! Time evolution of the spectrum and foam dynamics.

use ocean_sim::composite::{foam_update, FOAM_THRESHOLD};
use ocean_sim::cplx::{Cplx, cadd};
use ocean_sim::evolve::evolve_height_cell;
use ocean_sim::fixed::FRAC;

const S: i64 = FRAC;

#[test]
fn evolution_at_time_zero_is_the_plain_sum() {
    // with h0 = [[1,0],[0,0],...] and h0_conj likewise, the t = 0 height
    // must equal h0 + h0_conj pointwise, whatever the frequency
    let h0_cells = [
        Cplx { re: S, im: 0 },
        Cplx { re: 0, im: 0 },
        Cplx { re: 31337, im: -555 },
        Cplx { re: -S, im: S / 3 },
    ];
    let h0c_cells = [
        Cplx { re: S, im: 0 },
        Cplx { re: 0, im: 0 },
        Cplx { re: 31337, im: 555 },
        Cplx { re: -S, im: -S / 3 },
    ];
    let omegas = [0i64, S, 7 * S, 123456];
    for k in 0..h0_cells.len() {
        for om in omegas {
            let got = evolve_height_cell(h0_cells[k], h0c_cells[k], om, 0);
            let want = cadd(h0_cells[k], h0c_cells[k]);
            assert_eq!(got, want);
        }
    }
}

#[test]
fn evolution_rotates_by_the_dispersion_phase() {
    // h0 = 1, h0_conj = 0: h(t) = e^(i omega t)
    let one = Cplx { re: S, im: 0 };
    let zero = Cplx { re: 0, im: 0 };
    let om = S;  // 1 rad/s
    let t = S;  // 1 s
    let got = evolve_height_cell(one, zero, om, t);
    let re = got.re as f64 / S as f64;
    let im = got.im as f64 / S as f64;
    assert!((re - (1.0f64).cos()).abs() < 1e-3, "{re}");
    assert!((im - (1.0f64).sin()).abs() < 1e-3, "{im}");
}

#[test]
fn foam_decays_monotonically_above_threshold() {
    // constant Jacobian at the threshold, dt = 1/60, ten steps:
    // the foam sequence must be non-increasing and stay nonnegative
    let dt = S / 60;
    let jac = FOAM_THRESHOLD;
    let mut foam = S;
    let mut prev = foam;
    for _ in 0..10 {
        foam = foam_update(foam, jac, dt);
        assert!(foam <= prev);
        assert!(foam >= 0);
        prev = foam;
    }
    assert!(foam < S, "ten decay steps must have reduced the foam");
}

#[test]
fn foam_update_has_exact_values() {
    // pure decay: half foam, one sixtieth of a second at rate one half
    let half = S / 2;
    assert_eq!(foam_update(half, FOAM_THRESHOLD, S / 60), half - (half * (S / 60)) / S);
    // accumulation from a fully folded surface clamps at one
    assert_eq!(foam_update(S, -S, 0), S);
    // decay never crosses zero
    assert_eq!(foam_update(100, FOAM_THRESHOLD, S), 0);
}

#[test]
fn foam_decays_all_the_way_to_zero() {
    let dt = S / 4;
    let jac = 2 * FOAM_THRESHOLD;
    let mut foam = S;
    for _ in 0..20 {
        foam = foam_update(foam, jac, dt);
    }
    assert_eq!(foam, 0);
}

#[test]
fn foam_accumulates_below_threshold_and_clamps() {
    let dt = S / 60;
    let jac = 0;  // far below the folding threshold
    let mut foam = 0;
    for _ in 0..30 {
        foam = foam_update(foam, jac, dt);
        assert!(foam >= 0 && foam <= S);
    }
    assert_eq!(foam, S, "persistent folding must saturate the foam map");
}
