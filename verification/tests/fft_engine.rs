//! The FFT table and the 2-D inverse transform.

use ocean_sim::cplx::Cplx;
use ocean_sim::errors::SimError;
use ocean_sim::fft::{build_fft_table, bitrev_exec, ifft2d};
use ocean_sim::field::Field;
use ocean_sim::fixed::FRAC;

const S: i64 = FRAC;

#[test]
fn table_rejects_bad_sizes() {
    assert!(matches!(build_fft_table(0), Err(SimError::InvalidGridSize)));
    assert!(matches!(build_fft_table(3), Err(SimError::InvalidGridSize)));
    assert!(matches!(build_fft_table(2), Err(SimError::InvalidGridSize)));
    assert!(matches!(build_fft_table(100), Err(SimError::InvalidGridSize)));
    assert!(matches!(build_fft_table(8192), Err(SimError::InvalidGridSize)));
}

#[test]
fn table_accepts_powers_of_two() {
    let t = build_fft_table(4).unwrap();
    assert_eq!(t.n, 4);
    assert_eq!(t.lg, 2);
    let t = build_fft_table(64).unwrap();
    assert_eq!(t.n, 64);
    assert_eq!(t.lg, 6);
}

#[test]
fn bit_reversal_of_three_bits() {
    assert_eq!(bitrev_exec(3, 0), 0);
    assert_eq!(bitrev_exec(3, 1), 4);
    assert_eq!(bitrev_exec(3, 3), 6);
    assert_eq!(bitrev_exec(3, 5), 5);
    assert_eq!(bitrev_exec(3, 7), 7);
}

#[test]
fn dc_term_transforms_to_uniform_field() {
    // only the k = 0 bin set: the output must be spatially uniform
    let n: usize = 8;
    let table = build_fft_table(n).unwrap();
    let mut f = Field::filled(n, Cplx { re: 0, im: 0 });
    f.set(0, 0, Cplx { re: S, im: 0 });
    ifft2d(&mut f, &table, false);
    for i in 0..n {
        for j in 0..n {
            assert_eq!(f.get(i, j), Cplx { re: S, im: 0 });
        }
    }
}

#[test]
fn dc_term_transforms_to_uniform_field_with_scaling() {
    let n: usize = 16;
    let table = build_fft_table(n).unwrap();
    let mut f = Field::filled(n, Cplx { re: 0, im: 0 });
    f.set(0, 0, Cplx { re: S, im: 0 });
    ifft2d(&mut f, &table, true);
    let expected = S / ((n * n) as i64);
    for i in 0..n {
        for j in 0..n {
            assert_eq!(f.get(i, j), Cplx { re: expected, im: 0 });
        }
    }
}

#[test]
fn cosine_spectrum_round_trips_within_tolerance() {
    // The analytic field cos(2*pi*x/n) has the two-bin spectrum
    // F[1,0] = F[n-1,0] = 1/2; transforming it back must recover the
    // cosine within 1e-4 of full scale.
    let n: usize = 64;
    let table = build_fft_table(n).unwrap();
    let mut f = Field::filled(n, Cplx { re: 0, im: 0 });
    f.set(1, 0, Cplx { re: S / 2, im: 0 });
    f.set(n - 1, 0, Cplx { re: S / 2, im: 0 });
    ifft2d(&mut f, &table, false);
    let tol = 1e-4;
    for x in 0..n {
        let expected = (2.0 * std::f64::consts::PI * (x as f64) / (n as f64)).cos();
        for z in 0..n {
            let got = f.get(x, z);
            let re = got.re as f64 / S as f64;
            let im = got.im as f64 / S as f64;
            assert!((re - expected).abs() <= tol, "cell ({x},{z}): {re} vs {expected}");
            assert!(im.abs() <= tol);
        }
    }
}

#[test]
fn two_dimensional_wave_round_trips_within_tolerance() {
    // cos(2*pi*(x + 2 z)/n) from bins (1, 2) and (n-1, n-2)
    let n: usize = 32;
    let table = build_fft_table(n).unwrap();
    let mut f = Field::filled(n, Cplx { re: 0, im: 0 });
    f.set(1, 2, Cplx { re: S / 2, im: 0 });
    f.set(n - 1, n - 2, Cplx { re: S / 2, im: 0 });
    ifft2d(&mut f, &table, false);
    let tol = 1e-4;
    for x in 0..n {
        for z in 0..n {
            let ph = 2.0 * std::f64::consts::PI * ((x + 2 * z) as f64) / (n as f64);
            let expected = ph.cos();
            let got = f.get(x, z);
            let re = got.re as f64 / S as f64;
            assert!((re - expected).abs() <= tol, "cell ({x},{z}): {re} vs {expected}");
        }
    }
}
