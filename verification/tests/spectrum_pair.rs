//! Spectrum construction: Hermitian symmetry, zero clamps, and the
//! JONSWAP parameter derivation.

use ocean_sim::cplx::Cplx;
use ocean_sim::field::Field;
use ocean_sim::fixed::FRAC;
use ocean_sim::noise::gaussian_from_word;
use ocean_sim::params::{SimulationParameters, SwellBand, calculate_spectrum_params};
use ocean_sim::spectrum::init_spectrum;

const S: i64 = FRAC;

fn spectrum_test_band() -> SwellBand {
    SwellBand {
        scale: S,
        angle: -545634,  // -29.81 degrees in radians
        spread_blend: S,
        swell: 207618,   // 0.198
        alpha: 8493,     // 0.0081
        peak_omega: 871367,  // 0.831
        gamma: 3460300,  // 3.3
        short_waves_fade: 10486,  // 0.01
    }
}

fn spectrum_test_params(n: usize) -> SimulationParameters {
    let disabled = SwellBand {
        scale: 0,
        angle: 0,
        spread_blend: S,
        swell: S,
        alpha: 0,
        peak_omega: 0,
        gamma: 3460300,
        short_waves_fade: 10486,
    };
    SimulationParameters {
        n,
        length_scale: 100 * S,
        wind_speed: 10 * S,
        fetch: 100000 * S,
        gravity: 10286531,  // 9.81
        depth: 500 * S,
        cutoff_low: 105,    // 0.0001
        cutoff_high: 9999 * S,
        band1: spectrum_test_band(),
        band2: disabled,
    }
}

fn spectrum_test_noise(n: usize) -> Field {
    let mut f = Field::filled(n, Cplx { re: 0, im: 0 });
    let mut seed: u64 = 0x3511_29AD_77F0_1234;
    for i in 0..n {
        for j in 0..n {
            seed = seed.wrapping_mul(6364136223846793005).wrapping_add(1442695040888963407);
            let re = gaussian_from_word(seed);
            seed = seed.wrapping_mul(6364136223846793005).wrapping_add(1442695040888963407);
            let im = gaussian_from_word(seed);
            f.set(i, j, Cplx { re, im });
        }
    }
    f
}

#[test]
fn conjugate_spectrum_mirrors_h0() {
    // h0_conj(k) must equal conj(h0(-k)) at every mirrored index pair
    let n: usize = 8;
    let p = spectrum_test_params(n);
    let noise = spectrum_test_noise(n);
    let (h0, h0c) = init_spectrum(&noise, &p);
    for i in 0..n {
        for j in 0..n {
            let mi = if i == 0 { 0 } else { n - i };
            let mj = if j == 0 { 0 } else { n - j };
            let a = h0c.get(i, j);
            let b = h0.get(mi, mj);
            assert_eq!(a.re, b.re);
            assert_eq!(a.im, -b.im);
            // and the pairing holds in the mirrored direction too
            let c = h0c.get(mi, mj);
            let d = h0.get(i, j);
            assert_eq!(c.re, d.re);
            assert_eq!(c.im, -d.im);
        }
    }
}

#[test]
fn zero_wavenumber_cell_has_no_energy() {
    let n: usize = 8;
    let p = spectrum_test_params(n);
    let noise = spectrum_test_noise(n);
    let (h0, _) = init_spectrum(&noise, &p);
    // the centered k = 0 bin sits at (n/2, n/2)
    assert_eq!(h0.get(n / 2, n / 2), Cplx { re: 0, im: 0 });
}

#[test]
fn cutoffs_clamp_the_whole_spectrum() {
    let n: usize = 8;
    let mut p = spectrum_test_params(n);
    // a band of admissible wavenumbers that excludes the whole grid
    p.cutoff_low = 9998 * S;
    p.cutoff_high = 9999 * S;
    let noise = spectrum_test_noise(n);
    let (h0, h0c) = init_spectrum(&noise, &p);
    for i in 0..n {
        for j in 0..n {
            assert_eq!(h0.get(i, j), Cplx { re: 0, im: 0 });
            assert_eq!(h0c.get(i, j), Cplx { re: 0, im: 0 });
        }
    }
}

#[test]
fn spectrum_scales_with_noise() {
    // a spectrum built from nonzero noise is not identically zero
    let n: usize = 16;
    let p = spectrum_test_params(n);
    let noise = spectrum_test_noise(n);
    let (h0, _) = init_spectrum(&noise, &p);
    let mut nonzero = 0usize;
    for i in 0..n {
        for j in 0..n {
            let v = h0.get(i, j);
            if v.re != 0 || v.im != 0 {
                nonzero += 1;
            }
        }
    }
    assert!(nonzero > 0, "the wind-driven spectrum vanished everywhere");
}

#[test]
fn dispersion_matches_reference_formula() {
    // omega(k) = sqrt(g k tanh(k depth))
    let g = 10286531i64;  // 9.81
    let depth = 500 * S;
    for k in [0.0628f64, 0.5, 2.0] {
        let kl = (k * S as f64) as i64;
        let om = ocean_sim::spectrum::dispersion_omega(g, depth, kl);
        let omega_ref = (9.81 * k * (k * 500.0).tanh()).sqrt();
        let o = om as f64 / S as f64;
        assert!((o - omega_ref).abs() < 1e-3, "k = {k}: {o} vs {omega_ref}");
    }
}

#[test]
fn jonswap_parameters_match_reference_formulas() {
    // alpha = 0.076 (g F / U^2)^-0.22, omega_p = 22 (U F / g^2)^-0.33
    let u = 10.0f64;
    let fetch = 1000.0f64;
    let g = 9.81f64;
    let (alpha, peak) = calculate_spectrum_params(10 * S, 1000 * S, 10286531);
    let alpha_ref = 0.076 * (g * fetch / (u * u)).powf(-0.22);
    let peak_ref = 22.0 * ((u * fetch) / (g * g)).powf(-0.33);
    let a = alpha as f64 / S as f64;
    let p = peak as f64 / S as f64;
    assert!((a - alpha_ref).abs() / alpha_ref < 0.01, "{a} vs {alpha_ref}");
    assert!((p - peak_ref).abs() / peak_ref < 0.01, "{p} vs {peak_ref}");
}
