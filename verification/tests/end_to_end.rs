//! Whole-pipeline runs: initialization, stepping, reconfiguration,
//! errors, and the input bindings.

use ocean_sim::cplx::Cplx;
use ocean_sim::errors::SimError;
use ocean_sim::field::Field;
use ocean_sim::fixed::{FRAC, SAT};
use ocean_sim::input::{Action, Key};
use ocean_sim::noise::gaussian_from_word;
use ocean_sim::params::{SimulationParameters, SwellBand};
use ocean_sim::sim::{initialize, initialize_with_noise};

const S: i64 = FRAC;

fn pipeline_band() -> SwellBand {
    SwellBand {
        scale: S,
        angle: -545634,
        spread_blend: S,
        swell: 207618,
        alpha: 8493,
        peak_omega: 871367,
        gamma: 3460300,
        short_waves_fade: 10486,
    }
}

fn pipeline_params(n: usize) -> SimulationParameters {
    let disabled = SwellBand { scale: 0, ..pipeline_band() };
    SimulationParameters {
        n,
        length_scale: 100 * S,
        wind_speed: 10 * S,
        fetch: 100000 * S,
        gravity: 10286531,
        depth: 500 * S,
        cutoff_low: 105,
        cutoff_high: 9999 * S,
        band1: pipeline_band(),
        band2: disabled,
    }
}

fn pipeline_noise(n: usize) -> Field {
    let mut f = Field::filled(n, Cplx { re: 0, im: 0 });
    let mut seed: u64 = 0x9E37_79B9_7F4A_7C15;
    for i in 0..n {
        for j in 0..n {
            seed = seed.wrapping_mul(6364136223846793005).wrapping_add(1442695040888963407);
            let re = gaussian_from_word(seed);
            seed = seed.wrapping_mul(6364136223846793005).wrapping_add(1442695040888963407);
            let im = gaussian_from_word(seed);
            f.set(i, j, Cplx { re, im });
        }
    }
    f
}

#[test]
fn initialization_rejects_bad_grid_sizes() {
    for n in [0usize, 1, 2, 3, 5, 100, 8192] {
        let p = pipeline_params(n);
        assert!(matches!(initialize(p), Err(SimError::InvalidGridSize)), "n = {n}");
    }
}

#[test]
fn initialization_rejects_non_physical_parameters() {
    // nonzero fetch with zero wind speed
    let mut p = pipeline_params(16);
    p.wind_speed = 0;
    assert!(matches!(initialize(p), Err(SimError::InvalidBand)));
    // negative energy scale
    let mut p = pipeline_params(16);
    p.band1.alpha = -1;
    assert!(matches!(initialize(p), Err(SimError::InvalidBand)));
    // inverted cutoffs
    let mut p = pipeline_params(16);
    p.cutoff_high = p.cutoff_low;
    assert!(matches!(initialize(p), Err(SimError::InvalidBand)));
}

#[test]
fn three_steps_produce_finite_maps_everywhere() {
    // N = 16, wind 10, one band, three steps of 1/60 s: every cell of
    // all three maps must hold a representable (finite) value
    let n: usize = 16;
    let p = pipeline_params(n);
    let noise = pipeline_noise(n);
    let mut st = initialize_with_noise(p, noise).unwrap();
    let dt = S / 60;
    for _ in 0..3 {
        let maps = st.step(dt);
        assert_eq!(maps.n, n);
        assert_eq!(maps.displacement.len(), n * n);
        assert_eq!(maps.derivative.len(), n * n);
        assert_eq!(maps.foam.len(), n * n);
        for d in &maps.displacement {
            assert!(d.x.abs() <= SAT && d.y.abs() <= SAT && d.z.abs() <= SAT);
        }
        for d in &maps.derivative {
            assert!(d.yx.abs() <= SAT && d.yz.abs() <= SAT);
            assert!(d.xx.abs() <= SAT && d.zz.abs() <= SAT);
        }
        for f in &maps.foam {
            assert!(*f >= 0 && *f <= S);
        }
    }
    assert_eq!(st.time, 3 * (S / 60));
}

#[test]
fn stepping_moves_the_surface() {
    let n: usize = 16;
    let p = pipeline_params(n);
    let noise = pipeline_noise(n);
    let mut st = initialize_with_noise(p, noise).unwrap();
    let maps = st.step(S / 60);
    let any_height = maps.displacement.iter().any(|d| d.y != 0);
    assert!(any_height, "the height map should not be identically zero");
}

#[test]
fn reconfiguration_keeps_noise_and_table() {
    let n: usize = 16;
    let p = pipeline_params(n);
    let noise = pipeline_noise(n);
    let mut st = initialize_with_noise(p, noise).unwrap();
    // a wind change succeeds and the state still steps
    let mut p2 = pipeline_params(n);
    p2.wind_speed = 5 * S;
    p2.band1.peak_omega = 2 * 871367;
    assert!(st.reconfigure(p2).is_ok());
    assert_eq!(st.params.wind_speed, 5 * S);
    let maps = st.step(S / 60);
    assert_eq!(maps.n, n);
    // changing the grid side is refused and leaves the state usable
    let p3 = pipeline_params(32);
    assert!(matches!(st.reconfigure(p3), Err(SimError::InvalidGridSize)));
    assert_eq!(st.params.n, n);
}

#[test]
fn initialization_with_mismatched_noise_fails() {
    let p = pipeline_params(16);
    let noise = pipeline_noise(8);
    assert!(initialize_with_noise(p, noise).is_err());
}

#[test]
fn gaussian_samples_stay_bounded() {
    let mut seed: u64 = 1;
    for _ in 0..1000 {
        seed = seed.wrapping_mul(6364136223846793005).wrapping_add(1442695040888963407);
        let g = gaussian_from_word(seed);
        assert!(g >= -6 * S && g <= 6 * S);
    }
    // the fold is centered: the all-chunks-zero word maps to -6, the
    // all-ones word to just under +6
    assert_eq!(gaussian_from_word(0), -6 * S);
    assert!(gaussian_from_word(u64::MAX) > 5 * S);
}

#[test]
fn key_bindings_match_the_engine_actions() {
    assert_eq!(Action::from_key_code(Key::W), Some(Action::MoveForward));
    assert_eq!(Action::from_key_code(Key::S), Some(Action::MoveBackward));
    assert_eq!(Action::from_key_code(Key::A), Some(Action::MoveLeft));
    assert_eq!(Action::from_key_code(Key::D), Some(Action::MoveRight));
    assert_eq!(Action::from_key_code(Key::Space), Some(Action::MoveUp));
    assert_eq!(Action::from_key_code(Key::LShift), Some(Action::MoveDown));
    assert_eq!(Action::from_key_code(Key::Escape), Some(Action::ShutDown));
    assert_eq!(Action::from_key_code(Key::Other), None);
}

#[test]
fn error_messages_name_the_failure() {
    assert!(SimError::InvalidGridSize.message().contains("power of two"));
    assert!(SimError::InvalidBand.message().contains("band"));
}
