//! Immutable per-run simulation parameters and their validation, plus the
//! JONSWAP parameter derivation from wind speed and fetch.

use vstd::prelude::*;
use crate::errors::SimError;
use crate::fft::{valid_grid_size, try_log2};
use crate::field::MAX_N;
use crate::fixed::{FRAC, fx_mul, fx_div, mul_fx, div_fx, in_range};
use crate::transcend::{spec_pow_fx, pow_fx};

verus! {

/// JONSWAP energy scale coefficient 0.076, 20 fractional bits.
pub const ALPHA_COEFF: i64 = 79692;

/// JONSWAP alpha exponent -0.22, 20 fractional bits.
pub const ALPHA_EXP: i64 = -230686;

/// JONSWAP peak-frequency coefficient 22, 20 fractional bits.
pub const PEAK_COEFF: i64 = 23068672;

/// JONSWAP peak-frequency exponent -0.33, 20 fractional bits.
pub const PEAK_EXP: i64 = -346030;

/// One additive swell band of the directional spectrum.
#[derive(Clone, Copy, PartialEq, Eq, Structural, Debug)]
pub struct SwellBand {
    /// Overall energy scale of the band; zero disables the band.
    pub scale: i64,
    /// Direction angle in fixed-point radians.
    pub angle: i64,
    /// Blend between isotropic and directional spreading, in [0, 1].
    pub spread_blend: i64,
    /// Swell factor sharpening the directional spread.
    pub swell: i64,
    /// JONSWAP spectral energy scale alpha.
    pub alpha: i64,
    /// JONSWAP peak angular frequency omega_p.
    pub peak_omega: i64,
    /// JONSWAP peak-enhancement gamma.
    pub gamma: i64,
    /// Short-wave fade length damping high wavenumbers.
    pub short_waves_fade: i64,
}

/// Immutable per-run parameters, shared by every stage.
#[derive(Clone, Copy, PartialEq, Eq, Structural, Debug)]
pub struct SimulationParameters {
    /// Grid side N (a power of two).
    pub n: usize,
    /// Physical length in meters represented by the grid.
    pub length_scale: i64,
    /// Wind speed in m/s.
    pub wind_speed: i64,
    /// Fetch distance in m.
    pub fetch: i64,
    /// Gravitational acceleration.
    pub gravity: i64,
    /// Water depth.
    pub depth: i64,
    /// Wavenumbers below this are clamped to zero energy.
    pub cutoff_low: i64,
    /// Wavenumbers above this are clamped to zero energy.
    pub cutoff_high: i64,
    /// First swell band.
    pub band1: SwellBand,
    /// Second swell band.
    pub band2: SwellBand,
}

/// Physical plausibility of one band: nonnegative knobs, a blend in
/// [0, 1], and, when the band is enabled, positive energy scale and peak.
pub open spec fn band_valid(b: SwellBand) -> bool {
    &&& 0 <= b.scale
    &&& 0 <= b.spread_blend <= FRAC
    &&& 0 <= b.swell
    &&& 0 <= b.alpha
    &&& 0 <= b.peak_omega
    &&& 0 <= b.gamma
    &&& 0 <= b.short_waves_fade
    &&& (b.scale > 0 ==> b.alpha > 0 && b.peak_omega > 0)
    &&& in_range(b.scale as int) && in_range(b.angle as int) && in_range(b.swell as int)
    &&& in_range(b.alpha as int) && in_range(b.peak_omega as int) && in_range(b.gamma as int)
    &&& in_range(b.short_waves_fade as int)
}

/// Configuration validity: a power-of-two grid, positive physical scales,
/// ordered cutoffs, no nonzero fetch without wind, and two valid bands.
pub open spec fn params_valid(p: SimulationParameters) -> bool {
    &&& valid_grid_size(p.n as int)
    &&& 0 < p.length_scale
    &&& 0 < p.gravity
    &&& 0 < p.depth
    &&& 0 <= p.wind_speed
    &&& 0 <= p.fetch
    &&& (p.fetch > 0 ==> p.wind_speed > 0)
    &&& 0 <= p.cutoff_low < p.cutoff_high
    &&& in_range(p.length_scale as int) && in_range(p.gravity as int)
    &&& in_range(p.depth as int) && in_range(p.cutoff_high as int)
    &&& in_range(p.wind_speed as int) && in_range(p.fetch as int)
    &&& band_valid(p.band1)
    &&& band_valid(p.band2)
}

fn check_band(b: &SwellBand) -> (r: bool)
    ensures
        r == band_valid(*b),
{
    0 <= b.scale && 0 <= b.spread_blend && b.spread_blend <= FRAC && 0 <= b.swell && 0 <= b.alpha
        && 0 <= b.peak_omega && 0 <= b.gamma && 0 <= b.short_waves_fade
        && (b.scale == 0 || (b.alpha > 0 && b.peak_omega > 0)) && b.scale <= crate::fixed::SAT
        && b.angle >= -crate::fixed::SAT && b.angle <= crate::fixed::SAT
        && b.swell <= crate::fixed::SAT && b.alpha <= crate::fixed::SAT
        && b.peak_omega <= crate::fixed::SAT && b.gamma <= crate::fixed::SAT
        && b.short_waves_fade <= crate::fixed::SAT
}

/// Check a parameter record, returning the configuration error that
/// applies; Ok exactly when the record is valid.
pub fn validate_params(p: &SimulationParameters) -> (r: Result<(), SimError>)
    ensures
        match r {
            Ok(()) => params_valid(*p),
            Err(e) => !params_valid(*p) && (e == SimError::InvalidGridSize || e
                == SimError::InvalidBand),
        },
{
    let lg = try_log2(p.n);
    let grid_ok = match lg {
        Some(_) => p.n >= 4 && p.n <= MAX_N,
        None => false,
    };
    if !grid_ok {
        return Err(SimError::InvalidGridSize);
    }
    let ok = 0 < p.length_scale && 0 < p.gravity && 0 < p.depth && 0 <= p.wind_speed && 0
        <= p.fetch && (p.fetch == 0 || p.wind_speed > 0) && 0 <= p.cutoff_low && p.cutoff_low
        < p.cutoff_high && p.length_scale <= crate::fixed::SAT && p.gravity <= crate::fixed::SAT
        && p.depth <= crate::fixed::SAT && p.cutoff_high <= crate::fixed::SAT && p.wind_speed
        <= crate::fixed::SAT && p.fetch <= crate::fixed::SAT && check_band(&p.band1) && check_band(
        &p.band2,
    );
    if ok {
        Ok(())
    } else {
        Err(SimError::InvalidBand)
    }
}

/// The JONSWAP parameterization used by this library:
/// alpha = 0.076 * (g * fetch / U^2)^(-0.22) and
/// omega_p = 22 * (U * fetch / g^2)^(-0.33), with the dimensionless
/// arguments floored at one to keep the power defined.
pub open spec fn spec_spectrum_params(wind_speed: int, fetch: int, g: int) -> (int, int) {
    let u2 = fx_mul(wind_speed, wind_speed);
    let u2p = if u2 < 1 {
        1
    } else {
        u2
    };
    let q1 = fx_div(fx_mul(g, fetch), u2p);
    let x1 = if q1 < 1 {
        1
    } else {
        q1
    };
    let alpha = fx_mul(ALPHA_COEFF as int, spec_pow_fx(x1, ALPHA_EXP as int));
    let g2 = fx_mul(g, g);
    let g2p = if g2 < 1 {
        1
    } else {
        g2
    };
    let q2 = fx_div(fx_mul(wind_speed, fetch), g2p);
    let x2 = if q2 < 1 {
        1
    } else {
        q2
    };
    let peak = fx_mul(PEAK_COEFF as int, spec_pow_fx(x2, PEAK_EXP as int));
    (alpha, peak)
}

/// Derive the JONSWAP energy scale and peak frequency from wind and fetch.
pub fn calculate_spectrum_params(wind_speed: i64, fetch: i64, g: i64) -> (r: (i64, i64))
    ensures
        r.0 as int == spec_spectrum_params(wind_speed as int, fetch as int, g as int).0,
        r.1 as int == spec_spectrum_params(wind_speed as int, fetch as int, g as int).1,
{
    let u2 = mul_fx(wind_speed, wind_speed);
    let u2p = if u2 < 1 {
        1
    } else {
        u2
    };
    let q1 = div_fx(mul_fx(g, fetch), u2p);
    let x1 = if q1 < 1 {
        1
    } else {
        q1
    };
    let alpha = mul_fx(ALPHA_COEFF, pow_fx(x1, ALPHA_EXP));
    let g2 = mul_fx(g, g);
    let g2p = if g2 < 1 {
        1
    } else {
        g2
    };
    let q2 = div_fx(mul_fx(wind_speed, fetch), g2p);
    let x2 = if q2 < 1 {
        1
    } else {
        q2
    };
    let peak = mul_fx(PEAK_COEFF, pow_fx(x2, PEAK_EXP));
    (alpha, peak)
}

} // verus!
