//! Spectrum initializer: builds the directional initial spectrum h0(k)
//! and its conjugate-symmetric counterpart from a noise field and the
//! wind/wave parameters.
//!
//! Each cell's wavenumber is the centered, length-scale-normalized grid
//! frequency; its energy is a JONSWAP spectrum in the dispersion
//! frequency, modulated by a directional spreading function and a
//! short-wave fade, with hard zero outside the wavenumber cutoffs and at
//! k = 0.

use vstd::prelude::*;
use crate::cplx::{Cplx, spec_conj, conj};
use crate::field::Field;
use crate::fixed::{
    FRAC, fx_add, fx_sub, fx_mul, fx_div, fx_muli, fx_sqrt, add_fx, sub_fx, mul_fx, div_fx,
    muli_fx, sqrt_fx,
};
use crate::params::{SimulationParameters, SwellBand, params_valid};
use crate::transcend::{spec_exp_fx, spec_tanh_fx, spec_pow_fx, pos_part, exp_fx, tanh_fx, pow_fx};
use crate::trig::{spec_sin_turns, spec_cos_turns, sin_turns, cos_turns};

verus! {

/// 2*pi with 20 fractional bits.
pub const TWO_PI: i64 = 6588397;

/// 1/(2*pi) with 20 fractional bits.
pub const INV_TWO_PI: i64 = 166886;

/// 1/sqrt(2) with 20 fractional bits.
pub const INV_SQRT2: i64 = 741455;

/// JONSWAP decay constant 1.25.
pub const DECAY_COEFF: i64 = 1310720;

/// JONSWAP sigma below the peak (0.07).
pub const SIGMA_LO: i64 = 73400;

/// JONSWAP sigma above the peak (0.09).
pub const SIGMA_HI: i64 = 94372;

/// Base directional spreading power.
pub const SPREAD_BASE: i64 = 2097152;

/// Swell contribution to the spreading power (16).
pub const SPREAD_SWELL: i64 = 16777216;

/// Wavenumber step of the grid: 2*pi over the physical length scale.
pub open spec fn spec_dk(length_scale: int) -> int
    recommends
        0 < length_scale,
{
    fx_div(TWO_PI as int, length_scale)
}

/// One wavenumber component: the centered grid index times the step.
pub open spec fn spec_kcomp(dk: int, idx: int, n: int) -> int {
    fx_muli(dk, idx - n / 2)
}

/// Dispersion relation omega(k) = sqrt(g * k * tanh(k * depth)).
pub open spec fn spec_dispersion(g: int, depth: int, kl: int) -> int {
    fx_sqrt(pos_part(fx_mul(fx_mul(g, kl), spec_tanh_fx(pos_part(fx_mul(kl, depth))))))
}

/// Evaluate the dispersion relation.
pub fn dispersion_omega(g: i64, depth: i64, kl: i64) -> (r: i64)
    ensures
        r as int == spec_dispersion(g as int, depth as int, kl as int),
        0 <= r,
{
    let kd = mul_fx(kl, depth);
    let kdp = if kd < 0 {
        0
    } else {
        kd
    };
    let th = tanh_fx(kdp);
    let v = mul_fx(mul_fx(g, kl), th);
    let vp = if v < 0 {
        0
    } else {
        v
    };
    sqrt_fx(vp)
}

/// JONSWAP energy density at frequency om:
/// alpha * g^2 / om^5 * exp(-1.25 (om_p/om)^4) * gamma^r with the usual
/// peak-enhancement exponent r; zero at degenerate frequencies.
pub open spec fn spec_jonswap(alpha: int, peak_omega: int, gamma: int, g: int, om: int) -> int {
    let o2 = fx_mul(om, om);
    let o4 = fx_mul(o2, o2);
    let o5 = fx_mul(o4, om);
    if om <= 0 || peak_omega <= 0 || o5 <= 0 {
        0
    } else {
        let base = fx_div(fx_mul(alpha, fx_mul(g, g)), o5);
        let ratio = fx_div(peak_omega, om);
        let r2 = fx_mul(ratio, ratio);
        let r4 = fx_mul(r2, r2);
        let decay = spec_exp_fx(fx_sub(0, fx_mul(DECAY_COEFF as int, r4)));
        let sigma = if om <= peak_omega {
            SIGMA_LO as int
        } else {
            SIGMA_HI as int
        };
        let den = fx_muli(fx_mul(fx_mul(sigma, sigma), fx_mul(peak_omega, peak_omega)), 2);
        let d = fx_sub(om, peak_omega);
        let rr = if den <= 0 {
            0
        } else {
            fx_div(fx_mul(d, d), den)
        };
        let gexp = spec_exp_fx(fx_sub(0, rr));
        let gbase = if gamma < 1 {
            1
        } else {
            gamma
        };
        let gpow = spec_pow_fx(gbase, gexp);
        fx_mul(fx_mul(base, decay), gpow)
    }
}

/// Evaluate the JONSWAP density.
pub fn jonswap_value(alpha: i64, peak_omega: i64, gamma: i64, g: i64, om: i64) -> (r: i64)
    ensures
        r as int == spec_jonswap(alpha as int, peak_omega as int, gamma as int, g as int, om as int),
{
    let o2 = mul_fx(om, om);
    let o4 = mul_fx(o2, o2);
    let o5 = mul_fx(o4, om);
    if om <= 0 || peak_omega <= 0 || o5 <= 0 {
        0
    } else {
        let base = div_fx(mul_fx(alpha, mul_fx(g, g)), o5);
        let ratio = div_fx(peak_omega, om);
        let r2 = mul_fx(ratio, ratio);
        let r4 = mul_fx(r2, r2);
        let decay = exp_fx(sub_fx(0, mul_fx(DECAY_COEFF, r4)));
        let sigma = if om <= peak_omega {
            SIGMA_LO
        } else {
            SIGMA_HI
        };
        let den = muli_fx(mul_fx(mul_fx(sigma, sigma), mul_fx(peak_omega, peak_omega)), 2);
        let d = sub_fx(om, peak_omega);
        let rr = if den <= 0 {
            0
        } else {
            div_fx(mul_fx(d, d), den)
        };
        let gexp = exp_fx(sub_fx(0, rr));
        let gbase = if gamma < 1 {
            1
        } else {
            gamma
        };
        let gpow = pow_fx(gbase, gexp);
        mul_fx(mul_fx(base, decay), gpow)
    }
}

/// Directional spreading: a blend between the isotropic density 1/(2*pi)
/// and a cosine-power lobe ((1+cos(theta-theta0))/2)^s around the band
/// angle, with s sharpened by the swell factor and an approximate
/// normalization (s+1)/(2*pi).
pub open spec fn spec_spread(band: SwellBand, rx: int, rz: int) -> int {
    let wt = fx_mul(band.angle as int, INV_TWO_PI as int);
    let wx = spec_cos_turns(wt);
    let wz = spec_sin_turns(wt);
    let cosd = fx_add(fx_mul(rx, wx), fx_mul(rz, wz));
    let hv = pos_part(fx_add(FRAC as int, cosd) / 2);
    let s = fx_add(SPREAD_BASE as int, fx_mul(SPREAD_SWELL as int, fx_mul(band.swell as int, band.swell as int)));
    let dirpow = if hv < 1 {
        0
    } else {
        spec_pow_fx(hv, s)
    };
    let norm = fx_mul(fx_add(s, FRAC as int), INV_TWO_PI as int);
    fx_add(
        fx_mul(fx_sub(FRAC as int, band.spread_blend as int), INV_TWO_PI as int),
        fx_mul(band.spread_blend as int, fx_mul(norm, dirpow)),
    )
}

/// Evaluate the directional spreading.
pub fn spread_value(band: &SwellBand, rx: i64, rz: i64) -> (r: i64)
    requires
        crate::fixed::in_range(band.angle as int),
    ensures
        r as int == spec_spread(*band, rx as int, rz as int),
{
    let wt = mul_fx(band.angle, INV_TWO_PI);
    let wx = cos_turns(wt);
    let wz = sin_turns(wt);
    let cosd = add_fx(mul_fx(rx, wx), mul_fx(rz, wz));
    let num = add_fx(FRAC, cosd);
    let hv = if num < 0 {
        0
    } else {
        crate::fixed::div_pos(num, 2)
    };
    proof {
        if num < 0 {
            vstd::arithmetic::div_mod::lemma_fundamental_div_mod(num as int, 2);
            assert(pos_part(fx_add(FRAC as int, cosd as int) / 2) == 0) by (nonlinear_arith)
                requires
                    num as int == fx_add(FRAC as int, cosd as int),
                    num as int == 2 * (num as int / 2) + num as int % 2,
                    0 <= num as int % 2 < 2,
                    (num as int) < 0,
            ;
        }
    }
    let s = add_fx(SPREAD_BASE, mul_fx(SPREAD_SWELL, mul_fx(band.swell, band.swell)));
    let dirpow = if hv < 1 {
        0
    } else {
        pow_fx(hv, s)
    };
    let norm = mul_fx(add_fx(s, FRAC), INV_TWO_PI);
    add_fx(mul_fx(sub_fx(FRAC, band.spread_blend), INV_TWO_PI), mul_fx(band.spread_blend, mul_fx(norm, dirpow)))
}

/// Energy contribution of one band at one wavenumber: the JONSWAP
/// density times the directional spread, the polar change of variables
/// (domega/dk) / k, and the short-wave fade, all scaled by the band's
/// energy scale. Zero for a disabled band or degenerate wavenumber.
pub open spec fn spec_band_energy(
    p: SimulationParameters,
    band: SwellBand,
    kx: int,
    kz: int,
    k2: int,
    kl: int,
    om: int,
) -> int {
    if band.scale <= 0 || kl <= 0 || om <= 0 {
        0
    } else {
        let sj = spec_jonswap(band.alpha as int, band.peak_omega as int, band.gamma as int, p.gravity as int, om);
        let rx = fx_div(kx, kl);
        let rz = fx_div(kz, kl);
        let d = spec_spread(band, rx, rz);
        let th = spec_tanh_fx(pos_part(fx_mul(kl, p.depth as int)));
        let sech2 = fx_sub(FRAC as int, fx_mul(th, th));
        let num = fx_mul(p.gravity as int, fx_add(th, fx_mul(fx_mul(kl, p.depth as int), sech2)));
        let om2 = fx_muli(om, 2);
        let dwdk = if om2 <= 0 {
            0
        } else {
            fx_div(num, om2)
        };
        let chg = fx_div(dwdk, kl);
        let fade = spec_exp_fx(
            fx_sub(0, fx_mul(k2, fx_mul(band.short_waves_fade as int, band.short_waves_fade as int))),
        );
        fx_mul(band.scale as int, fx_mul(fx_mul(sj, d), fx_mul(chg, fade)))
    }
}

/// Evaluate one band's energy contribution.
pub fn band_energy(
    p: &SimulationParameters,
    band: &SwellBand,
    kx: i64,
    kz: i64,
    k2: i64,
    kl: i64,
    om: i64,
) -> (r: i64)
    requires
        crate::fixed::in_range(band.angle as int),
    ensures
        r as int == spec_band_energy(*p, *band, kx as int, kz as int, k2 as int, kl as int, om as int),
{
    if band.scale <= 0 || kl <= 0 || om <= 0 {
        0
    } else {
        let sj = jonswap_value(band.alpha, band.peak_omega, band.gamma, p.gravity, om);
        let rx = div_fx(kx, kl);
        let rz = div_fx(kz, kl);
        let d = spread_value(band, rx, rz);
        let kd = mul_fx(kl, p.depth);
        let kdp = if kd < 0 {
            0
        } else {
            kd
        };
        let th = tanh_fx(kdp);
        let sech2 = sub_fx(FRAC, mul_fx(th, th));
        let num = mul_fx(p.gravity, add_fx(th, mul_fx(mul_fx(kl, p.depth), sech2)));
        let om2 = muli_fx(om, 2);
        let dwdk = if om2 <= 0 {
            0
        } else {
            div_fx(num, om2)
        };
        let chg = div_fx(dwdk, kl);
        let fade = exp_fx(sub_fx(0, mul_fx(k2, mul_fx(band.short_waves_fade, band.short_waves_fade))));
        mul_fx(band.scale, mul_fx(mul_fx(sj, d), mul_fx(chg, fade)))
    }
}

/// The spectral amplitude at one wavenumber: sqrt(2 * E(k) * dk^2) with E
/// the summed band energies, and exact zero at k = 0 and outside the
/// wavenumber cutoffs.
pub open spec fn spec_cell_amp(p: SimulationParameters, kx: int, kz: int) -> int {
    let k2 = fx_add(fx_mul(kx, kx), fx_mul(kz, kz));
    let kl = fx_sqrt(pos_part(k2));
    if kl <= 0 || kl < p.cutoff_low as int || kl > p.cutoff_high as int {
        0
    } else {
        let om = spec_dispersion(p.gravity as int, p.depth as int, kl);
        if om <= 0 {
            0
        } else {
            let e = fx_add(
                spec_band_energy(p, p.band1, kx, kz, k2, kl, om),
                spec_band_energy(p, p.band2, kx, kz, k2, kl, om),
            );
            let dk = spec_dk(p.length_scale as int);
            let e2 = fx_muli(fx_mul(pos_part(e), fx_mul(dk, dk)), 2);
            fx_sqrt(pos_part(e2))
        }
    }
}

/// Evaluate the spectral amplitude at one wavenumber.
pub fn cell_amp(p: &SimulationParameters, kx: i64, kz: i64) -> (r: i64)
    requires
        params_valid(*p),
    ensures
        r as int == spec_cell_amp(*p, kx as int, kz as int),
        0 <= r,
{
    let kx2 = mul_fx(kx, kx);
    let kz2 = mul_fx(kz, kz);
    let k2 = add_fx(kx2, kz2);
    let k2p = if k2 < 0 {
        0
    } else {
        k2
    };
    let kl = sqrt_fx(k2p);
    if kl <= 0 || kl < p.cutoff_low || kl > p.cutoff_high {
        0
    } else {
        let om = dispersion_omega(p.gravity, p.depth, kl);
        if om <= 0 {
            0
        } else {
            let e = add_fx(
                band_energy(p, &p.band1, kx, kz, k2, kl, om),
                band_energy(p, &p.band2, kx, kz, k2, kl, om),
            );
            let ep = if e < 0 {
                0
            } else {
                e
            };
            let dk = div_fx(TWO_PI, p.length_scale);
            let e2 = muli_fx(mul_fx(ep, mul_fx(dk, dk)), 2);
            let e2p = if e2 < 0 {
                0
            } else {
                e2
            };
            sqrt_fx(e2p)
        }
    }
}

/// The initial complex amplitude of one cell: the cell's noise sample
/// scaled by amp / sqrt(2).
pub open spec fn spec_h0_cell(p: SimulationParameters, z: Cplx, i: int, j: int) -> Cplx {
    let dk = spec_dk(p.length_scale as int);
    let kx = spec_kcomp(dk, i, p.n as int);
    let kz = spec_kcomp(dk, j, p.n as int);
    let a = spec_cell_amp(p, kx, kz);
    let half = fx_mul(a, INV_SQRT2 as int);
    Cplx { re: fx_mul(z.re as int, half) as i64, im: fx_mul(z.im as int, half) as i64 }
}

/// Evaluate one cell of h0.
pub fn h0_cell(p: &SimulationParameters, z: Cplx, i: usize, j: usize) -> (r: Cplx)
    requires
        params_valid(*p),
        i < p.n,
        j < p.n,
    ensures
        r == spec_h0_cell(*p, z, i as int, j as int),
{
    let dk = div_fx(TWO_PI, p.length_scale);
    let half_n = (p.n / 2) as i64;
    let kx = muli_fx(dk, i as i64 - half_n);
    let kz = muli_fx(dk, j as i64 - half_n);
    let a = cell_amp(p, kx, kz);
    let half = mul_fx(a, INV_SQRT2);
    Cplx { re: mul_fx(z.re, half), im: mul_fx(z.im, half) }
}

/// The grid index carrying the wavenumber -k of index i.
pub open spec fn mirror_idx(n: int, i: int) -> int {
    if i == 0 {
        0
    } else {
        n - i
    }
}

/// Mirroring stays on the grid and is an involution: sampling any index
/// pair and its mirror exercises both directions of the Hermitian
/// pairing.
pub proof fn lemma_mirror_involution(n: int, i: int)
    requires
        0 <= i < n,
    ensures
        0 <= mirror_idx(n, i) < n,
        mirror_idx(n, mirror_idx(n, i)) == i,
{
}

/// Build the initial spectrum h0 and its Hermitian counterpart
/// h0_conj(i, j) == conj(h0(-i, -j)) (indices mirrored on the grid), so
/// the inverse transform of the evolved spectrum is real-valued. Every
/// cell of both outputs is pinned: h0 pointwise from the noise and the
/// parameters, and h0_conj as the mirrored conjugate of h0 exactly by
/// construction.
pub fn init_spectrum(noise: &Field, p: &SimulationParameters) -> (r: (Field, Field))
    requires
        noise.wf(),
        noise.n == p.n,
        params_valid(*p),
    ensures
        r.0.wf() && r.0.n == p.n,
        r.1.wf() && r.1.n == p.n,
        forall|i: int, j: int|
            0 <= i < p.n && 0 <= j < p.n ==> #[trigger] r.0.at(i, j) == spec_h0_cell(
                *p,
                noise.at(i, j),
                i,
                j,
            ),
        forall|i: int, j: int|
            0 <= i < p.n && 0 <= j < p.n ==> #[trigger] r.1.at(i, j) == spec_conj(
                r.0.at(mirror_idx(p.n as int, i), mirror_idx(p.n as int, j)),
            ),
{
    let n = p.n;
    let mut h0 = Field::filled(n, Cplx { re: 0, im: 0 });
    let mut i: usize = 0;
    while i < n
        invariant
            h0.wf(),
            h0.n == n == p.n,
            noise.wf(),
            noise.n == n,
            params_valid(*p),
            i <= n,
            forall|r: int, c: int|
                0 <= r < i && 0 <= c < n ==> #[trigger] h0.at(r, c) == spec_h0_cell(
                    *p,
                    noise.at(r, c),
                    r,
                    c,
                ),
        decreases n - i,
    {
        let mut j: usize = 0;
        while j < n
            invariant
                h0.wf(),
                h0.n == n == p.n,
                noise.wf(),
                noise.n == n,
                params_valid(*p),
                i < n,
                j <= n,
                forall|r: int, c: int|
                    0 <= r < i && 0 <= c < n ==> #[trigger] h0.at(r, c) == spec_h0_cell(
                        *p,
                        noise.at(r, c),
                        r,
                        c,
                    ),
                forall|c: int|
                    0 <= c < j ==> #[trigger] h0.at(i as int, c) == spec_h0_cell(
                        *p,
                        noise.at(i as int, c),
                        i as int,
                        c,
                    ),
            decreases n - j,
        {
            let z = noise.get(i, j);
            let v = h0_cell(p, z, i, j);
            h0.set(i, j, v);
            j = j + 1;
        }
        i = i + 1;
    }
    let mut h0c = Field::filled(n, Cplx { re: 0, im: 0 });
    let mut i2: usize = 0;
    while i2 < n
        invariant
            h0.wf(),
            h0.n == n == p.n,
            h0c.wf(),
            h0c.n == n,
            i2 <= n,
            1 <= n,
            forall|r: int, c: int|
                0 <= r < i2 && 0 <= c < n ==> #[trigger] h0c.at(r, c) == spec_conj(
                    h0.at(mirror_idx(n as int, r), mirror_idx(n as int, c)),
                ),
        decreases n - i2,
    {
        let mut j2: usize = 0;
        while j2 < n
            invariant
                h0.wf(),
                h0.n == n == p.n,
                h0c.wf(),
                h0c.n == n,
                i2 < n,
                j2 <= n,
                1 <= n,
                forall|r: int, c: int|
                    0 <= r < i2 && 0 <= c < n ==> #[trigger] h0c.at(r, c) == spec_conj(
                        h0.at(mirror_idx(n as int, r), mirror_idx(n as int, c)),
                    ),
                forall|c: int|
                    0 <= c < j2 ==> #[trigger] h0c.at(i2 as int, c) == spec_conj(
                        h0.at(mirror_idx(n as int, i2 as int), mirror_idx(n as int, c)),
                    ),
            decreases n - j2,
        {
            let mi = if i2 == 0 {
                0
            } else {
                n - i2
            };
            let mj = if j2 == 0 {
                0
            } else {
                n - j2
            };
            let v = conj(h0.get(mi, mj));
            h0c.set(i2, j2, v);
            j2 = j2 + 1;
        }
        i2 = i2 + 1;
    }
    (h0, h0c)
}

} // verus!
