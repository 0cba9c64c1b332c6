//! Field compositor: merges the four spatial-domain channel fields into
//! the three renderer-facing maps, accumulating foam from the surface
//! Jacobian with time decay.

use vstd::prelude::*;
use crate::cplx::Cplx;
use crate::field::{Field, lemma_grid_total};
use crate::fixed::{FRAC, fx_add, fx_sub, fx_mul, add_fx, sub_fx, mul_fx};
use crate::transcend::pos_part;

verus! {

/// Jacobian threshold below which foam accumulates (wave folding).
pub const FOAM_THRESHOLD: i64 = 524288;

/// Foam decay rate per second.
pub const FOAM_DECAY: i64 = 524288;

/// Foam accumulation gain.
pub const FOAM_GAIN: i64 = 1048576;

/// One displacement sample: horizontal offsets x, z and height y.
#[derive(Clone, Copy, PartialEq, Eq, Structural, Debug)]
pub struct DisplacementCell {
    pub x: i64,
    pub y: i64,
    pub z: i64,
}

/// One derivative sample: height slopes and horizontal self-derivatives.
#[derive(Clone, Copy, PartialEq, Eq, Structural, Debug)]
pub struct DerivativeCell {
    pub yx: i64,
    pub yz: i64,
    pub xx: i64,
    pub zz: i64,
}

/// The three renderer-facing maps of one simulation step.
pub struct OutputMaps {
    pub n: usize,
    pub displacement: Vec<DisplacementCell>,
    pub derivative: Vec<DerivativeCell>,
    pub foam: Vec<i64>,
}

/// The local Jacobian determinant of the displaced surface:
/// (1 + dDx/dx)(1 + dDz/dz) - (dDx/dz)^2.
pub open spec fn spec_jacobian(dxz: int, dxx: int, dzz: int) -> int {
    fx_sub(fx_mul(fx_add(FRAC as int, dxx), fx_add(FRAC as int, dzz)), fx_mul(dxz, dxz))
}

/// One foam update: decay by FOAM_DECAY * dt (never below zero), then,
/// where the Jacobian is below the folding threshold, accumulate
/// proportionally to the deficit, clamped to [0, 1].
pub open spec fn spec_foam_update(foam: int, jac: int, dt: int) -> int {
    let decayed = pos_part(foam - pos_part(fx_mul(FOAM_DECAY as int, dt)));
    if jac < FOAM_THRESHOLD {
        let gain = pos_part(fx_mul(FOAM_GAIN as int, fx_sub(FOAM_THRESHOLD as int, jac)));
        let v = fx_add(decayed, gain);
        if v > FRAC {
            FRAC as int
        } else {
            v
        }
    } else {
        decayed
    }
}

/// Pure decay is monotone: when the Jacobian stays at or above the
/// threshold, a step never increases foam, and foam never goes negative.
pub proof fn lemma_foam_decay_monotone(foam: int, jac: int, dt: int)
    requires
        0 <= foam,
        FOAM_THRESHOLD <= jac,
    ensures
        spec_foam_update(foam, jac, dt) <= foam,
        0 <= spec_foam_update(foam, jac, dt),
{
}

/// Foam stays inside [0, 1] whatever the Jacobian and time step.
pub proof fn lemma_foam_in_unit_range(foam: int, jac: int, dt: int)
    requires
        0 <= foam <= FRAC,
    ensures
        0 <= spec_foam_update(foam, jac, dt) <= FRAC,
{
}

/// Evaluate one foam update.
pub fn foam_update(foam: i64, jac: i64, dt: i64) -> (r: i64)
    ensures
        r as int == spec_foam_update(foam as int, jac as int, dt as int),
{
    let dec_amount = mul_fx(FOAM_DECAY, dt);
    let dec_pos = if dec_amount < 0 {
        0
    } else {
        dec_amount
    };
    let decayed_raw = (foam as i128) - (dec_pos as i128);
    let decayed = if decayed_raw < 0 {
        0
    } else {
        decayed_raw as i64
    };
    if jac < FOAM_THRESHOLD {
        let gain_raw = mul_fx(FOAM_GAIN, sub_fx(FOAM_THRESHOLD, jac));
        let gain = if gain_raw < 0 {
            0
        } else {
            gain_raw
        };
        let v = add_fx(decayed, gain);
        if v > FRAC {
            FRAC
        } else {
            v
        }
    } else {
        decayed
    }
}

/// What the displacement map holds at one cell, given the four spatial
/// channel samples.
pub open spec fn spec_displacement_cell(c1: Cplx, c2: Cplx) -> DisplacementCell {
    DisplacementCell { x: c1.re, y: c2.re, z: c1.im }
}

/// What the derivative map holds at one cell.
pub open spec fn spec_derivative_cell(c3: Cplx, c4: Cplx) -> DerivativeCell {
    DerivativeCell { yx: c3.re, yz: c3.im, xx: c4.re, zz: c4.im }
}

/// Merge the four spatial channel fields into the three output maps:
/// displacement (horizontal offsets and height), derivative (slopes),
/// and foam updated from the previous foam state and the Jacobian. All
/// three maps are produced together; a step updates all of them or none.
pub fn composite(
    c1: &Field,
    c2: &Field,
    c3: &Field,
    c4: &Field,
    foam_prev: &Vec<i64>,
    dt: i64,
) -> (r: OutputMaps)
    requires
        c1.wf(),
        c2.wf() && c2.n == c1.n,
        c3.wf() && c3.n == c1.n,
        c4.wf() && c4.n == c1.n,
        foam_prev@.len() == c1.n * c1.n,
    ensures
        r.n == c1.n,
        r.displacement@.len() == c1.n * c1.n,
        r.derivative@.len() == c1.n * c1.n,
        r.foam@.len() == c1.n * c1.n,
        forall|idx: int|
            0 <= idx < c1.n * c1.n ==> #[trigger] r.displacement@[idx] == spec_displacement_cell(
                c1.data@[idx],
                c2.data@[idx],
            ),
        forall|idx: int|
            0 <= idx < c1.n * c1.n ==> #[trigger] r.derivative@[idx] == spec_derivative_cell(
                c3.data@[idx],
                c4.data@[idx],
            ),
        forall|idx: int|
            0 <= idx < c1.n * c1.n ==> #[trigger] r.foam@[idx] == spec_foam_update(
                foam_prev@[idx] as int,
                spec_jacobian(c2.data@[idx].im as int, c4.data@[idx].re as int, c4.data@[idx].im as int),
                dt as int,
            ),
{
    let n = c1.n;
    proof {
        lemma_grid_total(n as int);
    }
    let total = n * n;
    let mut displacement: Vec<DisplacementCell> = Vec::new();
    let mut derivative: Vec<DerivativeCell> = Vec::new();
    let mut foam: Vec<i64> = Vec::new();
    let mut idx: usize = 0;
    while idx < total
        invariant
            c1.wf() && c1.n == n,
            c2.wf() && c2.n == n,
            c3.wf() && c3.n == n,
            c4.wf() && c4.n == n,
            foam_prev@.len() == total,
            total == n * n,
            idx <= total,
            displacement@.len() == idx,
            derivative@.len() == idx,
            foam@.len() == idx,
            forall|k: int|
                0 <= k < idx ==> #[trigger] displacement@[k] == spec_displacement_cell(
                    c1.data@[k],
                    c2.data@[k],
                ),
            forall|k: int|
                0 <= k < idx ==> #[trigger] derivative@[k] == spec_derivative_cell(
                    c3.data@[k],
                    c4.data@[k],
                ),
            forall|k: int|
                0 <= k < idx ==> #[trigger] foam@[k] == spec_foam_update(
                    foam_prev@[k] as int,
                    spec_jacobian(c2.data@[k].im as int, c4.data@[k].re as int, c4.data@[k].im as int),
                    dt as int,
                ),
        decreases total - idx,
    {
        let v1 = c1.data[idx];
        let v2 = c2.data[idx];
        let v3 = c3.data[idx];
        let v4 = c4.data[idx];
        let jac = sub_fx(mul_fx(add_fx(FRAC, v4.re), add_fx(FRAC, v4.im)), mul_fx(v2.im, v2.im));
        let fp = foam_prev[idx];
        displacement.push(DisplacementCell { x: v1.re, y: v2.re, z: v1.im });
        derivative.push(DerivativeCell { yx: v3.re, yz: v3.im, xx: v4.re, zz: v4.im });
        foam.push(foam_update(fp, jac, dt));
        idx = idx + 1;
    }
    OutputMaps { n, displacement, derivative, foam }
}

} // verus!
