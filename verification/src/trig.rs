//! Fixed-point sine and cosine.
//!
//! Angles are measured in turns: a phase argument t stands for t / FRAC
//! full revolutions. A quarter turn is reduced to the first quadrant and
//! evaluated by a Taylor polynomial; the polynomials are exact at phase
//! zero (sin 0 == 0 and cos 0 == FRAC hold with no rounding), which the
//! time-evolution contracts rely on.

use vstd::prelude::*;
use vstd::arithmetic::div_mod::lemma_fundamental_div_mod_converse;
use crate::fixed::{FRAC, fx_add, fx_mul, fx_sub, in_range, add_fx, mul_fx, sub_fx, mod_floor};

verus! {

/// A quarter turn in raw phase units.
pub const QUARTER: i64 = 0x4_0000;

/// Taylor coefficients of sin(2*pi*y) in turns, 20 fractional bits.
pub const SIN_C1: i64 = 6588397;

pub const SIN_C3: i64 = -43349917;

pub const SIN_C5: i64 = 85569306;

pub const SIN_C7: i64 = -80431924;

pub const SIN_C9: i64 = 44101737;

/// Taylor coefficients of cos(2*pi*y) in turns, 20 fractional bits.
pub const COS_C2: i64 = -20698061;

pub const COS_C4: i64 = 68093890;

pub const COS_C6: i64 = -89607968;

pub const COS_C8: i64 = 63171085;

pub const COS_C10: i64 = -27709939;

/// sin(2*pi*y) for y in [0, QUARTER], by an odd Taylor polynomial.
pub open spec fn sin_quarter(y: int) -> int {
    let y2 = fx_mul(y, y);
    fx_mul(
        y,
        fx_add(
            SIN_C1 as int,
            fx_mul(
                y2,
                fx_add(
                    SIN_C3 as int,
                    fx_mul(
                        y2,
                        fx_add(SIN_C5 as int, fx_mul(y2, fx_add(SIN_C7 as int, fx_mul(y2, SIN_C9 as int)))),
                    ),
                ),
            ),
        ),
    )
}

/// cos(2*pi*y) for y in [0, QUARTER], by an even Taylor polynomial.
pub open spec fn cos_quarter(y: int) -> int {
    let y2 = fx_mul(y, y);
    fx_add(
        FRAC as int,
        fx_mul(
            y2,
            fx_add(
                COS_C2 as int,
                fx_mul(
                    y2,
                    fx_add(
                        COS_C4 as int,
                        fx_mul(
                            y2,
                            fx_add(COS_C6 as int, fx_mul(y2, fx_add(COS_C8 as int, fx_mul(y2, COS_C10 as int)))),
                        ),
                    ),
                ),
            ),
        ),
    )
}

/// Sine of a phase in raw turn units (any integer phase; reduced mod FRAC).
pub open spec fn spec_sin_turns(t: int) -> int {
    let u = t % (FRAC as int);
    let q = u / (QUARTER as int);
    let r = u % (QUARTER as int);
    if q == 0 {
        sin_quarter(r)
    } else if q == 1 {
        cos_quarter(r)
    } else if q == 2 {
        fx_sub(0, sin_quarter(r))
    } else {
        fx_sub(0, cos_quarter(r))
    }
}

/// Cosine of a phase in raw turn units.
pub open spec fn spec_cos_turns(t: int) -> int {
    let u = t % (FRAC as int);
    let q = u / (QUARTER as int);
    let r = u % (QUARTER as int);
    if q == 0 {
        cos_quarter(r)
    } else if q == 1 {
        fx_sub(0, sin_quarter(r))
    } else if q == 2 {
        fx_sub(0, cos_quarter(r))
    } else {
        sin_quarter(r)
    }
}

/// At phase zero the kernels are exact: sin 0 == 0 and cos 0 == 1.
pub proof fn lemma_trig_zero()
    ensures
        spec_sin_turns(0) == 0,
        spec_cos_turns(0) == FRAC as int,
{
    crate::fixed::lemma_fx_mul_zero_all();
    assert(sin_quarter(0) == 0);
    assert(cos_quarter(0) == FRAC as int);
}

/// Evaluate the first-quadrant sine polynomial.
fn sin_quarter_exec(y: i64) -> (r: i64)
    ensures
        r as int == sin_quarter(y as int),
{
    let y2 = mul_fx(y, y);
    mul_fx(
        y,
        add_fx(
            SIN_C1,
            mul_fx(
                y2,
                add_fx(SIN_C3, mul_fx(y2, add_fx(SIN_C5, mul_fx(y2, add_fx(SIN_C7, mul_fx(y2, SIN_C9)))))),
            ),
        ),
    )
}

/// Evaluate the first-quadrant cosine polynomial.
fn cos_quarter_exec(y: i64) -> (r: i64)
    ensures
        r as int == cos_quarter(y as int),
{
    let y2 = mul_fx(y, y);
    add_fx(
        FRAC,
        mul_fx(
            y2,
            add_fx(
                COS_C2,
                mul_fx(y2, add_fx(COS_C4, mul_fx(y2, add_fx(COS_C6, mul_fx(y2, add_fx(COS_C8, mul_fx(y2, COS_C10))))))),
            ),
        ),
    )
}

/// Split a reduced phase into quadrant and offset.
fn quadrant(u: i64) -> (qr: (i64, i64))
    requires
        0 <= u < FRAC,
    ensures
        qr.0 as int == (u as int) / (QUARTER as int),
        qr.1 as int == (u as int) % (QUARTER as int),
        0 <= qr.1 < QUARTER,
        0 <= qr.0 <= 3,
{
    let (q, r): (i64, i64) = if u < QUARTER {
        (0, u)
    } else if u < 2 * QUARTER {
        (1, u - QUARTER)
    } else if u < 3 * QUARTER {
        (2, u - 2 * QUARTER)
    } else {
        (3, u - 3 * QUARTER)
    };
    proof {
        lemma_fundamental_div_mod_converse(
            u as int,
            QUARTER as int,
            q as int,
            u as int - (q as int) * (QUARTER as int),
        );
    }
    (q, r)
}

pub fn sin_turns(t: i64) -> (r: i64)
    requires
        in_range(t as int),
    ensures
        r as int == spec_sin_turns(t as int),
{
    let u = mod_floor(t, FRAC);
    let (q, rr) = quadrant(u);
    if q == 0 {
        sin_quarter_exec(rr)
    } else if q == 1 {
        cos_quarter_exec(rr)
    } else if q == 2 {
        sub_fx(0, sin_quarter_exec(rr))
    } else {
        sub_fx(0, cos_quarter_exec(rr))
    }
}

pub fn cos_turns(t: i64) -> (r: i64)
    requires
        in_range(t as int),
    ensures
        r as int == spec_cos_turns(t as int),
{
    let u = mod_floor(t, FRAC);
    let (q, rr) = quadrant(u);
    if q == 0 {
        cos_quarter_exec(rr)
    } else if q == 1 {
        sub_fx(0, sin_quarter_exec(rr))
    } else if q == 2 {
        sub_fx(0, cos_quarter_exec(rr))
    } else {
        sin_quarter_exec(rr)
    }
}

} // verus!
