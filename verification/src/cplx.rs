//! Packed complex samples over saturating fixed-point channels.

use vstd::prelude::*;
use vstd::arithmetic::div_mod::lemma_div_multiples_vanish;
use crate::fixed::{FRAC, fx_add, fx_sub, fx_mul, in_range, add_fx, sub_fx, mul_fx};

verus! {

/// One grid cell of a spectral field: a complex number with fixed-point
/// real and imaginary channels.
#[derive(Clone, Copy, PartialEq, Eq, Structural, Debug)]
pub struct Cplx {
    pub re: i64,
    pub im: i64,
}

/// Both channels lie in the saturation band.
pub open spec fn cplx_ok(z: Cplx) -> bool {
    in_range(z.re as int) && in_range(z.im as int)
}

pub open spec fn cplx_zero() -> Cplx {
    Cplx { re: 0, im: 0 }
}

/// The complex unit 1 (real channel FRAC).
pub open spec fn cplx_one() -> Cplx {
    Cplx { re: FRAC, im: 0 }
}

pub open spec fn spec_cadd(a: Cplx, b: Cplx) -> Cplx {
    Cplx {
        re: fx_add(a.re as int, b.re as int) as i64,
        im: fx_add(a.im as int, b.im as int) as i64,
    }
}

pub open spec fn spec_csub(a: Cplx, b: Cplx) -> Cplx {
    Cplx {
        re: fx_sub(a.re as int, b.re as int) as i64,
        im: fx_sub(a.im as int, b.im as int) as i64,
    }
}

pub open spec fn spec_cmul(a: Cplx, b: Cplx) -> Cplx {
    Cplx {
        re: fx_sub(
            fx_mul(a.re as int, b.re as int),
            fx_mul(a.im as int, b.im as int),
        ) as i64,
        im: fx_add(
            fx_mul(a.re as int, b.im as int),
            fx_mul(a.im as int, b.re as int),
        ) as i64,
    }
}

/// Complex conjugate (the negation saturates).
pub open spec fn spec_conj(a: Cplx) -> Cplx {
    Cplx { re: a.re, im: fx_sub(0, a.im as int) as i64 }
}

pub fn cadd(a: Cplx, b: Cplx) -> (r: Cplx)
    ensures
        r == spec_cadd(a, b),
        cplx_ok(r),
{
    Cplx { re: add_fx(a.re, b.re), im: add_fx(a.im, b.im) }
}

pub fn csub(a: Cplx, b: Cplx) -> (r: Cplx)
    ensures
        r == spec_csub(a, b),
        cplx_ok(r),
{
    Cplx { re: sub_fx(a.re, b.re), im: sub_fx(a.im, b.im) }
}

pub fn cmul(a: Cplx, b: Cplx) -> (r: Cplx)
    ensures
        r == spec_cmul(a, b),
        cplx_ok(r),
{
    Cplx {
        re: sub_fx(mul_fx(a.re, b.re), mul_fx(a.im, b.im)),
        im: add_fx(mul_fx(a.re, b.im), mul_fx(a.im, b.re)),
    }
}

pub fn conj(a: Cplx) -> (r: Cplx)
    ensures
        r == spec_conj(a),
{
    Cplx { re: a.re, im: sub_fx(0, a.im) }
}

/// Multiplying by the exact fixed-point unit changes nothing
/// (within the saturation band).
pub proof fn lemma_cmul_one(z: Cplx)
    requires
        cplx_ok(z),
    ensures
        spec_cmul(cplx_one(), z) == z,
        spec_cmul(z, cplx_one()) == z,
{
    lemma_fx_mul_unit(z.re as int);
    lemma_fx_mul_unit(z.im as int);
    lemma_fx_mul_left_zero(z.re as int);
    lemma_fx_mul_left_zero(z.im as int);
}

/// Multiplying anything by the zero sample gives zero.
pub proof fn lemma_cmul_zero_right(w: Cplx)
    ensures
        spec_cmul(w, cplx_zero()) == cplx_zero(),
{
    lemma_fx_mul_left_zero(w.re as int);
    lemma_fx_mul_left_zero(w.im as int);
}

/// Subtracting the zero sample changes nothing (within the saturation band).
pub proof fn lemma_csub_zero(z: Cplx)
    requires
        cplx_ok(z),
    ensures
        spec_csub(z, cplx_zero()) == z,
{
}

/// Adding the zero sample changes nothing (within the saturation band).
pub proof fn lemma_cadd_zero(z: Cplx)
    requires
        cplx_ok(z),
    ensures
        spec_cadd(z, cplx_zero()) == z,
        spec_cadd(cplx_zero(), z) == z,
{
}

pub proof fn lemma_fx_mul_unit(x: int)
    requires
        in_range(x),
    ensures
        fx_mul(FRAC as int, x) == x,
        fx_mul(x, FRAC as int) == x,
{
    lemma_div_multiples_vanish(x, FRAC as int);
    assert((FRAC as int) * x == x * (FRAC as int)) by (nonlinear_arith);
}

pub proof fn lemma_fx_mul_left_zero(x: int)
    ensures
        fx_mul(0, x) == 0,
        fx_mul(x, 0) == 0,
{
    assert(0 * x == 0) by (nonlinear_arith);
    assert(x * 0 == 0) by (nonlinear_arith);
}

} // verus!
