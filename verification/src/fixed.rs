//! Saturating fixed-point arithmetic.
//!
//! A quantity is stored as an `i64` holding `value * FRAC` (20 fractional
//! bits). Every operation clips its mathematical result into
//! `[-SAT, SAT]`, so no operation overflows or panics; the spec functions
//! (`fx_add`, `fx_mul`, ...) state the exact clipped result.

use vstd::prelude::*;
use vstd::arithmetic::div_mod::{
    lemma_fundamental_div_mod, lemma_fundamental_div_mod_converse_div,
    lemma_fundamental_div_mod_converse,
};

verus! {

/// Fixed-point scale: a stored `i64` x represents the real number x / FRAC.
pub const FRAC: i64 = 0x10_0000;

/// Saturation bound of every fixed-point operation (2^62 - 1).
pub const SAT: i64 = 0x3FFF_FFFF_FFFF_FFFF;

/// Clip a mathematical integer into the representable band `[-SAT, SAT]`.
pub open spec fn clip(x: int) -> int {
    if x > SAT as int {
        SAT as int
    } else if x < -(SAT as int) {
        -(SAT as int)
    } else {
        x
    }
}

/// A raw value the fixed-point operations can return.
pub open spec fn in_range(x: int) -> bool {
    -(SAT as int) <= x <= SAT as int
}

/// Saturating fixed-point addition.
pub open spec fn fx_add(a: int, b: int) -> int {
    clip(a + b)
}

/// Saturating fixed-point subtraction.
pub open spec fn fx_sub(a: int, b: int) -> int {
    clip(a - b)
}

/// Saturating fixed-point multiplication: floor((a * b) / FRAC), clipped.
pub open spec fn fx_mul(a: int, b: int) -> int {
    clip((a * b) / (FRAC as int))
}

/// Saturating fixed-point division by a positive divisor:
/// floor((a * FRAC) / b), clipped.
pub open spec fn fx_div(a: int, b: int) -> int
    recommends
        0 < b,
{
    clip((a * (FRAC as int)) / b)
}

/// Saturating plain integer multiplication (no rescale): used to scale a
/// fixed-point value by a small integer count.
pub open spec fn fx_muli(a: int, b: int) -> int {
    clip(a * b)
}

/// Largest r >= 0 with r * r <= v (and 0 when v <= 0).
pub open spec fn sqrt_floor(v: int) -> int
    decreases v,
{
    if v <= 0 {
        0
    } else {
        let r = sqrt_floor(v - 1);
        if (r + 1) * (r + 1) <= v {
            r + 1
        } else {
            r
        }
    }
}

/// Fixed-point square root of a nonnegative value: since v stands for
/// v / FRAC, its root is sqrt(v * FRAC) in raw units.
pub open spec fn fx_sqrt(a: int) -> int {
    if a <= 0 {
        0
    } else {
        sqrt_floor(a * (FRAC as int))
    }
}

pub proof fn lemma_sqrt_floor_bounds(v: int)
    requires
        0 <= v,
    ensures
        0 <= sqrt_floor(v),
        sqrt_floor(v) * sqrt_floor(v) <= v,
        v < (sqrt_floor(v) + 1) * (sqrt_floor(v) + 1),
    decreases v,
{
    if v == 0 {
    } else {
        lemma_sqrt_floor_bounds(v - 1);
        let p = sqrt_floor(v - 1);
        if (p + 1) * (p + 1) <= v {
            assert((p + 2) * (p + 2) > v) by (nonlinear_arith)
                requires
                    0 <= p,
                    v - 1 < (p + 1) * (p + 1),
            ;
        }
    }
}

pub proof fn lemma_sqrt_floor_unique(v: int, r: int)
    requires
        0 <= r,
        r * r <= v,
        v < (r + 1) * (r + 1),
    ensures
        sqrt_floor(v) == r,
{
    assert(0 <= v) by (nonlinear_arith)
        requires
            0 <= r,
            r * r <= v,
    ;
    lemma_sqrt_floor_bounds(v);
    let s = sqrt_floor(v);
    if s < r {
        assert((s + 1) * (s + 1) <= r * r) by (nonlinear_arith)
            requires
                0 <= s,
                s + 1 <= r,
        ;
        assert(false);
    }
    if r < s {
        assert((r + 1) * (r + 1) <= s * s) by (nonlinear_arith)
            requires
                0 <= r,
                r + 1 <= s,
        ;
        assert(false);
    }
}

proof fn lemma_i64_product_fits(a: int, b: int)
    requires
        -0x8000_0000_0000_0000 <= a <= 0x7FFF_FFFF_FFFF_FFFF,
        -0x8000_0000_0000_0000 <= b <= 0x7FFF_FFFF_FFFF_FFFF,
    ensures
        -0x4000_0000_0000_0000_0000_0000_0000_0000 <= a * b
            <= 0x4000_0000_0000_0000_0000_0000_0000_0000,
{
    assert(-0x4000_0000_0000_0000_0000_0000_0000_0000 <= a * b
        <= 0x4000_0000_0000_0000_0000_0000_0000_0000) by (nonlinear_arith)
        requires
            -0x8000_0000_0000_0000 <= a <= 0x7FFF_FFFF_FFFF_FFFF,
            -0x8000_0000_0000_0000 <= b <= 0x7FFF_FFFF_FFFF_FFFF,
    ;
}

/// Clip an i128 into the saturation band.
pub fn clip_i128(x: i128) -> (r: i64)
    ensures
        r as int == clip(x as int),
{
    if x > SAT as i128 {
        SAT
    } else if x < -(SAT as i128) {
        -SAT
    } else {
        x as i64
    }
}

/// Euclidean (floor) division of p by a positive divisor d.
pub fn div_floor_i128(p: i128, d: i128) -> (q: i128)
    requires
        0 < d,
        -0x7FFF_FFFF_FFFF_FFFF_FFFF_FFFF_FFFF_FFFF <= p,
    ensures
        q as int == p as int / d as int,
{
    if p >= 0 {
        let q = (p as u128) / (d as u128);
        q as i128
    } else {
        let n = (-p) as u128;
        let qq = (n + (d as u128 - 1)) / (d as u128);
        proof {
            lemma_fundamental_div_mod(p as int, d as int);
            let q0 = p as int / d as int;
            let r0 = p as int % d as int;
            // n + d - 1 == (-q0) * d + (d - 1 - r0), with the remainder in [0, d),
            // and the quotient lies between p and 0.
            assert(n as int + d as int - 1 == (-q0) * (d as int) + (d as int - 1 - r0)
                && (p as int) <= q0 <= 0) by (nonlinear_arith)
                requires
                    p as int == (d as int) * q0 + r0,
                    0 <= r0 < (d as int),
                    (p as int) < 0,
                    0 < (d as int),
                    n as int == -(p as int),
            ;
            lemma_fundamental_div_mod_converse_div(
                n as int + d as int - 1,
                d as int,
                -q0,
                d as int - 1 - r0,
            );
        }
        -(qq as i128)
    }
}

/// Saturating fixed-point addition.
pub fn add_fx(a: i64, b: i64) -> (r: i64)
    ensures
        r as int == fx_add(a as int, b as int),
{
    clip_i128(a as i128 + b as i128)
}

/// Saturating fixed-point subtraction.
pub fn sub_fx(a: i64, b: i64) -> (r: i64)
    ensures
        r as int == fx_sub(a as int, b as int),
{
    clip_i128(a as i128 - b as i128)
}

/// Saturating fixed-point multiplication.
pub fn mul_fx(a: i64, b: i64) -> (r: i64)
    ensures
        r as int == fx_mul(a as int, b as int),
{
    proof {
        lemma_i64_product_fits(a as int, b as int);
    }
    let p = (a as i128) * (b as i128);
    let q = div_floor_i128(p, FRAC as i128);
    clip_i128(q)
}

/// Saturating plain integer multiplication.
pub fn muli_fx(a: i64, b: i64) -> (r: i64)
    ensures
        r as int == fx_muli(a as int, b as int),
{
    proof {
        lemma_i64_product_fits(a as int, b as int);
    }
    clip_i128((a as i128) * (b as i128))
}

/// Saturating fixed-point division by a positive divisor.
pub fn div_fx(a: i64, b: i64) -> (r: i64)
    requires
        0 < b,
    ensures
        r as int == fx_div(a as int, b as int),
{
    proof {
        lemma_i64_product_fits(a as int, FRAC as int);
    }
    let p = (a as i128) * (FRAC as i128);
    let q = div_floor_i128(p, b as i128);
    clip_i128(q)
}

/// Binary-search integer square root.
fn isqrt_u128(v: u128) -> (r: u128)
    requires
        (v as int) < 0x10_0000_0000_0000_0000_0000_0000,
    ensures
        (r as int) * (r as int) <= v as int,
        (v as int) < (r as int + 1) * (r as int + 1),
{
    let mut lo: u128 = 0;
    let mut hi: u128 = 0x4_0000_0000_0000;
    while lo + 1 < hi
        invariant
            lo < hi <= 0x4_0000_0000_0000,
            (lo as int) * (lo as int) <= v as int,
            (v as int) < (hi as int) * (hi as int),
        decreases hi - lo,
    {
        let mid = lo + (hi - lo) / 2;
        proof {
            assert((mid as int) * (mid as int) < 0x10_0000_0000_0000_0000_0000_0000)
                by (nonlinear_arith)
                requires
                    (mid as int) < 0x4_0000_0000_0000,
                    0 <= mid as int,
            ;
        }
        if mid * mid <= v {
            lo = mid;
        } else {
            hi = mid;
        }
    }
    lo
}

/// Euclidean remainder of t by a positive modulus.
pub fn mod_floor(t: i64, m: i64) -> (r: i64)
    requires
        0 < m,
        -0x7FFF_FFFF_FFFF_FFFF <= t,
    ensures
        r as int == (t as int) % (m as int),
        0 <= r < m,
{
    if t >= 0 {
        let r = ((t as u64) % (m as u64)) as i64;
        r
    } else {
        let n = (-t) as u64;
        let rn = (n % (m as u64)) as i64;
        proof {
            lemma_fundamental_div_mod(n as int, m as int);
            let qn = n as int / m as int;
            let rr = n as int % m as int;
            if rr == 0 {
                assert(t as int == (m as int) * (-qn) + 0) by (nonlinear_arith)
                    requires
                        n as int == (m as int) * qn + rr,
                        rr == 0,
                        t as int == -(n as int),
                ;
                lemma_fundamental_div_mod_converse(t as int, m as int, -qn, 0);
            } else {
                assert(t as int == (m as int) * (-qn - 1) + (m as int - rr)) by (nonlinear_arith)
                    requires
                        n as int == (m as int) * qn + rr,
                        t as int == -(n as int),
                ;
                lemma_fundamental_div_mod_converse(t as int, m as int, -qn - 1, m as int - rr);
            }
        }
        if rn == 0 {
            0
        } else {
            m - rn
        }
    }
}

/// Euclidean division of a nonnegative value by a positive divisor.
pub fn div_pos(a: i64, d: i64) -> (r: i64)
    requires
        0 <= a,
        0 < d,
    ensures
        r as int == (a as int) / (d as int),
        0 <= r <= a,
{
    ((a as u64) / (d as u64)) as i64
}

/// Multiplying by zero gives zero, on either side.
pub proof fn lemma_fx_mul_zero_all()
    ensures
        forall|x: int| #[trigger] fx_mul(0, x) == 0,
        forall|x: int| #[trigger] fx_mul(x, 0) == 0,
{
    assert forall|x: int| #[trigger] fx_mul(0, x) == 0 by {
        assert(0 * x == 0) by (nonlinear_arith);
    }
    assert forall|x: int| #[trigger] fx_mul(x, 0) == 0 by {
        assert(x * 0 == 0) by (nonlinear_arith);
    }
}

/// The product of nonnegatives is nonnegative, after scaling and clipping.
pub proof fn lemma_fx_mul_nonneg(a: int, b: int)
    requires
        0 <= a,
        0 <= b,
    ensures
        0 <= fx_mul(a, b),
{
    assert(0 <= a * b) by (nonlinear_arith)
        requires
            0 <= a,
            0 <= b,
    ;
    assert(0 <= (a * b) / (FRAC as int));
}

/// The quotient of a nonnegative by a positive is nonnegative, clipped.
pub proof fn lemma_fx_div_nonneg(a: int, b: int)
    requires
        0 <= a,
        0 < b,
    ensures
        0 <= fx_div(a, b),
{
    assert(0 <= a * (FRAC as int)) by (nonlinear_arith)
        requires
            0 <= a,
    ;
    assert(0 <= (a * (FRAC as int)) / b);
}

/// Fixed-point square root of a nonnegative value.
pub fn sqrt_fx(a: i64) -> (r: i64)
    requires
        0 <= a,
    ensures
        r as int == fx_sqrt(a as int),
        0 <= r,
{
    if a == 0 {
        0
    } else {
        proof {
            assert((a as int) * (FRAC as int) < 0x10_0000_0000_0000_0000_0000_0000)
                by (nonlinear_arith)
                requires
                    0 <= a as int <= 0x7FFF_FFFF_FFFF_FFFF,
            ;
        }
        let v = (a as u128) * (FRAC as u128);
        let r = isqrt_u128(v);
        proof {
            lemma_sqrt_floor_unique(v as int, r as int);
            assert((r as int) < 0x4_0000_0000_0000) by (nonlinear_arith)
                requires
                    (r as int) * (r as int) <= v as int,
                    (v as int) < 0x10_0000_0000_0000_0000_0000_0000,
                    0 <= r as int,
            ;
        }
        r as i64
    }
}

} // verus!
