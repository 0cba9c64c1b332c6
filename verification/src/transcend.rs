//! Fixed-point exponential, logarithm, hyperbolic tangent and power.
//!
//! exp splits x * log2(e) into integer and fractional parts, evaluates
//! 2^frac by a Taylor polynomial and shifts by doublings or halvings
//! (saturating upward). ln normalizes its argument into [1, 2) by powers
//! of two and sums an atanh series. All results are exact against their
//! spec functions; saturation is part of the specification.

use vstd::prelude::*;
use vstd::arithmetic::power2::{pow2, lemma_pow2_unfold, lemma_pow2_pos, lemma_pow2_strictly_increases};
use crate::fixed::{
    FRAC, SAT, clip, fx_add, fx_mul, fx_div, in_range, add_fx, mul_fx, div_fx, clip_i128,
    div_floor_i128, mod_floor, div_pos, lemma_fx_mul_nonneg, lemma_fx_div_nonneg,
};

verus! {

/// log2(e) with 20 fractional bits.
pub const LOG2E: i64 = 1512775;

/// ln 2 with 20 fractional bits.
pub const LN2: i64 = 726817;

/// Taylor coefficients of 2^f for f in [0, 1), 20 fractional bits.
pub const EXP2_B1: i64 = 726817;

pub const EXP2_B2: i64 = 251896;

pub const EXP2_B3: i64 = 58200;

pub const EXP2_B4: i64 = 10085;

pub const EXP2_B5: i64 = 1398;

pub const EXP2_B6: i64 = 162;

pub const EXP2_B7: i64 = 16;

/// The nonnegative part of a value.
pub open spec fn pos_part(x: int) -> int {
    if x < 0 {
        0
    } else {
        x
    }
}

/// 2^(f/FRAC) for f in [0, FRAC), by a Taylor polynomial.
pub open spec fn exp2_frac(f: int) -> int {
    fx_add(
        FRAC as int,
        fx_mul(
            f,
            fx_add(
                EXP2_B1 as int,
                fx_mul(
                    f,
                    fx_add(
                        EXP2_B2 as int,
                        fx_mul(
                            f,
                            fx_add(
                                EXP2_B3 as int,
                                fx_mul(
                                    f,
                                    fx_add(
                                        EXP2_B4 as int,
                                        fx_mul(
                                            f,
                                            fx_add(
                                                EXP2_B5 as int,
                                                fx_mul(f, fx_add(EXP2_B6 as int, fx_mul(f, EXP2_B7 as int))),
                                            ),
                                        ),
                                    ),
                                ),
                            ),
                        ),
                    ),
                ),
            ),
        ),
    )
}

/// Double k times, saturating.
pub open spec fn shift_up(p: int, k: nat) -> int
    decreases k,
{
    if k == 0 {
        p
    } else {
        clip(2 * shift_up(p, (k - 1) as nat))
    }
}

/// Halve k times, rounding toward negative infinity.
pub open spec fn shift_down(p: int, k: nat) -> int
    decreases k,
{
    if k == 0 {
        p
    } else {
        shift_down(p, (k - 1) as nat) / 2
    }
}

/// e^(x/FRAC) in fixed point: 2^(x*log2 e), saturating far above,
/// flushing to zero far below.
pub open spec fn spec_exp_fx(x: int) -> int {
    let z = fx_mul(x, LOG2E as int);
    let k = z / (FRAC as int);
    let f = z % (FRAC as int);
    let p = pos_part(exp2_frac(f));
    if k >= 63 {
        SAT as int
    } else if k >= 0 {
        shift_up(p, k as nat)
    } else if k <= -63 {
        0
    } else {
        shift_down(p, (-k) as nat)
    }
}

fn shift_up_exec(p: i64, k: usize) -> (r: i64)
    requires
        0 <= p,
        in_range(p as int),
        k <= 63,
    ensures
        r as int == shift_up(p as int, k as nat),
        0 <= r,
        in_range(r as int),
{
    let mut acc = p;
    let mut i: usize = 0;
    while i < k
        invariant
            i <= k,
            acc as int == shift_up(p as int, i as nat),
            0 <= acc,
            in_range(acc as int),
        decreases k - i,
    {
        acc = clip_i128(2 * (acc as i128));
        i = i + 1;
    }
    acc
}

fn shift_down_exec(p: i64, k: usize) -> (r: i64)
    requires
        0 <= p,
        k <= 63,
    ensures
        r as int == shift_down(p as int, k as nat),
        0 <= r,
{
    let mut acc = p;
    let mut i: usize = 0;
    while i < k
        invariant
            i <= k,
            acc as int == shift_down(p as int, i as nat),
            0 <= acc,
        decreases k - i,
    {
        acc = div_pos(acc, 2);
        i = i + 1;
    }
    acc
}

fn exp2_frac_exec(f: i64) -> (r: i64)
    ensures
        r as int == exp2_frac(f as int),
{
    add_fx(
        FRAC,
        mul_fx(
            f,
            add_fx(
                EXP2_B1,
                mul_fx(
                    f,
                    add_fx(
                        EXP2_B2,
                        mul_fx(
                            f,
                            add_fx(
                                EXP2_B3,
                                mul_fx(
                                    f,
                                    add_fx(
                                        EXP2_B4,
                                        mul_fx(f, add_fx(EXP2_B5, mul_fx(f, add_fx(EXP2_B6, mul_fx(f, EXP2_B7))))),
                                    ),
                                ),
                            ),
                        ),
                    ),
                ),
            ),
        ),
    )
}

/// Fixed-point exponential.
pub fn exp_fx(x: i64) -> (r: i64)
    ensures
        r as int == spec_exp_fx(x as int),
        0 <= r,
{
    let z = mul_fx(x, LOG2E);
    let k128 = div_floor_i128(z as i128, FRAC as i128);
    let f = mod_floor(z, FRAC);
    proof {
        vstd::arithmetic::div_mod::lemma_fundamental_div_mod(z as int, FRAC as int);
        assert(-0x8000_0000_0000_0000 <= k128 as int <= 0x7FFF_FFFF_FFFF_FFFF)
            by (nonlinear_arith)
            requires
                z as int == (FRAC as int) * (k128 as int) + (f as int),
                0 <= (f as int) < (FRAC as int),
                -0x4000_0000_0000_0000 <= (z as int) <= 0x3FFF_FFFF_FFFF_FFFF,
        ;
    }
    let k = k128 as i64;
    let p0 = exp2_frac_exec(f);
    let p = if p0 < 0 {
        0
    } else {
        p0
    };
    if k >= 63 {
        SAT
    } else if k >= 0 {
        shift_up_exec(p, k as usize)
    } else if k <= -63 {
        0
    } else {
        shift_down_exec(p, (-k) as usize)
    }
}

/// Normalize a positive value into the band [FRAC, 2*FRAC) by powers of
/// two, returning the exponent and the normalized mantissa.
pub open spec fn ln_norm(x: int) -> (int, int)
    decreases (if x >= FRAC as int {
        x
    } else {
        4 * (FRAC as int) - x
    }),
{
    if x <= 0 {
        (0, FRAC as int)
    } else if x >= 2 * (FRAC as int) {
        let em = ln_norm(x / 2);
        (em.0 + 1, em.1)
    } else if x < FRAC as int {
        let em = ln_norm(2 * x);
        (em.0 - 1, em.1)
    } else {
        (0, x)
    }
}

/// ln(x/FRAC) in fixed point: the exponent contributes e*ln2 and the
/// mantissa m in [1, 2) contributes the atanh series
/// 2*(t + t^3/3 + ... + t^11/11) with t = (m-1)/(m+1).
pub open spec fn spec_ln_fx(x: int) -> int {
    let em = ln_norm(x);
    let e = em.0;
    let m = em.1;
    let t = fx_div(m - (FRAC as int), m + (FRAC as int));
    let t2 = fx_mul(t, t);
    let t3 = fx_mul(t2, t);
    let t5 = fx_mul(t2, t3);
    let t7 = fx_mul(t2, t5);
    let t9 = fx_mul(t2, t7);
    let t11 = fx_mul(t2, t9);
    clip(e * (LN2 as int) + 2 * (t + t3 / 3 + t5 / 5 + t7 / 7 + t9 / 9 + t11 / 11))
}

/// Fixed-point natural logarithm of a positive value.
pub fn ln_fx(x: i64) -> (r: i64)
    requires
        1 <= x,
    ensures
        r as int == spec_ln_fx(x as int),
{
    let mut m = x;
    let mut e: i64 = 0;
    proof {
        assert(pow2(0) == 1) by {
            vstd::arithmetic::power2::lemma2_to64();
        }
        assert(x as int * pow2(0) <= x as int) by (nonlinear_arith)
            requires
                pow2(0) == 1,
        ;
    }
    while m >= 2 * FRAC
        invariant
            1 <= m <= x,
            0 <= e <= 62,
            m as int * pow2(e as nat) <= x as int,
            ln_norm(x as int).0 == e as int + ln_norm(m as int).0,
            ln_norm(x as int).1 == ln_norm(m as int).1,
        decreases m,
    {
        proof {
            lemma_pow2_unfold((e + 1) as nat);
            lemma_pow2_pos(e as nat);
            assert(e < 62) by {
                if e == 62 {
                    assert(pow2(62) == 0x4000000000000000) by {
                        vstd::arithmetic::power2::lemma2_to64_rest();
                    }
                    assert(false) by (nonlinear_arith)
                        requires
                            m as int * pow2(62nat) <= x as int,
                            m as int >= 2,
                            pow2(62nat) == 0x4000000000000000,
                            x as int <= 0x7FFF_FFFF_FFFF_FFFF,
                    ;
                }
            }
            assert(ln_norm(m as int).0 == ln_norm(m as int / 2).0 + 1);
            assert(ln_norm(m as int).1 == ln_norm(m as int / 2).1);
        }
        let md = div_pos(m, 2);
        proof {
            vstd::arithmetic::div_mod::lemma_fundamental_div_mod(m as int, 2);
            assert(md as int * pow2((e + 1) as nat) <= x as int) by (nonlinear_arith)
                requires
                    2 * (md as int) <= m as int,
                    pow2((e + 1) as nat) == 2 * pow2(e as nat),
                    m as int * pow2(e as nat) <= x as int,
                    pow2(e as nat) >= 1,
            ;
        }
        m = md;
        e = e + 1;
    }
    while m < FRAC
        invariant
            1 <= m < 2 * FRAC,
            -20 <= e <= 62,
            m as int >= pow2((if e >= 0 {
                0
            } else {
                -e
            }) as nat),
            ln_norm(x as int).0 == e as int + ln_norm(m as int).0,
            ln_norm(x as int).1 == ln_norm(m as int).1,
        decreases 2 * FRAC - m,
    {
        proof {
            lemma_pow2_pos((if e >= 0 {
                0int
            } else {
                -(e as int)
            }) as nat);
            if e <= 0 {
                lemma_pow2_unfold((1 - e) as nat);
            }
            assert(e > -20) by {
                if e <= -20 {
                    lemma_pow2_ge_frac((-(e as int)) as nat);
                }
            }
        }
        m = 2 * m;
        e = e - 1;
    }
    let t = div_fx(m - FRAC, m + FRAC);
    proof {
        lemma_fx_div_nonneg(m as int - FRAC as int, m as int + FRAC as int);
    }
    let t2 = mul_fx(t, t);
    proof {
        lemma_fx_mul_nonneg(t as int, t as int);
    }
    let t3 = mul_fx(t2, t);
    let t5 = mul_fx(t2, t3);
    let t7 = mul_fx(t2, t5);
    let t9 = mul_fx(t2, t7);
    let t11 = mul_fx(t2, t9);
    proof {
        lemma_fx_mul_nonneg(t2 as int, t as int);
        lemma_fx_mul_nonneg(t2 as int, t3 as int);
        lemma_fx_mul_nonneg(t2 as int, t5 as int);
        lemma_fx_mul_nonneg(t2 as int, t7 as int);
        lemma_fx_mul_nonneg(t2 as int, t9 as int);
    }
    let u3 = div_pos(t3, 3);
    let u5 = div_pos(t5, 5);
    let u7 = div_pos(t7, 7);
    let u9 = div_pos(t9, 9);
    let u11 = div_pos(t11, 11);
    let total: i128 = (e as i128) * (LN2 as i128) + 2
        * ((t as i128) + (u3 as i128) + (u5 as i128) + (u7 as i128) + (u9 as i128) + (u11 as i128));
    clip_i128(total)
}

/// 2^k reaches FRAC by k = 20.
proof fn lemma_pow2_ge_frac(k: nat)
    requires
        k >= 20,
    ensures
        pow2(k) >= FRAC as nat,
{
    assert(pow2(20) == 0x100000) by {
        vstd::arithmetic::power2::lemma2_to64();
    }
    if k > 20 {
        lemma_pow2_strictly_increases(20, k);
    }
}

/// tanh(x/FRAC) for nonnegative x: (e^2x - 1) / (e^2x + 1), snapping to
/// one beyond x = 12 where the difference is below the quantum.
pub open spec fn spec_tanh_fx(x: int) -> int {
    if x >= 12 * (FRAC as int) {
        FRAC as int
    } else {
        let t = spec_exp_fx(clip(2 * x));
        fx_div(t - (FRAC as int), t + (FRAC as int))
    }
}

/// Fixed-point hyperbolic tangent of a nonnegative value.
pub fn tanh_fx(x: i64) -> (r: i64)
    requires
        0 <= x,
    ensures
        r as int == spec_tanh_fx(x as int),
{
    if x >= 12 * FRAC {
        FRAC
    } else {
        let t = exp_fx(clip_i128(2 * (x as i128)));
        div_fx(t - FRAC, t + FRAC)
    }
}

/// x^(p/FRAC) for positive x: exp(p * ln x).
pub open spec fn spec_pow_fx(x: int, p: int) -> int {
    spec_exp_fx(fx_mul(p, spec_ln_fx(x)))
}

/// Fixed-point power with arbitrary fixed-point exponent.
pub fn pow_fx(x: i64, p: i64) -> (r: i64)
    requires
        1 <= x,
    ensures
        r as int == spec_pow_fx(x as int, p as int),
        0 <= r,
{
    let l = ln_fx(x);
    exp_fx(mul_fx(p, l))
}

} // verus!
