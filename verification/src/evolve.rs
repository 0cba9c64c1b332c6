//! Time evolver: advances the initial spectrum to the current simulation
//! time under the dispersion relation and derives the four
//! frequency-domain channels the inverse transform consumes.
//!
//! Each channel packs two real spatial signals into one complex field:
//! horizontal displacements (dx, dz), height and the cross derivative
//! (dy, dxz), the height slopes (dyx, dyz), and the horizontal
//! self-derivatives (dxx, dzz).

use vstd::prelude::*;
use crate::cplx::{Cplx, cplx_ok, spec_cadd, spec_cmul, spec_conj, cadd, cmul, conj};
use crate::field::Field;
use crate::fixed::{
    FRAC, fx_add, fx_sub, fx_mul, fx_div, fx_sqrt, add_fx, sub_fx, mul_fx, div_fx, sqrt_fx,
};
use crate::params::{SimulationParameters, params_valid};
use crate::spectrum::{spec_dk, spec_kcomp, spec_dispersion, dispersion_omega, INV_TWO_PI, TWO_PI};
use crate::transcend::pos_part;
use crate::trig::{spec_sin_turns, spec_cos_turns, sin_turns, cos_turns, lemma_trig_zero};

verus! {

/// The phase factor e^(i*omega*t): omega*t radians converted to turns.
pub open spec fn spec_phase(om: int, t: int) -> Cplx {
    let ang = fx_mul(fx_mul(om, t), INV_TWO_PI as int);
    Cplx { re: spec_cos_turns(ang) as i64, im: spec_sin_turns(ang) as i64 }
}

/// The time-evolved height spectrum of one cell:
/// h(k, t) = h0(k) e^(i*omega*t) + h0_conj(k) e^(-i*omega*t).
pub open spec fn spec_h_t(h0v: Cplx, h0cv: Cplx, om: int, t: int) -> Cplx {
    spec_cadd(
        spec_cmul(h0v, spec_phase(om, t)),
        spec_cmul(h0cv, spec_conj(spec_phase(om, t))),
    )
}

/// At time zero both phase factors are the exact unit, so the evolved
/// height spectrum is literally h0 + h0_conj, cell by cell.
pub proof fn lemma_evolve_at_time_zero(h0v: Cplx, h0cv: Cplx, om: int)
    requires
        cplx_ok(h0v),
        cplx_ok(h0cv),
    ensures
        spec_h_t(h0v, h0cv, om, 0) == spec_cadd(h0v, h0cv),
{
    crate::cplx::lemma_fx_mul_left_zero(om);
    crate::cplx::lemma_fx_mul_left_zero(INV_TWO_PI as int);
    lemma_trig_zero();
    assert(spec_phase(om, 0) == crate::cplx::cplx_one());
    assert(spec_conj(spec_phase(om, 0)) == crate::cplx::cplx_one());
    crate::cplx::lemma_cmul_one(h0v);
    crate::cplx::lemma_cmul_one(h0cv);
}

/// The dispersion frequency of grid cell (i, j).
pub open spec fn spec_cell_omega(p: SimulationParameters, i: int, j: int) -> int {
    let dk = spec_dk(p.length_scale as int);
    let kx = spec_kcomp(dk, i, p.n as int);
    let kz = spec_kcomp(dk, j, p.n as int);
    let k2 = fx_add(fx_mul(kx, kx), fx_mul(kz, kz));
    let kl = fx_sqrt(pos_part(k2));
    spec_dispersion(p.gravity as int, p.depth as int, kl)
}

/// The four channel values of one cell, derived from the evolved height
/// sample hv: packed (dx, dz), (dy, dxz), (dyx, dyz), (dxx, dzz), with
/// the k = 0 cell's direction ratios forced to zero.
pub open spec fn spec_channels_cell(p: SimulationParameters, hv: Cplx, i: int, j: int) -> (
    Cplx,
    Cplx,
    Cplx,
    Cplx,
) {
    let dk = spec_dk(p.length_scale as int);
    let kx = spec_kcomp(dk, i, p.n as int);
    let kz = spec_kcomp(dk, j, p.n as int);
    let k2 = fx_add(fx_mul(kx, kx), fx_mul(kz, kz));
    let kl = fx_sqrt(pos_part(k2));
    let rx = if kl <= 0 {
        0
    } else {
        fx_div(kx, kl)
    };
    let rz = if kl <= 0 {
        0
    } else {
        fx_div(kz, kl)
    };
    let c1 = spec_cmul(hv, Cplx { re: fx_sub(0, rz) as i64, im: rx as i64 });
    let c2 = spec_cmul(hv, Cplx { re: FRAC, im: fx_sub(0, fx_mul(kz, rx)) as i64 });
    let c3 = spec_cmul(hv, Cplx { re: fx_sub(0, kz) as i64, im: kx as i64 });
    let c4 = spec_cmul(
        hv,
        Cplx { re: fx_sub(0, fx_mul(kx, rx)) as i64, im: fx_sub(0, fx_mul(kz, rz)) as i64 },
    );
    (c1, c2, c3, c4)
}

/// One of the four channel fields as a flat sequence, evolved to time t.
pub open spec fn spec_channel_field(
    p: SimulationParameters,
    h0: Seq<Cplx>,
    h0c: Seq<Cplx>,
    t: int,
    which: int,
) -> Seq<Cplx> {
    let n = p.n as int;
    Seq::new(
        (n * n) as nat,
        |idx: int|
            {
                let i = idx / n;
                let j = idx % n;
                let hv = spec_h_t(h0[idx], h0c[idx], spec_cell_omega(p, i, j), t);
                let cs = spec_channels_cell(p, hv, i, j);
                if which == 1 {
                    cs.0
                } else if which == 2 {
                    cs.1
                } else if which == 3 {
                    cs.2
                } else {
                    cs.3
                }
            },
    )
}

/// Evolve one cell of the height spectrum to time t.
pub fn evolve_height_cell(h0v: Cplx, h0cv: Cplx, om: i64, t: i64) -> (r: Cplx)
    ensures
        r == spec_h_t(h0v, h0cv, om as int, t as int),
        cplx_ok(r),
{
    let ang = mul_fx(mul_fx(om, t), INV_TWO_PI);
    let ph = Cplx { re: cos_turns(ang), im: sin_turns(ang) };
    let phc = conj(ph);
    cadd(cmul(h0v, ph), cmul(h0cv, phc))
}

/// The dispersion frequency of grid cell (i, j).
pub fn cell_omega(p: &SimulationParameters, i: usize, j: usize) -> (r: i64)
    requires
        params_valid(*p),
        i < p.n,
        j < p.n,
    ensures
        r as int == spec_cell_omega(*p, i as int, j as int),
        0 <= r,
{
    let dk = div_fx(TWO_PI, p.length_scale);
    let half_n = (p.n / 2) as i64;
    let kx = crate::fixed::muli_fx(dk, i as i64 - half_n);
    let kz = crate::fixed::muli_fx(dk, j as i64 - half_n);
    let k2 = add_fx(mul_fx(kx, kx), mul_fx(kz, kz));
    let k2p = if k2 < 0 {
        0
    } else {
        k2
    };
    let kl = sqrt_fx(k2p);
    dispersion_omega(p.gravity, p.depth, kl)
}

/// The four channel values of one cell.
pub fn channels_cell(p: &SimulationParameters, hv: Cplx, i: usize, j: usize) -> (r: (
    Cplx,
    Cplx,
    Cplx,
    Cplx,
))
    requires
        params_valid(*p),
        i < p.n,
        j < p.n,
    ensures
        r == spec_channels_cell(*p, hv, i as int, j as int),
{
    let dk = div_fx(TWO_PI, p.length_scale);
    let half_n = (p.n / 2) as i64;
    let kx = crate::fixed::muli_fx(dk, i as i64 - half_n);
    let kz = crate::fixed::muli_fx(dk, j as i64 - half_n);
    let k2 = add_fx(mul_fx(kx, kx), mul_fx(kz, kz));
    let k2p = if k2 < 0 {
        0
    } else {
        k2
    };
    let kl = sqrt_fx(k2p);
    let rx = if kl <= 0 {
        0
    } else {
        div_fx(kx, kl)
    };
    let rz = if kl <= 0 {
        0
    } else {
        div_fx(kz, kl)
    };
    let c1 = cmul(hv, Cplx { re: sub_fx(0, rz), im: rx });
    let c2 = cmul(hv, Cplx { re: FRAC, im: sub_fx(0, mul_fx(kz, rx)) });
    let c3 = cmul(hv, Cplx { re: sub_fx(0, kz), im: kx });
    let c4 = cmul(hv, Cplx { re: sub_fx(0, mul_fx(kx, rx)), im: sub_fx(0, mul_fx(kz, rz)) });
    (c1, c2, c3, c4)
}

/// Evolve the spectrum to time t and emit the four frequency-domain
/// channel fields, each pinned cell by cell to the spec pipeline.
pub fn evolve(h0: &Field, h0c: &Field, p: &SimulationParameters, t: i64) -> (r: (
    Field,
    Field,
    Field,
    Field,
))
    requires
        params_valid(*p),
        h0.wf() && h0.n == p.n,
        h0c.wf() && h0c.n == p.n,
    ensures
        r.0.wf() && r.0.n == p.n,
        r.1.wf() && r.1.n == p.n,
        r.2.wf() && r.2.n == p.n,
        r.3.wf() && r.3.n == p.n,
        r.0.data@ == spec_channel_field(*p, h0.data@, h0c.data@, t as int, 1),
        r.1.data@ == spec_channel_field(*p, h0.data@, h0c.data@, t as int, 2),
        r.2.data@ == spec_channel_field(*p, h0.data@, h0c.data@, t as int, 3),
        r.3.data@ == spec_channel_field(*p, h0.data@, h0c.data@, t as int, 4),
{
    let n = p.n;
    let ghost ni = n as int;
    let mut f1 = Field::filled(n, Cplx { re: 0, im: 0 });
    let mut f2 = Field::filled(n, Cplx { re: 0, im: 0 });
    let mut f3 = Field::filled(n, Cplx { re: 0, im: 0 });
    let mut f4 = Field::filled(n, Cplx { re: 0, im: 0 });
    let mut i: usize = 0;
    while i < n
        invariant
            params_valid(*p),
            h0.wf() && h0.n == n == p.n,
            h0c.wf() && h0c.n == n,
            f1.wf() && f1.n == n,
            f2.wf() && f2.n == n,
            f3.wf() && f3.n == n,
            f4.wf() && f4.n == n,
            ni == n as int,
            i <= n,
            forall|r: int, c: int|
                0 <= r < i && 0 <= c < n ==> #[trigger] f1.at(r, c) == evolve_cell_value(
                    *p,
                    h0.data@,
                    h0c.data@,
                    t as int,
                    1,
                    r,
                    c,
                ),
            forall|r: int, c: int|
                0 <= r < i && 0 <= c < n ==> #[trigger] f2.at(r, c) == evolve_cell_value(
                    *p,
                    h0.data@,
                    h0c.data@,
                    t as int,
                    2,
                    r,
                    c,
                ),
            forall|r: int, c: int|
                0 <= r < i && 0 <= c < n ==> #[trigger] f3.at(r, c) == evolve_cell_value(
                    *p,
                    h0.data@,
                    h0c.data@,
                    t as int,
                    3,
                    r,
                    c,
                ),
            forall|r: int, c: int|
                0 <= r < i && 0 <= c < n ==> #[trigger] f4.at(r, c) == evolve_cell_value(
                    *p,
                    h0.data@,
                    h0c.data@,
                    t as int,
                    4,
                    r,
                    c,
                ),
        decreases n - i,
    {
        let mut j: usize = 0;
        while j < n
            invariant
                params_valid(*p),
                h0.wf() && h0.n == n == p.n,
                h0c.wf() && h0c.n == n,
                f1.wf() && f1.n == n,
                f2.wf() && f2.n == n,
                f3.wf() && f3.n == n,
                f4.wf() && f4.n == n,
                ni == n as int,
                i < n,
                j <= n,
                forall|r: int, c: int|
                    0 <= r < n && 0 <= c < n && (r < i || (r == i && c < j)) ==> #[trigger] f1.at(
                        r,
                        c,
                    ) == evolve_cell_value(*p, h0.data@, h0c.data@, t as int, 1, r, c),
                forall|r: int, c: int|
                    0 <= r < n && 0 <= c < n && (r < i || (r == i && c < j)) ==> #[trigger] f2.at(
                        r,
                        c,
                    ) == evolve_cell_value(*p, h0.data@, h0c.data@, t as int, 2, r, c),
                forall|r: int, c: int|
                    0 <= r < n && 0 <= c < n && (r < i || (r == i && c < j)) ==> #[trigger] f3.at(
                        r,
                        c,
                    ) == evolve_cell_value(*p, h0.data@, h0c.data@, t as int, 3, r, c),
                forall|r: int, c: int|
                    0 <= r < n && 0 <= c < n && (r < i || (r == i && c < j)) ==> #[trigger] f4.at(
                        r,
                        c,
                    ) == evolve_cell_value(*p, h0.data@, h0c.data@, t as int, 4, r, c),
            decreases n - j,
        {
            proof {
                crate::field::lemma_grid_index(ni, i as int, j as int);
            }
            let h0v = h0.get(i, j);
            let h0cv = h0c.get(i, j);
            let om = cell_omega(p, i, j);
            let hv = evolve_height_cell(h0v, h0cv, om, t);
            let cs = channels_cell(p, hv, i, j);
            f1.set(i, j, cs.0);
            f2.set(i, j, cs.1);
            f3.set(i, j, cs.2);
            f4.set(i, j, cs.3);
            proof {
                vstd::arithmetic::div_mod::lemma_fundamental_div_mod_converse(
                    (i as int) * ni + (j as int),
                    ni,
                    i as int,
                    j as int,
                );
            }
            j = j + 1;
        }
        i = i + 1;
    }
    proof {
        crate::field::lemma_grid_total(ni);
        lemma_field_matches_channel(&f1, *p, h0.data@, h0c.data@, t as int, 1);
        lemma_field_matches_channel(&f2, *p, h0.data@, h0c.data@, t as int, 2);
        lemma_field_matches_channel(&f3, *p, h0.data@, h0c.data@, t as int, 3);
        lemma_field_matches_channel(&f4, *p, h0.data@, h0c.data@, t as int, 4);
    }
    (f1, f2, f3, f4)
}

/// The value one channel's cell (i, j) must hold.
pub open spec fn evolve_cell_value(
    p: SimulationParameters,
    h0: Seq<Cplx>,
    h0c: Seq<Cplx>,
    t: int,
    which: int,
    i: int,
    j: int,
) -> Cplx {
    let n = p.n as int;
    let idx = i * n + j;
    let hv = spec_h_t(h0[idx], h0c[idx], spec_cell_omega(p, i, j), t);
    let cs = spec_channels_cell(p, hv, i, j);
    if which == 1 {
        cs.0
    } else if which == 2 {
        cs.1
    } else if which == 3 {
        cs.2
    } else {
        cs.3
    }
}

/// A field whose cells all hold the channel value equals the channel
/// sequence.
proof fn lemma_field_matches_channel(
    f: &Field,
    p: SimulationParameters,
    h0: Seq<Cplx>,
    h0c: Seq<Cplx>,
    t: int,
    which: int,
)
    requires
        f.wf(),
        f.n == p.n,
        forall|r: int, c: int|
            0 <= r < f.n && 0 <= c < f.n ==> #[trigger] f.at(r, c) == evolve_cell_value(
                p,
                h0,
                h0c,
                t,
                which,
                r,
                c,
            ),
    ensures
        f.data@ == spec_channel_field(p, h0, h0c, t, which),
{
    let n = p.n as int;
    assert forall|idx: int| 0 <= idx < n * n implies f.data@[idx] == spec_channel_field(
        p,
        h0,
        h0c,
        t,
        which,
    )[idx] by {
        crate::field::lemma_idx_decompose(n, idx);
        assert(f.data@[idx] == f.at(idx / n, idx % n));
    }
    assert(f.data@ =~= spec_channel_field(p, h0, h0c, t, which));
}

} // verus!
