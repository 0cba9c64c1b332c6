//! Iterative 2-D inverse FFT: precomputed butterfly tables, row and column
//! butterfly stages with ping-pong buffering, bit-reversal permutation and
//! optional amplitude scaling.

use vstd::prelude::*;
use vstd::arithmetic::power2::{pow2, lemma_pow2_unfold, lemma_pow2_pos, lemma_pow2_adds, lemma_pow2_strictly_increases};
use vstd::arithmetic::div_mod::lemma_fundamental_div_mod;
use crate::cplx::{Cplx, cplx_one, cplx_zero, spec_cadd, spec_csub, spec_cmul, cadd, csub, cmul};
use crate::errors::SimError;
use crate::field::{Field, MAX_N, lemma_grid_index, lemma_grid_total};
use crate::fixed::{FRAC, div_pos};
use crate::trig::{spec_sin_turns, spec_cos_turns, sin_turns, cos_turns};

verus! {

/// A power of two, defined recursively.
pub open spec fn spec_is_pow2(n: int) -> bool
    decreases n,
{
    if n <= 0 {
        false
    } else if n == 1 {
        true
    } else {
        n % 2 == 0 && spec_is_pow2(n / 2)
    }
}

/// Grid sides the simulation accepts.
pub open spec fn valid_grid_size(n: int) -> bool {
    4 <= n <= MAX_N && spec_is_pow2(n)
}

/// Compute lg with n == 2^lg, or report that n is not a power of two.
pub fn try_log2(n: usize) -> (r: Option<usize>)
    ensures
        match r {
            Some(lg) => n as nat == pow2(lg as nat) && spec_is_pow2(n as int) && lg <= 64,
            None => !spec_is_pow2(n as int),
        },
{
    if n == 0 {
        return None;
    }
    let mut m = n;
    let mut lg: usize = 0;
    proof {
        assert(pow2(0) == 1) by {
            vstd::arithmetic::power2::lemma2_to64();
        }
    }
    while m > 1
        invariant
            1 <= m <= n,
            lg <= 63,
            n as nat == m as nat * pow2(lg as nat),
            spec_is_pow2(n as int) <==> spec_is_pow2(m as int),
        decreases m,
    {
        if m % 2 == 1 {
            return None;
        }
        proof {
            lemma_pow2_unfold((lg + 1) as nat);
            assert(m as nat * pow2(lg as nat) == (m as nat / 2) * (2 * pow2(lg as nat)))
                by (nonlinear_arith)
                requires
                    m as int % 2 == 0,
                    m >= 2,
            ;
            assert(lg < 63) by {
                if lg == 63 {
                    assert(pow2(63) == 0x8000000000000000) by {
                        vstd::arithmetic::power2::lemma2_to64_rest();
                    }
                    assert(m as nat * pow2(lg as nat) >= 2 * pow2(lg as nat))
                        by (nonlinear_arith)
                        requires
                            m >= 2,
                    ;
                }
            }
        }
        m = m / 2;
        lg = lg + 1;
    }
    Some(lg)
}

/// 2^k as a machine integer, for small k.
pub fn pow2_exec(k: usize) -> (r: usize)
    requires
        k <= 16,
    ensures
        r as nat == pow2(k as nat),
        r >= 1,
{
    let mut i: usize = 0;
    let mut r: usize = 1;
    proof {
        assert(pow2(0) == 1) by {
            vstd::arithmetic::power2::lemma2_to64();
        }
    }
    while i < k
        invariant
            i <= k <= 16,
            r as nat == pow2(i as nat),
            1 <= r <= 0x10000,
        decreases k - i,
    {
        proof {
            lemma_pow2_unfold((i + 1) as nat);
            if i + 1 <= 16 {
                lemma_pow2_increases_small((i + 1) as nat);
            }
        }
        r = 2 * r;
        i = i + 1;
    }
    r
}

/// pow2 of a small exponent is small.
proof fn lemma_pow2_increases_small(k: nat)
    requires
        k <= 16,
    ensures
        pow2(k) <= 0x10000,
    decreases k,
{
    if k == 16 {
        assert(pow2(16) == 0x10000) by {
            vstd::arithmetic::power2::lemma2_to64();
        }
    } else {
        lemma_pow2_strictly_increases(k, 16);
        assert(pow2(16) == 0x10000) by {
            vstd::arithmetic::power2::lemma2_to64();
        }
    }
}

/// Reverse the low lg bits of i.
pub open spec fn bitrev(lg: nat, i: int) -> int
    decreases lg,
{
    if lg == 0 {
        0
    } else {
        (i % 2) * pow2((lg - 1) as nat) + bitrev((lg - 1) as nat, i / 2)
    }
}

pub proof fn lemma_bitrev_range(lg: nat, i: int)
    requires
        0 <= i,
    ensures
        0 <= bitrev(lg, i) < pow2(lg),
    decreases lg,
{
    lemma_pow2_pos(lg);
    if lg == 0 {
    } else {
        lemma_bitrev_range((lg - 1) as nat, i / 2);
        lemma_pow2_unfold(lg);
        lemma_pow2_pos((lg - 1) as nat);
        assert((i % 2) * pow2((lg - 1) as nat) <= pow2((lg - 1) as nat)) by (nonlinear_arith)
            requires
                0 <= i % 2 <= 1,
                pow2((lg - 1) as nat) >= 0,
        ;
        assert(0 <= (i % 2) * pow2((lg - 1) as nat)) by (nonlinear_arith)
            requires
                0 <= i % 2,
                pow2((lg - 1) as nat) >= 0,
        ;
    }
}

/// Reversing zero gives zero.
pub proof fn lemma_bitrev_zero(lg: nat)
    ensures
        bitrev(lg, 0) == 0,
    decreases lg,
{
    if lg > 0 {
        lemma_bitrev_zero((lg - 1) as nat);
        assert((0int % 2) * (pow2((lg - 1) as nat) as int) == 0) by (nonlinear_arith);
    }
}

pub fn bitrev_exec(lg: usize, i: usize) -> (r: usize)
    requires
        lg <= 12,
    ensures
        r as int == bitrev(lg as nat, i as int),
    decreases lg,
{
    if lg == 0 {
        0
    } else {
        let rest = bitrev_exec(lg - 1, i / 2);
        let p = pow2_exec(lg - 1);
        proof {
            lemma_bitrev_range((lg - 1) as nat, i as int / 2);
            lemma_pow2_increases_small((lg - 1) as nat);
            assert((i as int % 2) * (p as int) <= p as int) by (nonlinear_arith)
                requires
                    0 <= i as int % 2 <= 1,
                    p as int >= 0,
            ;
            assert(0 <= (i as int % 2) * (p as int)) by (nonlinear_arith)
                requires
                    0 <= i as int % 2,
                    p as int >= 0,
            ;
        }
        (i % 2) * p + rest
    }
}

/// One butterfly of one stage: the output at this index is
/// w * (in[a] + in[b]) or, when sub is set, w * (in[a] - in[b]).
#[derive(Clone, Copy, PartialEq, Eq, Structural, Debug)]
pub struct Butterfly {
    pub a: usize,
    pub b: usize,
    pub sub: bool,
    pub w: Cplx,
}

/// The butterfly of stage s at line index i, for a line of 2^lg samples.
/// Stage s works on blocks of 2^(lg-s) samples; the lower half of each
/// block sums its pair, the upper half differences it and multiplies by
/// the inverse twiddle e^(+2*pi*i*j/m).
pub open spec fn spec_butterfly(lg: nat, s: nat, i: int) -> Butterfly
    recommends
        s < lg,
        0 <= i < pow2(lg),
{
    let m = pow2((lg - s) as nat) as int;
    let h = m / 2;
    let j = i % m;
    if j < h {
        Butterfly { a: i as usize, b: (i + h) as usize, sub: false, w: cplx_one() }
    } else {
        let t = ((j - h) * (FRAC as int)) / m;
        Butterfly {
            a: (i - h) as usize,
            b: i as usize,
            sub: true,
            w: Cplx { re: spec_cos_turns(t) as i64, im: spec_sin_turns(t) as i64 },
        }
    }
}

/// Butterfly partner indices stay inside the line.
pub proof fn lemma_butterfly_bounds(lg: nat, s: nat, i: int)
    requires
        s < lg,
        lg <= 12,
        0 <= i < pow2(lg),
    ensures
        ({
            let m = pow2((lg - s) as nat) as int;
            let h = m / 2;
            let j = i % m;
            &&& 0 <= j < m
            &&& m == 2 * h
            &&& 1 <= h
            &&& (j < h ==> i + h < pow2(lg))
            &&& (j >= h ==> h <= i)
        }),
{
    let m = pow2((lg - s) as nat) as int;
    let h = m / 2;
    lemma_pow2_pos((lg - s) as nat);
    lemma_pow2_unfold((lg - s) as nat);
    assert(m == 2 * pow2((lg - s - 1) as nat));
    lemma_pow2_pos((lg - s - 1) as nat);
    assert(h == pow2((lg - s - 1) as nat));
    lemma_pow2_adds((lg - s) as nat, s as nat);
    let p = pow2(s) as int;
    assert(pow2(lg) as int == m * p);
    lemma_pow2_pos(s);
    lemma_fundamental_div_mod(i, m);
    let q = i / m;
    let j = i % m;
    assert(0 <= j < m);
    assert(q * m + m <= m * p) by (nonlinear_arith)
        requires
            i == m * q + j,
            0 <= j < m,
            0 <= i < m * p,
            0 < m,
            0 < p,
    ;
    if j < h {
        assert(i + h < m * p) by (nonlinear_arith)
            requires
                i == m * q + j,
                0 <= j < h,
                2 * h == m,
                q * m + m <= m * p,
        ;
    } else {
        assert(0 <= i - h) by (nonlinear_arith)
            requires
                i == m * q + j,
                h <= j,
                0 <= q,
                0 < m,
        ;
    }
}

/// Precomputed butterfly table for a fixed grid side n == 2^lg:
/// stage s, index i holds the twiddle factor and the two source indices
/// that butterfly combines. Valid only for that exact n.
pub struct FftTable {
    pub n: usize,
    pub lg: usize,
    pub stages: Vec<Vec<Butterfly>>,
}

impl FftTable {
    /// The table side is a bounded power of two and every entry equals its
    /// specification, so a well-formed table is a function of n alone.
    pub open spec fn wf(self) -> bool {
        &&& self.n as nat == pow2(self.lg as nat)
        &&& 4 <= self.n <= MAX_N
        &&& 2 <= self.lg <= 12
        &&& self.stages@.len() == self.lg
        &&& forall|s: int|
            0 <= s < self.lg ==> #[trigger] self.stages@[s]@.len() == self.n
        &&& forall|s: int, i: int|
            0 <= s < self.lg && 0 <= i < self.n ==> #[trigger] self.stages@[s]@[i]
                == spec_butterfly(self.lg as nat, s as nat, i)
    }
}

/// Build the butterfly table for grid side n; n must be a power of two
/// in [4, MAX_N], anything else is a configuration error.
pub fn build_fft_table(n: usize) -> (r: Result<FftTable, SimError>)
    ensures
        match r {
            Ok(t) => valid_grid_size(n as int) && t.wf() && t.n == n,
            Err(e) => !valid_grid_size(n as int) && e == SimError::InvalidGridSize,
        },
{
    let lg_opt = try_log2(n);
    let lg = match lg_opt {
        Some(lg) => lg,
        None => {
            return Err(SimError::InvalidGridSize);
        },
    };
    if n < 4 || n > MAX_N {
        return Err(SimError::InvalidGridSize);
    }
    proof {
        if lg < 2 {
            lemma_pow2_increases_small(lg as nat);
            assert(pow2(0) == 1 && pow2(1) == 2) by {
                vstd::arithmetic::power2::lemma2_to64();
            }
        }
        if lg > 12 {
            lemma_pow2_strictly_increases(12, lg as nat);
            assert(pow2(12) == 4096) by {
                vstd::arithmetic::power2::lemma2_to64();
            }
        }
    }
    let mut stages: Vec<Vec<Butterfly>> = Vec::new();
    let mut s: usize = 0;
    let mut m: usize = n;
    while s < lg
        invariant
            s <= lg,
            2 <= lg <= 12,
            4 <= n <= MAX_N,
            n as nat == pow2(lg as nat),
            m as nat == pow2((lg - s) as nat),
            stages@.len() == s,
            forall|t: int| 0 <= t < s ==> #[trigger] stages@[t]@.len() == n,
            forall|t: int, i: int|
                0 <= t < s && 0 <= i < n ==> #[trigger] stages@[t]@[i]
                    == spec_butterfly(lg as nat, t as nat, i),
        decreases lg - s,
    {
        proof {
            lemma_pow2_unfold((lg - s) as nat);
            lemma_pow2_pos((lg - s - 1) as nat);
            lemma_pow2_increases_small((lg - s) as nat);
        }
        let h = m / 2;
        let mut row: Vec<Butterfly> = Vec::new();
        let mut i: usize = 0;
        while i < n
            invariant
                i <= n,
                n <= MAX_N,
                s < lg <= 12,
                n as nat == pow2(lg as nat),
                m as nat == pow2((lg - s) as nat),
                h as nat == pow2((lg - s - 1) as nat),
                m == 2 * h,
                1 <= h,
                m <= 0x10000,
                row@.len() == i,
                forall|k: int|
                    0 <= k < i ==> #[trigger] row@[k] == spec_butterfly(lg as nat, s as nat, k),
        decreases n - i,
        {
            proof {
                lemma_butterfly_bounds(lg as nat, s as nat, i as int);
            }
            let j = i % m;
            if j < h {
                row.push(Butterfly { a: i, b: i + h, sub: false, w: Cplx { re: FRAC, im: 0 } });
            } else {
                let jj = (j - h) as i64;
                let t = div_pos(jj * FRAC, m as i64);
                let w = Cplx { re: cos_turns(t), im: sin_turns(t) };
                row.push(Butterfly { a: i - h, b: i, sub: true, w });
                proof {
                    assert(t as int == (((i as int % (m as int)) - (h as int)) * (FRAC as int))
                        / (m as int));
                }
            }
            i = i + 1;
        }
        stages.push(row);
        m = h;
        s = s + 1;
    }
    Ok(FftTable { n, lg, stages })
}

/// The output of one butterfly given its two source samples.
pub open spec fn butterfly_out(bf: Butterfly, u: Cplx, v: Cplx) -> Cplx {
    if bf.sub {
        spec_cmul(bf.w, spec_csub(u, v))
    } else {
        spec_cmul(bf.w, spec_cadd(u, v))
    }
}

/// Apply butterfly stage s to a line of 2^lg samples.
pub open spec fn line_stage(lg: nat, s: nat, line: Seq<Cplx>) -> Seq<Cplx> {
    Seq::new(
        line.len(),
        |i: int|
            {
                let bf = spec_butterfly(lg, s, i);
                butterfly_out(bf, line[bf.a as int], line[bf.b as int])
            },
    )
}

/// Apply stages 0, 1, ..., s-1 in order.
pub open spec fn line_stages(lg: nat, s: nat, line: Seq<Cplx>) -> Seq<Cplx>
    decreases s,
{
    if s == 0 {
        line
    } else {
        line_stage(lg, (s - 1) as nat, line_stages(lg, (s - 1) as nat, line))
    }
}

/// The full (bit-reversed-order) inverse transform of one line.
pub open spec fn line_fft(lg: nat, line: Seq<Cplx>) -> Seq<Cplx> {
    line_stages(lg, lg, line)
}

pub open spec fn row_of(n: int, f: Seq<Cplx>, r: int) -> Seq<Cplx> {
    Seq::new(n as nat, |c: int| f[r * n + c])
}

pub open spec fn col_of(n: int, f: Seq<Cplx>, c: int) -> Seq<Cplx> {
    Seq::new(n as nat, |r: int| f[r * n + c])
}

/// Every row transformed independently (the horizontal pass).
pub open spec fn rows_fft(lg: nat, n: int, f: Seq<Cplx>) -> Seq<Cplx> {
    Seq::new((n * n) as nat, |idx: int| line_fft(lg, row_of(n, f, idx / n))[idx % n])
}

/// Every column transformed independently (the vertical pass).
pub open spec fn cols_fft(lg: nat, n: int, f: Seq<Cplx>) -> Seq<Cplx> {
    Seq::new((n * n) as nat, |idx: int| line_fft(lg, col_of(n, f, idx % n))[idx / n])
}

/// Undo the bit-reversed output order in both axes.
pub open spec fn permute2(lg: nat, n: int, f: Seq<Cplx>) -> Seq<Cplx> {
    Seq::new((n * n) as nat, |idx: int| f[bitrev(lg, idx / n) * n + bitrev(lg, idx % n)])
}

/// Divide both channels by the cell count (the 1/N^2 normalization).
pub open spec fn spec_scale_cell(z: Cplx, n2: int) -> Cplx
    recommends
        0 < n2,
{
    Cplx { re: ((z.re as int) / n2) as i64, im: ((z.im as int) / n2) as i64 }
}

/// The full 2-D inverse FFT: horizontal stages, vertical stages,
/// bit-reversal permutation, and optional amplitude scaling.
pub open spec fn spec_ifft2d(lg: nat, n: int, f: Seq<Cplx>, scale: bool) -> Seq<Cplx> {
    let g = permute2(lg, n, cols_fft(lg, n, rows_fft(lg, n, f)));
    if scale {
        Seq::new((n * n) as nat, |idx: int| spec_scale_cell(g[idx], n * n))
    } else {
        g
    }
}

/// A line of n zero samples (scratch for the ping-pong rotation).
fn zero_line(n: usize) -> (v: Vec<Cplx>)
    ensures
        v@.len() == n,
{
    let mut v: Vec<Cplx> = Vec::new();
    let mut i: usize = 0;
    while i < n
        invariant
            v@.len() == i <= n,
        decreases n - i,
    {
        v.push(Cplx { re: 0, im: 0 });
        i = i + 1;
    }
    v
}

fn copy_line(src: &Vec<Cplx>, dst: &mut Vec<Cplx>)
    requires
        old(dst)@.len() == src@.len(),
    ensures
        final(dst)@ == src@,
{
    let n = src.len();
    let mut i: usize = 0;
    while i < n
        invariant
            n == src@.len() == dst@.len(),
            i <= n,
            forall|k: int| 0 <= k < i ==> dst@[k] == src@[k],
        decreases n - i,
    {
        let v = src[i];
        dst.set(i, v);
        i = i + 1;
    }
    proof {
        assert(dst@ =~= src@);
    }
}

/// One butterfly stage over one line, reading cur and writing out:
/// the two buffers realize the ping-pong rotation.
fn apply_stage(table: &FftTable, s: usize, cur: &Vec<Cplx>, out: &mut Vec<Cplx>)
    requires
        table.wf(),
        s < table.lg,
        cur@.len() == table.n,
        old(out)@.len() == table.n,
    ensures
        final(out)@ == line_stage(table.lg as nat, s as nat, cur@),
        final(out)@.len() == table.n,
{
    let n = table.n;
    let mut i: usize = 0;
    while i < n
        invariant
            table.wf(),
            s < table.lg,
            n == table.n,
            cur@.len() == n,
            out@.len() == n,
            i <= n,
            forall|k: int|
                0 <= k < i ==> #[trigger] out@[k] == line_stage(
                    table.lg as nat,
                    s as nat,
                    cur@,
                )[k],
        decreases n - i,
    {
        proof {
            lemma_butterfly_bounds(table.lg as nat, s as nat, i as int);
        }
        let bf = table.stages[s][i];
        let u = cur[bf.a];
        let v = cur[bf.b];
        let t = if bf.sub {
            csub(u, v)
        } else {
            cadd(u, v)
        };
        let w = cmul(bf.w, t);
        out.set(i, w);
        i = i + 1;
    }
    proof {
        assert(out@ =~= line_stage(table.lg as nat, s as nat, cur@));
    }
}

/// Transform one line in place: lg butterfly stages alternating between
/// the line and a scratch buffer, copying back if the rotation ended in
/// the scratch.
fn line_fft_exec(table: &FftTable, line: &mut Vec<Cplx>, scratch: &mut Vec<Cplx>)
    requires
        table.wf(),
        old(line)@.len() == table.n,
        old(scratch)@.len() == table.n,
    ensures
        final(line)@ == line_fft(table.lg as nat, old(line)@),
        final(line)@.len() == table.n,
        final(scratch)@.len() == table.n,
{
    let ghost orig = line@;
    let lg = table.lg;
    let mut s: usize = 0;
    let mut in_scratch = false;
    while s < lg
        invariant
            table.wf(),
            lg == table.lg,
            s <= lg,
            line@.len() == table.n,
            scratch@.len() == table.n,
            in_scratch ==> scratch@ == line_stages(table.lg as nat, s as nat, orig),
            !in_scratch ==> line@ == line_stages(table.lg as nat, s as nat, orig),
        decreases lg - s,
    {
        if in_scratch {
            apply_stage(table, s, scratch, line);
        } else {
            apply_stage(table, s, line, scratch);
        }
        in_scratch = !in_scratch;
        s = s + 1;
    }
    if in_scratch {
        copy_line(scratch, line);
    }
}

/// Replace row r of the grid with the given samples.
fn store_row(f: &mut Field, r: usize, buf: &Vec<Cplx>)
    requires
        old(f).wf(),
        r < old(f).n,
        buf@.len() == old(f).n,
    ensures
        final(f).wf(),
        final(f).n == old(f).n,
        forall|i: int, j: int|
            0 <= i < old(f).n && 0 <= j < old(f).n ==> final(f).at(i, j) == (if i == r {
                buf@[j]
            } else {
                old(f).at(i, j)
            }),
{
    let n = f.n;
    let mut c: usize = 0;
    while c < n
        invariant
            f.wf(),
            f.n == n == old(f).n,
            r < n,
            c <= n,
            buf@.len() == n,
            forall|i: int, j: int|
                0 <= i < n && 0 <= j < n && i != r ==> f.at(i, j) == old(f).at(i, j),
            forall|j: int| 0 <= j < c ==> #[trigger] f.at(r as int, j) == buf@[j],
            forall|j: int| c <= j < n ==> #[trigger] f.at(r as int, j) == old(f).at(r as int, j),
        decreases n - c,
    {
        let v = buf[c];
        f.set(r, c, v);
        c = c + 1;
    }
}

/// Load row r of the grid into a scratch line.
fn load_row(f: &Field, r: usize, buf: &mut Vec<Cplx>)
    requires
        f.wf(),
        r < f.n,
        old(buf)@.len() == f.n,
    ensures
        final(buf)@ == row_of(f.n as int, f.data@, r as int),
        final(buf)@.len() == f.n,
{
    let n = f.n;
    let mut c: usize = 0;
    while c < n
        invariant
            f.wf(),
            f.n == n,
            r < n,
            c <= n,
            buf@.len() == n,
            forall|j: int| 0 <= j < c ==> #[trigger] buf@[j] == f.at(r as int, j),
        decreases n - c,
    {
        let v = f.get(r, c);
        buf.set(c, v);
        c = c + 1;
    }
    proof {
        assert(buf@ =~= row_of(f.n as int, f.data@, r as int));
    }
}

/// Replace column c of the grid with the given samples.
fn store_col(f: &mut Field, c: usize, buf: &Vec<Cplx>)
    requires
        old(f).wf(),
        c < old(f).n,
        buf@.len() == old(f).n,
    ensures
        final(f).wf(),
        final(f).n == old(f).n,
        forall|i: int, j: int|
            0 <= i < old(f).n && 0 <= j < old(f).n ==> final(f).at(i, j) == (if j == c {
                buf@[i]
            } else {
                old(f).at(i, j)
            }),
{
    let n = f.n;
    let mut r: usize = 0;
    while r < n
        invariant
            f.wf(),
            f.n == n == old(f).n,
            c < n,
            r <= n,
            buf@.len() == n,
            forall|i: int, j: int|
                0 <= i < n && 0 <= j < n && j != c ==> f.at(i, j) == old(f).at(i, j),
            forall|i: int| 0 <= i < r ==> #[trigger] f.at(i, c as int) == buf@[i],
            forall|i: int| r <= i < n ==> #[trigger] f.at(i, c as int) == old(f).at(i, c as int),
        decreases n - r,
    {
        let v = buf[r];
        f.set(r, c, v);
        r = r + 1;
    }
}

/// Load column c of the grid into a scratch line.
fn load_col(f: &Field, c: usize, buf: &mut Vec<Cplx>)
    requires
        f.wf(),
        c < f.n,
        old(buf)@.len() == f.n,
    ensures
        final(buf)@ == col_of(f.n as int, f.data@, c as int),
        final(buf)@.len() == f.n,
{
    let n = f.n;
    let mut r: usize = 0;
    while r < n
        invariant
            f.wf(),
            f.n == n,
            c < n,
            r <= n,
            buf@.len() == n,
            forall|i: int| 0 <= i < r ==> #[trigger] buf@[i] == f.at(i, c as int),
        decreases n - r,
    {
        let v = f.get(r, c);
        buf.set(r, v);
        r = r + 1;
    }
    proof {
        assert(buf@ =~= col_of(f.n as int, f.data@, c as int));
    }
}

/// The full 2-D inverse FFT over a grid, using a table built for the same
/// side; a mismatched table is a configuration error the caller must rule
/// out. The transform runs log2(n) horizontal stages, log2(n) vertical
/// stages (each pair of passes ping-pongs between the field's line and a
/// scratch line), then the bit-reversal permutation and, when requested,
/// the 1/n^2 amplitude correction.
pub fn ifft2d(f: &mut Field, table: &FftTable, scale: bool)
    requires
        old(f).wf(),
        table.wf(),
        table.n == old(f).n,
    ensures
        final(f).wf(),
        final(f).n == old(f).n,
        final(f).data@ == spec_ifft2d(
            table.lg as nat,
            old(f).n as int,
            old(f).data@,
            scale,
        ),
{
    let ghost orig = f.data@;
    let ghost lg = table.lg as nat;
    let n = f.n;
    let ghost ni = n as int;
    let mut buf = zero_line(n);
    let mut scratch = zero_line(n);

    // Horizontal pass.
    let mut r: usize = 0;
    while r < n
        invariant
            f.wf(),
            f.n == n,
            table.wf(),
            table.n == n,
            lg == table.lg as nat,
            ni == n as int,
            r <= n,
            buf@.len() == n,
            scratch@.len() == n,
            forall|i: int, j: int|
                0 <= i < n && 0 <= j < n && i < r ==> f.at(i, j) == line_fft(
                    lg,
                    row_of(ni, orig, i),
                )[j],
            forall|i: int, j: int|
                0 <= i < n && 0 <= j < n && i >= r ==> f.at(i, j) == orig[i * ni + j],
        decreases n - r,
    {
        load_row(f, r, &mut buf);
        proof {
            assert forall|j: int| 0 <= j < ni implies buf@[j] == row_of(ni, orig, r as int)[j] by {
                assert(buf@[j] == f.at(r as int, j));
                assert(f.at(r as int, j) == orig[(r as int) * ni + j]);
            }
            assert(buf@ =~= row_of(ni, orig, r as int));
        }
        line_fft_exec(table, &mut buf, &mut scratch);
        store_row(f, r, &buf);
        r = r + 1;
    }
    proof {
        lemma_grid_total(ni);
        assert(f.data@ =~= rows_fft(lg, ni, orig)) by {
            assert forall|idx: int| 0 <= idx < ni * ni implies f.data@[idx] == rows_fft(
                lg,
                ni,
                orig,
            )[idx] by {
                crate::field::lemma_idx_decompose(ni, idx);
                assert(f.data@[idx] == f.at(idx / ni, idx % ni));
            }
        }
    }
    let ghost after_rows = f.data@;

    // Vertical pass.
    let mut c: usize = 0;
    while c < n
        invariant
            f.wf(),
            f.n == n,
            table.wf(),
            table.n == n,
            lg == table.lg as nat,
            ni == n as int,
            c <= n,
            buf@.len() == n,
            scratch@.len() == n,
            forall|i: int, j: int|
                0 <= i < n && 0 <= j < n && j < c ==> f.at(i, j) == line_fft(
                    lg,
                    col_of(ni, after_rows, j),
                )[i],
            forall|i: int, j: int|
                0 <= i < n && 0 <= j < n && j >= c ==> f.at(i, j) == after_rows[i * ni + j],
        decreases n - c,
    {
        load_col(f, c, &mut buf);
        proof {
            assert forall|i: int| 0 <= i < ni implies buf@[i] == col_of(ni, after_rows, c as int)[i] by {
                assert(buf@[i] == f.at(i, c as int));
                assert(f.at(i, c as int) == after_rows[i * ni + c as int]);
            }
            assert(buf@ =~= col_of(ni, after_rows, c as int));
        }
        line_fft_exec(table, &mut buf, &mut scratch);
        store_col(f, c, &buf);
        c = c + 1;
    }
    proof {
        assert(f.data@ =~= cols_fft(lg, ni, after_rows)) by {
            assert forall|idx: int| 0 <= idx < ni * ni implies f.data@[idx] == cols_fft(
                lg,
                ni,
                after_rows,
            )[idx] by {
                crate::field::lemma_idx_decompose(ni, idx);
                assert(f.data@[idx] == f.at(idx / ni, idx % ni));
            }
        }
    }
    let ghost after_cols = f.data@;

    // Bit-reversal permutation pass.
    let lgx = table.lg;
    let mut out: Vec<Cplx> = Vec::new();
    let total = n * n;
    proof {
        lemma_grid_total(ni);
    }
    let mut idx: usize = 0;
    while idx < total
        invariant
            f.wf(),
            f.n == n,
            2 <= lgx <= 12,
            lg == lgx as nat,
            ni == n as int,
            n as nat == pow2(lg),
            total == n * n,
            f.data@ == after_cols,
            idx <= total,
            out@.len() == idx,
            forall|k: int| 0 <= k < idx ==> #[trigger] out@[k] == permute2(lg, ni, after_cols)[k],
        decreases total - idx,
    {
        let rr = idx / n;
        let cc = idx % n;
        proof {
            crate::field::lemma_idx_decompose(ni, idx as int);
            lemma_bitrev_range(lg, rr as int);
            lemma_bitrev_range(lg, cc as int);
        }
        let br = bitrev_exec(lgx, rr);
        let bc = bitrev_exec(lgx, cc);
        let v = f.get(br, bc);
        proof {
            assert(v == after_cols[bitrev(lg, idx as int / ni) * ni + bitrev(
                lg,
                idx as int % ni,
            )]);
            assert(permute2(lg, ni, after_cols)[idx as int] == after_cols[bitrev(
                lg,
                idx as int / ni,
            ) * ni + bitrev(lg, idx as int % ni)]);
        }
        out.push(v);
        idx = idx + 1;
    }
    f.data = out;
    proof {
        assert(f.data@ =~= permute2(lg, ni, after_cols));
    }

    // Optional amplitude scale pass.
    if scale {
        let ghost before_scale = f.data@;
        proof {
            assert(16 <= total as int) by (nonlinear_arith)
                requires
                    total as int == ni * ni,
                    4 <= ni,
            ;
        }
        let n2 = total as i64;
        let mut k: usize = 0;
        while k < total
            invariant
                f.wf(),
                f.n == n,
                ni == n as int,
                total == n * n,
                16 <= total <= 0x100_0000,
                n2 as int == total as int,
                k <= total,
                f.data@.len() == total,
                forall|t: int|
                    0 <= t < k ==> #[trigger] f.data@[t] == spec_scale_cell(before_scale[t], n2 as int),
                forall|t: int| k <= t < total ==> #[trigger] f.data@[t] == before_scale[t],
            decreases total - k,
        {
            let z = f.data[k];
            let re = crate::fixed::clip_i128(crate::fixed::div_floor_i128(z.re as i128, n2 as i128));
            let im = crate::fixed::clip_i128(crate::fixed::div_floor_i128(z.im as i128, n2 as i128));
            proof {
                lemma_scale_in_range(z.re as int, n2 as int);
                lemma_scale_in_range(z.im as int, n2 as int);
            }
            let zz = Cplx { re, im };
            f.data.set(k, zz);
            k = k + 1;
        }
        proof {
            assert(f.data@ =~= Seq::new(
                (ni * ni) as nat,
                |t: int| spec_scale_cell(before_scale[t], ni * ni),
            ));
        }
    }
}

/// Dividing a raw channel by a positive cell count keeps it representable,
/// so the clip around the quotient changes nothing.
proof fn lemma_scale_in_range(x: int, d: int)
    requires
        -0x8000_0000_0000_0000 <= x <= 0x7FFF_FFFF_FFFF_FFFF,
        16 <= d,
    ensures
        crate::fixed::clip(x / d) == x / d,
        -0x8000_0000_0000_0000 <= x / d <= 0x7FFF_FFFF_FFFF_FFFF,
{
    lemma_fundamental_div_mod(x, d);
    let q = x / d;
    let r = x % d;
    assert(-0x3FFF_FFFF_FFFF_FFFF <= q <= 0x3FFF_FFFF_FFFF_FFFF) by (nonlinear_arith)
        requires
            x == d * q + r,
            0 <= r < d,
            -0x8000_0000_0000_0000 <= x <= 0x7FFF_FFFF_FFFF_FFFF,
            16 <= d,
    ;
}

/// Applying butterfly stages keeps the line length.
pub proof fn lemma_line_stages_len(lg: nat, s: nat, line: Seq<Cplx>)
    ensures
        line_stages(lg, s, line).len() == line.len(),
    decreases s,
{
    if s > 0 {
        lemma_line_stages_len(lg, (s - 1) as nat, line);
    }
}

/// Butterfly stages map the all-zero line to the all-zero line.
pub proof fn lemma_line_stages_zero(lg: nat, s: nat, line: Seq<Cplx>)
    requires
        s <= lg,
        lg <= 12,
        line.len() == pow2(lg),
        forall|k: int| 0 <= k < line.len() ==> line[k] == cplx_zero(),
    ensures
        forall|p: int|
            0 <= p < pow2(lg) ==> #[trigger] line_stages(lg, s, line)[p] == cplx_zero(),
    decreases s,
{
    if s > 0 {
        lemma_line_stages_zero(lg, (s - 1) as nat, line);
        lemma_line_stages_len(lg, (s - 1) as nat, line);
        let prev = line_stages(lg, (s - 1) as nat, line);
        assert forall|p: int| 0 <= p < pow2(lg) implies #[trigger] line_stages(lg, s, line)[p]
            == cplx_zero() by {
            lemma_butterfly_bounds(lg, (s - 1) as nat, p);
            let bf = spec_butterfly(lg, (s - 1) as nat, p);
            assert(prev[bf.a as int] == cplx_zero());
            assert(prev[bf.b as int] == cplx_zero());
            crate::cplx::lemma_cmul_zero_right(bf.w);
        }
    }
}

/// One butterfly stage applied to a line that holds z at every multiple
/// of 2^(lg-sm1) and zero elsewhere places z at every multiple of
/// 2^(lg-sm1-1): the butterflies copy z outward exactly, because the
/// twiddle at block offset zero is the exact unit.
proof fn lemma_dc_stage_cell(lg: nat, sm1: nat, prev: Seq<Cplx>, z: Cplx, p: int)
    requires
        sm1 < lg,
        lg <= 12,
        prev.len() == pow2(lg),
        crate::cplx::cplx_ok(z),
        0 <= p < pow2(lg),
        forall|k: int|
            0 <= k < pow2(lg) ==> #[trigger] prev[k] == (if k % (pow2((lg - sm1) as nat) as int)
                == 0 {
                z
            } else {
                cplx_zero()
            }),
    ensures
        line_stage(lg, sm1, prev)[p] == (if p % (pow2((lg - sm1 - 1) as nat) as int) == 0 {
            z
        } else {
            cplx_zero()
        }),
{
    let m = pow2((lg - sm1) as nat) as int;
    let h = pow2((lg - sm1 - 1) as nat) as int;
    lemma_pow2_unfold((lg - sm1) as nat);
    lemma_pow2_pos((lg - sm1 - 1) as nat);
    assert(m == 2 * h);
    lemma_pow2_increases_small(lg);
    lemma_butterfly_bounds(lg, sm1, p);
    let bf = spec_butterfly(lg, sm1, p);
    lemma_fundamental_div_mod(p, m);
    let q = p / m;
    let j = p % m;
    assert(0 <= q) by (nonlinear_arith)
        requires
            p == m * q + j,
            0 <= j < m,
            0 <= p,
            0 < m,
    ;
    if j < h {
        // bf: a = p, b = p + h, w = 1, sum butterfly
        assert(p == (2 * q) * h + j) by (nonlinear_arith)
            requires
                p == m * q + j,
                m == 2 * h,
        ;
        vstd::arithmetic::div_mod::lemma_fundamental_div_mod_converse_mod(p, h, 2 * q, j);
        assert(p % h == j);
        assert(p + h == q * m + (j + h)) by (nonlinear_arith)
            requires
                p == m * q + j,
        ;
        vstd::arithmetic::div_mod::lemma_fundamental_div_mod_converse_mod(p + h, m, q, j + h);
        assert((p + h) % m == j + h);
        assert(bf.a as int == p && bf.b as int == p + h);
        assert(line_stage(lg, sm1, prev)[p] == butterfly_out(bf, prev[p], prev[p + h]));
        if j == 0 {
            assert(prev[p] == z);
            assert(prev[p + h] == cplx_zero());
            crate::cplx::lemma_cadd_zero(z);
            crate::cplx::lemma_cmul_one(z);
        } else {
            assert(prev[p] == cplx_zero());
            assert(prev[p + h] == cplx_zero());
            crate::cplx::lemma_cmul_zero_right(bf.w);
        }
    } else {
        // bf: a = p - h, b = p, difference butterfly
        let jj = j - h;
        assert(p - h == q * m + jj) by (nonlinear_arith)
            requires
                p == m * q + j,
                jj == j - h,
        ;
        vstd::arithmetic::div_mod::lemma_fundamental_div_mod_converse_mod(p - h, m, q, jj);
        assert((p - h) % m == jj);
        assert(p == (2 * q + 1) * h + jj) by (nonlinear_arith)
            requires
                p == m * q + j,
                m == 2 * h,
                jj == j - h,
        ;
        vstd::arithmetic::div_mod::lemma_fundamental_div_mod_converse_mod(p, h, 2 * q + 1, jj);
        assert(p % h == jj);
        assert(bf.a as int == p - h && bf.b as int == p);
        assert(line_stage(lg, sm1, prev)[p] == butterfly_out(bf, prev[p - h], prev[p]));
        if jj == 0 {
            assert(prev[p - h] == z);
            assert(prev[p] == cplx_zero());
            // the twiddle at offset zero is the exact unit
            assert((j - h) * (FRAC as int) == 0) by (nonlinear_arith)
                requires
                    j == h,
            ;
            vstd::arithmetic::div_mod::lemma_div_of0(m);
            crate::trig::lemma_trig_zero();
            assert(bf.w == cplx_one());
            crate::cplx::lemma_csub_zero(z);
            crate::cplx::lemma_cmul_one(z);
        } else {
            assert(prev[p - h] == cplx_zero());
            assert(prev[p] == cplx_zero());
            crate::cplx::lemma_cmul_zero_right(bf.w);
        }
    }
}

/// A line whose only nonzero sample is z at index 0: after s butterfly
/// stages, z stands at every multiple of 2^(lg-s) and every other sample
/// is still zero.
pub proof fn lemma_line_stages_dc(lg: nat, s: nat, line: Seq<Cplx>, z: Cplx)
    requires
        s <= lg,
        lg <= 12,
        line.len() == pow2(lg),
        crate::cplx::cplx_ok(z),
        line[0] == z,
        forall|k: int| 1 <= k < line.len() ==> line[k] == cplx_zero(),
    ensures
        forall|p: int|
            0 <= p < pow2(lg) ==> #[trigger] line_stages(lg, s, line)[p] == (if p % (pow2(
                (lg - s) as nat,
            ) as int) == 0 {
                z
            } else {
                cplx_zero()
            }),
    decreases s,
{
    lemma_pow2_pos(lg);
    if s == 0 {
        assert forall|p: int| 0 <= p < pow2(lg) implies #[trigger] line_stages(lg, 0, line)[p]
            == (if p % (pow2(lg) as int) == 0 {
            z
        } else {
            cplx_zero()
        }) by {
            vstd::arithmetic::div_mod::lemma_small_mod(p as nat, pow2(lg));
        }
    } else {
        lemma_line_stages_dc(lg, (s - 1) as nat, line, z);
        lemma_line_stages_len(lg, (s - 1) as nat, line);
        let prev = line_stages(lg, (s - 1) as nat, line);
        assert forall|p: int| 0 <= p < pow2(lg) implies #[trigger] line_stages(lg, s, line)[p]
            == (if p % (pow2((lg - s) as nat) as int) == 0 {
            z
        } else {
            cplx_zero()
        }) by {
            lemma_dc_stage_cell(lg, (s - 1) as nat, prev, z, p);
        }
    }
}

/// A fully transformed line that started as z at index 0 and zero
/// elsewhere is the constant line z.
pub proof fn lemma_line_fft_dc(lg: nat, line: Seq<Cplx>, z: Cplx)
    requires
        lg <= 12,
        line.len() == pow2(lg),
        crate::cplx::cplx_ok(z),
        line[0] == z,
        forall|k: int| 1 <= k < line.len() ==> line[k] == cplx_zero(),
    ensures
        forall|p: int| 0 <= p < pow2(lg) ==> #[trigger] line_fft(lg, line)[p] == z,
{
    lemma_line_stages_dc(lg, lg, line, z);
    assert(pow2(0) == 1) by {
        vstd::arithmetic::power2::lemma2_to64();
    }
    assert forall|p: int| 0 <= p < pow2(lg) implies #[trigger] line_fft(lg, line)[p] == z by {
        vstd::arithmetic::div_mod::lemma_fundamental_div_mod_converse_mod(p, 1, p, 0);
        assert(p % 1 == 0);
    }
}

/// A field holding only a DC term (z in cell (0, 0), zero elsewhere)
/// transforms to a spatially uniform field: every cell of the 2-D inverse
/// FFT equals z (or z scaled by 1/n^2 when scaling is requested). This is
/// exactly the output of ifft2d under a table built by build_fft_table(n).
pub proof fn lemma_ifft2d_dc_uniform(lg: nat, n: int, f: Seq<Cplx>, z: Cplx, scale: bool)
    requires
        2 <= lg <= 12,
        n == pow2(lg),
        f.len() == n * n,
        crate::cplx::cplx_ok(z),
        f[0] == z,
        forall|k: int| 1 <= k < n * n ==> f[k] == cplx_zero(),
    ensures
        forall|idx: int|
            0 <= idx < n * n ==> #[trigger] spec_ifft2d(lg, n, f, scale)[idx] == (if scale {
                spec_scale_cell(z, n * n)
            } else {
                z
            }),
{
    lemma_pow2_pos(lg);
    assert(n <= n * n) by (nonlinear_arith)
        requires
            1 <= n,
    ;
    let g1 = rows_fft(lg, n, f);
    // Row 0 carries the DC line; all other rows are zero lines.
    assert forall|idx: int| 0 <= idx < n * n implies #[trigger] g1[idx] == (if idx / n == 0 {
        z
    } else {
        cplx_zero()
    }) by {
        crate::field::lemma_idx_decompose(n, idx);
        let r = idx / n;
        let row = row_of(n, f, r);
        if r == 0 {
            assert forall|k: int| 0 <= k < n implies #[trigger] row[k] == f[k] by {
                assert(r * n == 0) by (nonlinear_arith)
                    requires
                        r == 0,
                ;
            }
            lemma_line_fft_dc(lg, row, z);
        } else {
            assert forall|k: int| 0 <= k < n implies #[trigger] row[k] == cplx_zero() by {
                crate::field::lemma_grid_index(n, r, k);
                assert(1 <= r * n + k) by (nonlinear_arith)
                    requires
                        1 <= r,
                        0 <= k,
                        1 <= n,
                ;
            }
            lemma_line_stages_zero(lg, lg, row);
        }
    }
    let g2 = cols_fft(lg, n, g1);
    // Every column of g1 is now a DC line, so g2 is uniformly z.
    assert forall|idx: int| 0 <= idx < n * n implies #[trigger] g2[idx] == z by {
        crate::field::lemma_idx_decompose(n, idx);
        let c = idx % n;
        let col = col_of(n, g1, c);
        assert forall|r: int| 0 <= r < n implies #[trigger] col[r] == (if r == 0 {
            z
        } else {
            cplx_zero()
        }) by {
            crate::field::lemma_grid_index(n, r, c);
            vstd::arithmetic::div_mod::lemma_fundamental_div_mod_converse_div(
                r * n + c,
                n,
                r,
                c,
            );
            assert((r * n + c) / n == r);
        }
        lemma_line_fft_dc(lg, col, z);
    }
    let g3 = permute2(lg, n, g2);
    assert forall|idx: int| 0 <= idx < n * n implies #[trigger] g3[idx] == z by {
        crate::field::lemma_idx_decompose(n, idx);
        lemma_bitrev_range(lg, idx / n);
        lemma_bitrev_range(lg, idx % n);
        crate::field::lemma_grid_index(n, bitrev(lg, idx / n), bitrev(lg, idx % n));
    }
}

} // verus!
