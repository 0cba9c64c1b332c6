//! Noise source: a field of approximately standard-normal complex
//! samples, generated once at initialization.
//!
//! Uniform machine words come from the process random number generator;
//! each word is folded into a Gaussian-like sample by summing twelve
//! uniform 5-bit chunks (an Irwin-Hall sum with mean 0 and variance 1).
//! Everything after the draw is verified for every possible word.

use vstd::prelude::*;
use crate::cplx::Cplx;
use crate::field::{Field, MAX_N};
use crate::fixed::FRAC;

verus! {

/// One uniform chunk is FRAC / 32 wide.
pub const CHUNK_UNIT: i64 = 0x8000;

/// Relies on rand::random::<u64>: a uniformly distributed machine word.
/// Nothing can be promised of a random value.
#[verifier::external_body]
fn random_word() -> u64 {
    rand::random()
}

/// Sum of the low 5-bit chunks of w, k chunks deep.
pub open spec fn chunk_sum(w: int, k: nat) -> int
    decreases k,
{
    if k == 0 {
        0
    } else {
        w % 32 + chunk_sum(w / 32, (k - 1) as nat)
    }
}

/// The Gaussian-like sample folded from one word: twelve uniform chunks
/// scaled to [0, 1) each, recentered by their mean 6.
pub open spec fn spec_gaussian(w: int) -> int {
    chunk_sum(w, 12) * (CHUNK_UNIT as int) - 6 * (FRAC as int)
}

proof fn lemma_chunk_sum_bounds(w: int, k: nat)
    requires
        0 <= w,
    ensures
        0 <= chunk_sum(w, k) <= 31 * k,
    decreases k,
{
    if k > 0 {
        lemma_chunk_sum_bounds(w / 32, (k - 1) as nat);
    }
}

/// Fold one word into a bounded Gaussian-like fixed-point sample.
pub fn gaussian_from_word(w: u64) -> (r: i64)
    ensures
        r as int == spec_gaussian(w as int),
        -6 * FRAC <= r <= 6 * FRAC,
{
    let mut acc: u64 = 0;
    let mut v = w;
    let mut i: usize = 0;
    while i < 12
        invariant
            i <= 12,
            acc as int + chunk_sum(v as int, (12 - i) as nat) == chunk_sum(w as int, 12),
            acc <= 31 * (i as u64),
        decreases 12 - i,
    {
        acc = acc + v % 32;
        v = v / 32;
        i = i + 1;
    }
    proof {
        lemma_chunk_sum_bounds(w as int, 12);
    }
    (acc as i64) * CHUNK_UNIT - 6 * FRAC
}

/// Every cell of a noise field is a bounded complex sample.
pub open spec fn noise_cell_ok(z: Cplx) -> bool {
    -6 * (FRAC as int) <= z.re <= 6 * (FRAC as int) && -6 * (FRAC as int) <= z.im <= 6 * (FRAC
        as int)
}

/// Generate an n-by-n field of independent complex Gaussian-like samples.
/// The draws are random, so the contract states only what holds of every
/// outcome: a well-formed field of bounded samples.
pub fn generate_noise(n: usize) -> (f: Field)
    requires
        1 <= n <= MAX_N,
    ensures
        f.wf(),
        f.n == n,
        forall|i: int, j: int| 0 <= i < n && 0 <= j < n ==> noise_cell_ok(#[trigger] f.at(i, j)),
{
    let mut f = Field::filled(n, Cplx { re: 0, im: 0 });
    let mut i: usize = 0;
    while i < n
        invariant
            f.wf(),
            f.n == n,
            i <= n,
            forall|r: int, c: int|
                0 <= r < n && 0 <= c < n ==> noise_cell_ok(#[trigger] f.at(r, c)) || r >= i,
        decreases n - i,
    {
        let mut j: usize = 0;
        while j < n
            invariant
                f.wf(),
                f.n == n,
                i < n,
                j <= n,
                forall|r: int, c: int|
                    0 <= r < n && 0 <= c < n ==> noise_cell_ok(#[trigger] f.at(r, c)) || r > i || (
                    r == i && c >= j),
            decreases n - j,
        {
            let re = gaussian_from_word(random_word());
            let im = gaussian_from_word(random_word());
            f.set(i, j, Cplx { re, im });
            j = j + 1;
        }
        i = i + 1;
    }
    f
}

} // verus!
