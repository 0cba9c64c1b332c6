//! Square 2-D grids of complex samples, stored row-major.

use vstd::prelude::*;
use crate::cplx::Cplx;

verus! {

/// Largest accepted grid side.
pub const MAX_N: usize = 4096;

/// A square 2-D grid of complex samples of side `n`, stored row-major;
/// cell (r, c) lives at index r * n + c.
pub struct Field {
    pub n: usize,
    pub data: Vec<Cplx>,
}

/// Row-major index of cell (r, c) stays inside an n-by-n grid.
pub proof fn lemma_grid_index(n: int, r: int, c: int)
    requires
        0 <= r < n,
        0 <= c < n,
    ensures
        0 <= r * n + c < n * n,
{
    assert(0 <= r * n + c < n * n) by (nonlinear_arith)
        requires
            0 <= r < n,
            0 <= c < n,
    ;
}

/// A flat index into an n-by-n grid splits into a row and a column.
pub proof fn lemma_idx_decompose(n: int, idx: int)
    requires
        0 < n,
        0 <= idx < n * n,
    ensures
        0 <= idx / n < n,
        0 <= idx % n < n,
        idx == (idx / n) * n + idx % n,
{
    vstd::arithmetic::div_mod::lemma_fundamental_div_mod(idx, n);
    assert(0 <= idx / n < n && idx == (idx / n) * n + idx % n) by (nonlinear_arith)
        requires
            idx == n * (idx / n) + idx % n,
            0 <= idx % n < n,
            0 <= idx < n * n,
            0 < n,
    ;
}

/// A bounded grid's cell count is small.
pub proof fn lemma_grid_total(n: int)
    requires
        0 <= n <= MAX_N,
    ensures
        n * n <= 0x100_0000,
{
    assert(n * n <= 0x100_0000) by (nonlinear_arith)
        requires
            0 <= n <= 4096,
    ;
}

/// Row-major indexing is injective over the grid.
pub proof fn lemma_grid_index_injective(n: int, r1: int, c1: int, r2: int, c2: int)
    requires
        0 <= r1 < n,
        0 <= c1 < n,
        0 <= r2 < n,
        0 <= c2 < n,
        r1 * n + c1 == r2 * n + c2,
    ensures
        r1 == r2 && c1 == c2,
{
    assert(r1 == r2 && c1 == c2) by (nonlinear_arith)
        requires
            0 <= r1 < n,
            0 <= c1 < n,
            0 <= r2 < n,
            0 <= c2 < n,
            r1 * n + c1 == r2 * n + c2,
    ;
}

impl Field {
    /// Well-formed grid: positive bounded side, fully allocated backing store.
    pub open spec fn wf(self) -> bool {
        1 <= self.n <= MAX_N && self.data@.len() == self.n * self.n
    }

    /// The sample at row r, column c.
    pub open spec fn at(self, r: int, c: int) -> Cplx {
        self.data@[r * (self.n as int) + c]
    }

    /// Build an n-by-n grid with every cell set to v.
    pub fn filled(n: usize, v: Cplx) -> (f: Field)
        requires
            1 <= n <= MAX_N,
        ensures
            f.wf(),
            f.n == n,
            forall|r: int, c: int| 0 <= r < n && 0 <= c < n ==> f.at(r, c) == v,
    {
        proof {
            lemma_grid_total(n as int);
        }
        let total = n * n;
        let mut data: Vec<Cplx> = Vec::new();
        while data.len() < total
            invariant
                data@.len() <= total,
                total == n * n,
                forall|k: int| 0 <= k < data@.len() ==> data@[k] == v,
            decreases total - data@.len(),
        {
            data.push(v);
        }
        let f = Field { n, data };
        proof {
            assert forall|r: int, c: int| 0 <= r < n && 0 <= c < n implies f.at(r, c) == v by {
                lemma_grid_index(n as int, r, c);
            }
        }
        f
    }

    pub fn get(&self, r: usize, c: usize) -> (v: Cplx)
        requires
            self.wf(),
            r < self.n,
            c < self.n,
        ensures
            v == self.at(r as int, c as int),
    {
        proof {
            lemma_grid_index(self.n as int, r as int, c as int);
            lemma_grid_total(self.n as int);
        }
        self.data[r * self.n + c]
    }

    pub fn set(&mut self, r: usize, c: usize, v: Cplx)
        requires
            old(self).wf(),
            r < old(self).n,
            c < old(self).n,
        ensures
            final(self).wf(),
            final(self).n == old(self).n,
            final(self).at(r as int, c as int) == v,
            forall|i: int, j: int|
                0 <= i < old(self).n && 0 <= j < old(self).n && !(i == r && j == c)
                    ==> final(self).at(i, j) == old(self).at(i, j),
    {
        proof {
            lemma_grid_index(self.n as int, r as int, c as int);
            lemma_grid_total(self.n as int);
        }
        let idx = r * self.n + c;
        self.data.set(idx, v);
        proof {
            let n = self.n as int;
            assert forall|i: int, j: int|
                0 <= i < n && 0 <= j < n && !(i == r && j == c)
                    implies self.at(i, j) == old(self).at(i, j) by {
                lemma_grid_index(n, i, j);
                if i * n + j == r * n + c {
                    lemma_grid_index_injective(n, i, j, r as int, c as int);
                }
            }
        }
    }

}

} // verus!
