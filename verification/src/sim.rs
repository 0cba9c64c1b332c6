//! The simulation state and its lifecycle: one-time initialization
//! (noise, spectrum, FFT table), a per-tick step producing the three
//! output maps, and parameter reconfiguration that recomputes the
//! spectrum without touching the noise or the FFT table.

use vstd::prelude::*;
use crate::composite::{
    OutputMaps, composite, spec_displacement_cell, spec_derivative_cell, spec_foam_update,
    spec_jacobian, lemma_foam_in_unit_range,
};
use crate::cplx::{Cplx, spec_conj};
use crate::errors::SimError;
use crate::evolve::{evolve, spec_channel_field};
use crate::fft::{FftTable, build_fft_table, ifft2d, spec_ifft2d};
use crate::field::Field;
use crate::fixed::{FRAC, fx_add, add_fx};
use crate::noise::{generate_noise, noise_cell_ok};
use crate::params::{SimulationParameters, params_valid, validate_params};
use crate::spectrum::{init_spectrum, spec_h0_cell, mirror_idx};

verus! {

/// All data the simulation carries across ticks.
pub struct SimulationState {
    pub params: SimulationParameters,
    pub noise: Field,
    pub h0: Field,
    pub h0c: Field,
    pub table: FftTable,
    pub foam: Vec<i64>,
    pub time: i64,
}

impl SimulationState {
    /// Well-formed state: valid parameters, matching grid sides, a table
    /// built for this side, foam in [0, 1], and the spectrum pair pinned
    /// to its construction from the noise (h0 pointwise, h0_conj as the
    /// mirrored conjugate of h0).
    pub open spec fn wf(self) -> bool {
        &&& params_valid(self.params)
        &&& self.noise.wf() && self.noise.n == self.params.n
        &&& self.h0.wf() && self.h0.n == self.params.n
        &&& self.h0c.wf() && self.h0c.n == self.params.n
        &&& self.table.wf() && self.table.n == self.params.n
        &&& self.foam@.len() == self.params.n * self.params.n
        &&& forall|k: int| 0 <= k < self.foam@.len() ==> 0 <= #[trigger] self.foam@[k] <= FRAC
        &&& forall|i: int, j: int|
            0 <= i < self.params.n && 0 <= j < self.params.n ==> #[trigger] self.h0.at(i, j)
                == spec_h0_cell(self.params, self.noise.at(i, j), i, j)
        &&& forall|i: int, j: int|
            0 <= i < self.params.n && 0 <= j < self.params.n ==> #[trigger] self.h0c.at(i, j)
                == spec_conj(
                self.h0.at(mirror_idx(self.params.n as int, i), mirror_idx(self.params.n as int, j)),
            )
    }

    /// One spatial-domain channel of this state at time t: the evolved
    /// frequency-domain channel pushed through the 2-D inverse FFT.
    pub open spec fn spatial_channel(self, t: int, which: int) -> Seq<Cplx> {
        spec_ifft2d(
            self.table.lg as nat,
            self.params.n as int,
            spec_channel_field(self.params, self.h0.data@, self.h0c.data@, t, which),
            false,
        )
    }
}

fn zero_foam(total: usize) -> (v: Vec<i64>)
    ensures
        v@.len() == total,
        forall|k: int| 0 <= k < total ==> #[trigger] v@[k] == 0,
{
    let mut v: Vec<i64> = Vec::new();
    let mut i: usize = 0;
    while i < total
        invariant
            v@.len() == i <= total,
            forall|k: int| 0 <= k < i ==> #[trigger] v@[k] == 0,
        decreases total - i,
    {
        v.push(0);
        i = i + 1;
    }
    v
}

fn copy_foam(src: &Vec<i64>) -> (v: Vec<i64>)
    ensures
        v@ == src@,
{
    let mut v: Vec<i64> = Vec::new();
    let mut i: usize = 0;
    let total = src.len();
    while i < total
        invariant
            total == src@.len(),
            v@.len() == i <= total,
            forall|k: int| 0 <= k < i ==> #[trigger] v@[k] == src@[k],
        decreases total - i,
    {
        v.push(src[i]);
        i = i + 1;
    }
    proof {
        assert(v@ =~= src@);
    }
    v
}

/// Initialize from a caller-supplied noise field (reproducible runs):
/// builds the spectrum pair and the FFT table, zero foam, time zero.
/// Succeeds exactly when the parameters are valid and the noise grid
/// matches their side.
pub fn initialize_with_noise(params: SimulationParameters, noise: Field) -> (r: Result<
    SimulationState,
    SimError,
>)
    ensures
        match r {
            Ok(st) => {
                &&& params_valid(params)
                &&& st.wf()
                &&& st.params == params
                &&& st.noise.n == noise.n && st.noise.data@ == noise.data@
                &&& st.time == 0
                &&& forall|k: int| 0 <= k < st.foam@.len() ==> #[trigger] st.foam@[k] == 0
            },
            Err(_) => !(params_valid(params) && noise.wf() && noise.n == params.n),
        },
{
    match validate_params(&params) {
        Ok(()) => (),
        Err(e) => {
            return Err(e);
        },
    }
    proof {
        crate::field::lemma_grid_total(params.n as int);
    }
    if noise.n != params.n || noise.data.len() != params.n * params.n || noise.n < 1
        || noise.n > crate::field::MAX_N {
        return Err(SimError::InvalidGridSize);
    }
    let (h0, h0c) = init_spectrum(&noise, &params);
    let table = match build_fft_table(params.n) {
        Ok(t) => t,
        Err(e) => {
            proof {
                assert(false);
            }
            return Err(e);
        },
    };
    let total = params.n * params.n;
    let foam = zero_foam(total);
    Ok(SimulationState { params, noise, h0, h0c, table, foam, time: 0 })
}

/// Initialize the simulation: draw fresh Gaussian noise, build the
/// spectrum pair and the FFT table. Succeeds exactly when the
/// parameters are valid.
pub fn initialize(params: SimulationParameters) -> (r: Result<SimulationState, SimError>)
    ensures
        match r {
            Ok(st) => {
                &&& params_valid(params)
                &&& st.wf()
                &&& st.params == params
                &&& st.time == 0
                &&& forall|k: int| 0 <= k < st.foam@.len() ==> #[trigger] st.foam@[k] == 0
                &&& forall|i: int, j: int|
                    0 <= i < params.n && 0 <= j < params.n ==> noise_cell_ok(
                        #[trigger] st.noise.at(i, j),
                    )
            },
            Err(_) => !params_valid(params),
        },
{
    match validate_params(&params) {
        Ok(()) => (),
        Err(e) => {
            return Err(e);
        },
    }
    let noise = generate_noise(params.n);
    let ghost gnoise = noise;
    let r = initialize_with_noise(params, noise);
    match r {
        Ok(st) => {
            proof {
                assert forall|i: int, j: int|
                    0 <= i < params.n && 0 <= j < params.n implies noise_cell_ok(
                    #[trigger] st.noise.at(i, j),
                ) by {
                    assert(st.noise.at(i, j) == gnoise.at(i, j));
                    assert(noise_cell_ok(gnoise.at(i, j)));
                }
            }
            Ok(st)
        },
        Err(e) => {
            proof {
                assert(false);
            }
            Err(e)
        },
    }
}

impl SimulationState {
    /// Advance one simulation tick by dt seconds: evolve the spectrum to
    /// the new time, transform the four channels to the spatial domain,
    /// and composite the three output maps. The three maps are produced
    /// together and the foam state advances to exactly the foam map, so
    /// a renderer never observes a partial update. Never fails on a
    /// well-formed state.
    pub fn step(&mut self, dt: i64) -> (r: OutputMaps)
        requires
            old(self).wf(),
            0 <= dt,
        ensures
            final(self).wf(),
            final(self).params == old(self).params,
            final(self).noise == old(self).noise,
            final(self).h0 == old(self).h0,
            final(self).h0c == old(self).h0c,
            final(self).table == old(self).table,
            final(self).time as int == fx_add(old(self).time as int, dt as int),
            r.n == old(self).params.n,
            r.displacement@.len() == r.n * r.n,
            r.derivative@.len() == r.n * r.n,
            r.foam@.len() == r.n * r.n,
            final(self).foam@ == r.foam@,
            forall|idx: int|
                0 <= idx < r.n * r.n ==> #[trigger] r.displacement@[idx] == spec_displacement_cell(
                    old(self).spatial_channel(fx_add(old(self).time as int, dt as int), 1)[idx],
                    old(self).spatial_channel(fx_add(old(self).time as int, dt as int), 2)[idx],
                ),
            forall|idx: int|
                0 <= idx < r.n * r.n ==> #[trigger] r.derivative@[idx] == spec_derivative_cell(
                    old(self).spatial_channel(fx_add(old(self).time as int, dt as int), 3)[idx],
                    old(self).spatial_channel(fx_add(old(self).time as int, dt as int), 4)[idx],
                ),
            forall|idx: int|
                0 <= idx < r.n * r.n ==> #[trigger] r.foam@[idx] == spec_foam_update(
                    old(self).foam@[idx] as int,
                    spec_jacobian(
                        old(self).spatial_channel(fx_add(old(self).time as int, dt as int), 2)[idx].im as int,
                        old(self).spatial_channel(fx_add(old(self).time as int, dt as int), 4)[idx].re as int,
                        old(self).spatial_channel(fx_add(old(self).time as int, dt as int), 4)[idx].im as int,
                    ),
                    dt as int,
                ),
    {
        let t = add_fx(self.time, dt);
        let ghost ti = fx_add(old(self).time as int, dt as int);
        let (mut f1, mut f2, mut f3, mut f4) = evolve(&self.h0, &self.h0c, &self.params, t);
        ifft2d(&mut f1, &self.table, false);
        ifft2d(&mut f2, &self.table, false);
        ifft2d(&mut f3, &self.table, false);
        ifft2d(&mut f4, &self.table, false);
        proof {
            assert(f1.data@ == old(self).spatial_channel(ti, 1));
            assert(f2.data@ == old(self).spatial_channel(ti, 2));
            assert(f3.data@ == old(self).spatial_channel(ti, 3));
            assert(f4.data@ == old(self).spatial_channel(ti, 4));
        }
        let maps = composite(&f1, &f2, &f3, &f4, &self.foam, dt);
        let newfoam = copy_foam(&maps.foam);
        proof {
            let n = self.params.n as int;
            assert forall|k: int| 0 <= k < newfoam@.len() implies 0 <= #[trigger] newfoam@[k]
                <= FRAC by {
                lemma_foam_in_unit_range(
                    old(self).foam@[k] as int,
                    spec_jacobian(f2.data@[k].im as int, f4.data@[k].re as int, f4.data@[k].im as int),
                    dt as int,
                );
            }
        }
        self.foam = newfoam;
        self.time = t;
        maps
    }

    /// Reconfigure wind and wave parameters without rebuilding the FFT
    /// table or regenerating the noise: only the spectrum pair is
    /// recomputed. The grid side is invariant; changing it requires a
    /// fresh initialization. On error the state is unchanged.
    pub fn reconfigure(&mut self, new_params: SimulationParameters) -> (r: Result<(), SimError>)
        requires
            old(self).wf(),
        ensures
            match r {
                Ok(()) => {
                    &&& params_valid(new_params)
                    &&& new_params.n == old(self).params.n
                    &&& final(self).wf()
                    &&& final(self).params == new_params
                    &&& final(self).noise == old(self).noise
                    &&& final(self).table == old(self).table
                    &&& final(self).foam == old(self).foam
                    &&& final(self).time == old(self).time
                },
                Err(_) => {
                    &&& !(params_valid(new_params) && new_params.n == old(self).params.n)
                    &&& *final(self) == *old(self)
                },
            },
    {
        match validate_params(&new_params) {
            Ok(()) => (),
            Err(e) => {
                return Err(e);
            },
        }
        if new_params.n != self.params.n {
            return Err(SimError::InvalidGridSize);
        }
        let (h0, h0c) = init_spectrum(&self.noise, &new_params);
        self.h0 = h0;
        self.h0c = h0c;
        self.params = new_params;
        Ok(())
    }
}

} // verus!
