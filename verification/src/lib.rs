//! Spectral ocean-surface synthesizer.
//!
//! The library generates, per simulation step, a set of square 2-D fields
//! (displacement, surface derivatives, foam) from a statistical wind-wave
//! spectrum: an initial directional spectrum is built once from Gaussian
//! noise, evolved in time under the deep/finite-depth dispersion relation,
//! transformed to the spatial domain by an iterative 2-D inverse FFT with
//! ping-pong buffering, and composited into renderer-ready maps.
//!
//! All numeric work is done in saturating fixed-point arithmetic
//! (see [`fixed`]) so that every function is total and panic-free.

pub mod composite;
pub mod cplx;
pub mod errors;
pub mod evolve;
pub mod fft;
pub mod field;
pub mod fixed;
pub mod input;
pub mod noise;
pub mod params;
pub mod sim;
pub mod spectrum;
pub mod transcend;
pub mod trig;

pub use composite::OutputMaps;
pub use errors::SimError;
pub use params::{SimulationParameters, SwellBand};
pub use sim::{SimulationState, initialize, initialize_with_noise};
