//! Verified core of a spectral ocean-surface simulation.
//!
//! Every floating-point value the simulation touches is carried here as the
//! raw bit pattern of an IEEE-754 single, so that the addressing, routing,
//! ordering and bookkeeping of the pipeline can be stated and proved exactly.

pub mod bits;
pub mod butterfly;
pub mod cascade;
pub mod compositor;
pub mod dft;
pub mod executor;
pub mod fft;
pub mod grid;
pub mod mesh;
pub mod params;
pub mod rng;
pub mod schedule;
pub mod simdata;
pub mod simulation;
pub mod single;
pub mod spectrum;
pub mod texture;
