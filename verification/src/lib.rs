//! A three-dimensional cellular-automaton engine for modelling cell sorting
//! among `K` differentiated cell species plus an undifferentiated background.
//!
//! A cubic voxel grid holds one species label per voxel; each iteration
//! recomputes every voxel from a weighted spatial neighbourhood in the
//! previous generation, on a toroidal (wraparound) lattice.  Chemical ranges
//! and influences are fixed-point numbers in thousandths (`SCALE`), so the
//! whole update rule is exact integer arithmetic.

use vstd::prelude::*;

pub mod api;
pub mod batch;
pub mod chem;
pub mod chunk;
pub mod clock;
pub mod grid;
pub mod kernel;
pub mod numfmt;
pub mod order;
pub mod rng;
pub mod tables;
pub mod voxel;

verus! {

/// Fixed-point scale: parameter values are integers counting thousandths.
pub const SCALE: i64 = 1000;

/// Largest admitted number of differentiated species.
pub const K_MAX: usize = 20;

/// Largest admitted grid side length.
pub const N_MAX: usize = 256;

/// Largest admitted chemical range, in thousandths (100.000).
pub const RANGE_MAX: i64 = 100_000;

/// Largest admitted influence magnitude, in thousandths (1000.000).
pub const INFLUENCE_MAX: i64 = 1_000_000;

} // verus!
