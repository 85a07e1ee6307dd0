//! Plain data carried between the engine and its boundary handlers: the
//! request and response bodies of the control surface, as bare values.

use vstd::prelude::*;

verus! {

/// Request: rebuild the engine in the legacy two-band form.  Ranges and
/// influences are fixed-point thousandths.
#[derive(Clone, Copy, PartialEq, Eq, Structural, Debug)]
pub struct InfoPostInitialise {
    pub size: usize,
    pub dc_range: i64,
    pub dc_influence: i64,
    pub uc_range: i64,
    pub uc_influence: i64,
}

/// Request: fill the grid with uniform random labels in [0, chemicals).
#[derive(Clone, Copy, PartialEq, Eq, Structural, Debug)]
pub struct InfoPostSpreadChemicals {
    pub chemicals: u32,
}

/// Request: advance the given number of generations.
#[derive(Clone, Copy, PartialEq, Eq, Structural, Debug)]
pub struct InfoPostRunIteration {
    pub num_iterations: u32,
}

/// Request: select which label the mesher treats as "inside".
#[derive(Clone, Copy, PartialEq, Eq, Structural, Debug)]
pub struct InfoPostSetChemicalCapture {
    pub chemical_capture: usize,
}

/// Response: a bare status code, 0 for success.
#[derive(Clone, Copy, PartialEq, Eq, Structural, Debug)]
pub struct ResponsePostGeneral {
    pub status: u32,
}

/// Response: how long a run of iterations took, in whole milliseconds.
#[derive(Clone, Copy, PartialEq, Eq, Structural, Debug)]
pub struct ResponsePostRunIteration {
    pub duration_ms: u64,
}

/// Request: one sub-cube of the grid, by chunk coordinates at a given
/// subdivision.
#[derive(Clone, Copy, PartialEq, Eq, Structural, Debug)]
pub struct InfoGetChunk {
    pub split: usize,
    pub chunkx: usize,
    pub chunky: usize,
    pub chunkz: usize,
}

} // verus!
