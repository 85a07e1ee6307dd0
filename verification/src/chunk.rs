//! A bare voxel field holding one sub-cube of an automaton's grid, handed
//! to the mesher so that large grids can be triangulated piece by piece.

use vstd::prelude::*;

use crate::grid::{flat_idx, CAGrid3D};
use crate::N_MAX;

verus! {

/// One chunk of a grid: a label field with indexed access and no rule of
/// its own.
pub struct CellularAutomaton3DChunk {
    pub grid: CAGrid3D,
}

impl CellularAutomaton3DChunk {
    pub open spec fn wf(&self) -> bool {
        self.grid.wf()
    }

    pub open spec fn spec_size(&self) -> int {
        self.grid.spec_size()
    }

    /// A fresh all-zero chunk of the given side length.
    pub fn new(size: usize) -> (c: CellularAutomaton3DChunk)
        requires
            1 <= size <= N_MAX,
        ensures
            c.wf(),
            c.spec_size() == size,
            c.grid@ == Seq::new((size * size * size) as nat, |i: int| 0u8),
    {
        CellularAutomaton3DChunk { grid: CAGrid3D::new(size) }
    }

    pub fn size(&self) -> (n: usize)
        ensures
            n as int == self.spec_size(),
    {
        self.grid.size()
    }

    pub fn get(&self, x: usize, y: usize, z: usize) -> (v: u32)
        requires
            self.wf(),
            x < self.spec_size(),
            y < self.spec_size(),
            z < self.spec_size(),
        ensures
            v == self.grid@[flat_idx(self.spec_size(), x as int, y as int, z as int)] as u32,
    {
        self.grid.get(x, y, z) as u32
    }

    pub fn set(&mut self, x: usize, y: usize, z: usize, val: u32)
        requires
            old(self).wf(),
            x < old(self).spec_size(),
            y < old(self).spec_size(),
            z < old(self).spec_size(),
            val <= u8::MAX,
        ensures
            final(self).wf(),
            final(self).spec_size() == old(self).spec_size(),
            final(self).grid@ == old(self).grid@.update(
                flat_idx(old(self).spec_size(), x as int, y as int, z as int),
                val as u8,
            ),
    {
        self.grid.set(x, y, z, val as u8);
    }

    /// Zero every voxel.
    pub fn clear_all_voxels(&mut self)
        requires
            old(self).wf(),
        ensures
            final(self).wf(),
            final(self).spec_size() == old(self).spec_size(),
            final(self).grid@ == Seq::new(
                (old(self).spec_size() * old(self).spec_size() * old(self).spec_size()) as nat,
                |i: int| 0u8,
            ),
    {
        let n = self.grid.size();
        self.grid = CAGrid3D::new(n);
    }
}

} // verus!
