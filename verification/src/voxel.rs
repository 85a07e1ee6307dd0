//! An abstract voxel: one cell of the lattice, holding a species value.

use vstd::prelude::*;

verus! {

/// The capability a voxel offers: read and replace its value.
pub trait Voxel<T> {
    /// The value the voxel currently holds.
    spec fn value(&self) -> T;

    fn get(&self) -> (v: T)
        ensures
            v == self.value(),
    ;

    fn set(&mut self, val: T)
        ensures
            final(self).value() == val,
    ;
}

/// A cellular-automaton voxel: a bare species label.
#[derive(Clone, Copy, PartialEq, Eq, Structural, Debug)]
pub struct CAVoxel {
    pub id: u32,
}

impl Voxel<u32> for CAVoxel {
    open spec fn value(&self) -> u32 {
        self.id
    }

    fn get(&self) -> (v: u32)
        ensures
            v == self.value(),
    {
        self.id
    }

    fn set(&mut self, val: u32)
        ensures
            final(self).value() == val,
    {
        self.id = val;
    }
}

} // verus!
