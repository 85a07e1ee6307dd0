//! Chemical parameters: per-species promote/demote ranges and influences.
//!
//! All values are fixed-point integers in thousandths (`SCALE`), so that the
//! update rule is exact integer arithmetic.  By convention a promote
//! influence is positive (it pulls a voxel toward its species) and a demote
//! influence is negative (the outer shell pushes away).

use vstd::prelude::*;

use crate::{INFLUENCE_MAX, K_MAX, RANGE_MAX};

verus! {

/// One half of a species rule: a spherical range (thousandths of a voxel
/// edge) and a signed influence (thousandths) applied per matching
/// neighbour.
#[derive(Clone, Copy, PartialEq, Eq, Structural, Debug)]
pub struct CAChemical {
    pub range: i64,
    pub influence: i64,
}

/// The full rule for one species: an inner promote band and an outer demote
/// band (demote.range at or beyond promote.range for a non-empty shell).
#[derive(Clone, Copy, PartialEq, Eq, Structural, Debug)]
pub struct CAChemicalGroup {
    pub promote: CAChemical,
    pub demote: CAChemical,
}

/// Why an operation was refused.
#[derive(Clone, Copy, PartialEq, Eq, Structural, Debug)]
pub enum CAError {
    /// Empty species list, out-of-range chemical parameter, too many
    /// species, or an inadmissible grid size.
    ConfigInvalid,
}

/// A chemical is admissible when its range is non-negative and bounded and
/// its influence magnitude is bounded (the bounds keep every influence sum
/// inside `i64`).
pub open spec fn chem_ok(c: CAChemical) -> bool {
    0 <= c.range <= RANGE_MAX && -INFLUENCE_MAX <= c.influence <= INFLUENCE_MAX
}

pub open spec fn group_ok(g: CAChemicalGroup) -> bool {
    chem_ok(g.promote) && chem_ok(g.demote)
}

/// A species configuration is admissible when it is non-empty, within the
/// species cap, and each group is admissible.
pub open spec fn config_ok(cfg: Seq<CAChemicalGroup>) -> bool {
    &&& 1 <= cfg.len() <= K_MAX
    &&& forall|i: int| 0 <= i < cfg.len() ==> group_ok(#[trigger] cfg[i])
}

/// Runtime check that a configuration is admissible.
pub fn check_config(cfg: &Vec<CAChemicalGroup>) -> (r: bool)
    ensures
        r == config_ok(cfg@),
{
    if cfg.len() < 1 || cfg.len() > K_MAX {
        return false;
    }
    let mut i: usize = 0;
    while i < cfg.len()
        invariant
            i <= cfg@.len(),
            forall|j: int| 0 <= j < i ==> group_ok(#[trigger] cfg@[j]),
        decreases cfg@.len() - i,
    {
        let g = cfg[i];
        if g.promote.range < 0 || g.promote.range > RANGE_MAX || g.demote.range < 0
            || g.demote.range > RANGE_MAX || g.promote.influence < -INFLUENCE_MAX
            || g.promote.influence > INFLUENCE_MAX || g.demote.influence < -INFLUENCE_MAX
            || g.demote.influence > INFLUENCE_MAX {
            return false;
        }
        i = i + 1;
    }
    true
}

} // verus!
