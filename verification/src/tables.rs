//! Precomputed neighbour-offset tables.
//!
//! For every species the update rule scans two offset lists: the promote
//! band (offsets within the promote range) and the demote band (offsets
//! beyond the promote range but within the demote range).  Both lists are
//! materialised once per configuration change, in a fixed deterministic
//! order, and both exclude the offset (0, 0, 0).
//!
//! A candidate offset (dx, dy, dz) lies in a band according to its Euclidean
//! distance d = sqrt(dx^2 + dy^2 + dz^2) from the origin; since ranges are
//! fixed-point values r/SCALE, the test d <= r/SCALE is carried out exactly
//! as d^2 * SCALE^2 <= r^2 over the integers.

use vstd::prelude::*;
use vstd::arithmetic::div_mod::{
    lemma_mod_division_less_than_divisor, lemma_multiply_divide_lt,
};

use crate::chem::{config_ok, CAChemicalGroup};
use crate::SCALE;

verus! {

/// Largest number of entries a single offset band can hold: the enumeration
/// box for the largest admitted range (ceil(100) + 2 on each side).
pub const BAND_LEN_MAX: usize = 204 * 204 * 204;

/// The candidate offsets form a cube with each component in [-r, r); this
/// gives candidate number i of that enumeration, in x-major order.
pub open spec fn enum_offset(r: int, i: int) -> (int, int, int) {
    (i / (4 * r * r) - r, (i / (2 * r)) % (2 * r) - r, i % (2 * r) - r)
}

/// The integer image of a stored offset.
pub open spec fn offset_int(o: (i32, i32, i32)) -> (int, int, int) {
    (o.0 as int, o.1 as int, o.2 as int)
}

/// Exact band membership for offset o: inside the promote sphere, or (for
/// the demote band) outside it but inside the demote sphere.  The origin
/// belongs to no band.
pub open spec fn in_band(pr: int, dr: int, promote: bool, o: (int, int, int)) -> bool {
    let d2s = (o.0 * o.0 + o.1 * o.1 + o.2 * o.2) * (SCALE * SCALE);
    &&& !(o.0 == 0 && o.1 == 0 && o.2 == 0)
    &&& if promote {
        d2s <= pr * pr
    } else {
        pr * pr < d2s && d2s <= dr * dr
    }
}

/// The band built from the first i candidates of the enumeration with
/// half-extent r: the in-band candidates, in enumeration order.
pub open spec fn band_upto(pr: int, dr: int, promote: bool, r: int, i: int) -> Seq<(i32, i32, i32)>
    decreases i,
{
    if i <= 0 {
        Seq::empty()
    } else {
        let prev = band_upto(pr, dr, promote, r, i - 1);
        let o = enum_offset(r, i - 1);
        if in_band(pr, dr, promote, o) {
            prev.push((o.0 as i32, o.1 as i32, o.2 as i32))
        } else {
            prev
        }
    }
}

/// The complete band for ranges pr/dr and enumeration half-extent r.
pub open spec fn band_of(pr: int, dr: int, promote: bool, r: int) -> Seq<(i32, i32, i32)> {
    band_upto(pr, dr, promote, r, 8 * r * r * r)
}

/// A band holds at most as many offsets as there are candidates.
pub proof fn lemma_band_upto_len(pr: int, dr: int, promote: bool, r: int, i: int)
    requires
        0 <= i,
    ensures
        band_upto(pr, dr, promote, r, i).len() <= i,
    decreases i,
{
    if i > 0 {
        lemma_band_upto_len(pr, dr, promote, r, i - 1);
    }
}

/// The candidates of the enumeration box all have components in [-r, r).
pub proof fn lemma_enum_offset_bounds(r: int, i: int)
    requires
        1 <= r,
        0 <= i < 8 * r * r * r,
    ensures
        -r <= enum_offset(r, i).0 < r,
        -r <= enum_offset(r, i).1 < r,
        -r <= enum_offset(r, i).2 < r,
{
    assert(i < (4 * r * r) * (2 * r)) by (nonlinear_arith)
        requires
            i < 8 * r * r * r,
    ;
    lemma_multiply_divide_lt(i, 4 * r * r, 2 * r);
    assert(0 < 4 * r * r) by (nonlinear_arith)
        requires
            1 <= r,
    ;
    vstd::arithmetic::div_mod::lemma_div_pos_is_pos(i, 4 * r * r);
    lemma_mod_division_less_than_divisor(i / (2 * r), 2 * r);
    lemma_mod_division_less_than_divisor(i, 2 * r);
}

/// Every offset in a band satisfies that band's membership predicate.
pub proof fn lemma_band_upto_elems(pr: int, dr: int, promote: bool, r: int, i: int)
    requires
        1 <= r <= 102,
        0 <= i <= 8 * r * r * r,
    ensures
        forall|j: int|
            0 <= j < band_upto(pr, dr, promote, r, i).len() ==> in_band(
                pr,
                dr,
                promote,
                offset_int(#[trigger] band_upto(pr, dr, promote, r, i)[j]),
            ),
    decreases i,
{
    if i > 0 {
        lemma_band_upto_elems(pr, dr, promote, r, i - 1);
        let prev = band_upto(pr, dr, promote, r, i - 1);
        let b = band_upto(pr, dr, promote, r, i);
        let o = enum_offset(r, i - 1);
        if in_band(pr, dr, promote, o) {
            lemma_enum_offset_bounds(r, i - 1);
            let e = (o.0 as i32, o.1 as i32, o.2 as i32);
            assert(offset_int(e) == o);
            assert(b == prev.push(e));
            assert forall|j: int| 0 <= j < b.len() implies in_band(
                pr,
                dr,
                promote,
                offset_int(b[j]),
            ) by {
                if j < prev.len() {
                    assert(b[j] == prev[j]);
                } else {
                    assert(b[j] == e);
                }
            }
        } else {
            assert(b == prev);
        }
    }
}

/// The enumeration visits every offset of the box: candidate number
/// (x + r) * 4r^2 + (y + r) * 2r + (z + r) is exactly (x, y, z).
pub proof fn lemma_enum_index(r: int, x: int, y: int, z: int)
    requires
        1 <= r,
        -r <= x < r,
        -r <= y < r,
        -r <= z < r,
    ensures
        0 <= (x + r) * (4 * r * r) + (y + r) * (2 * r) + (z + r) < 8 * r * r * r,
        enum_offset(r, (x + r) * (4 * r * r) + (y + r) * (2 * r) + (z + r)) == (x, y, z),
{
    let i = (x + r) * (4 * r * r) + (y + r) * (2 * r) + (z + r);
    let rem = (y + r) * (2 * r) + (z + r);
    assert(0 <= rem < 4 * r * r && 0 <= i && i < 8 * r * r * r && i == (x + r) * (4 * r * r) + rem
        && rem == (y + r) * (2 * r) + (z + r) && 0 <= z + r < 2 * r) by (nonlinear_arith)
        requires
            1 <= r && -r <= x < r && -r <= y < r && -r <= z < r && i == (x + r) * (4 * r * r) + (y
                + r) * (2 * r) + (z + r) && rem == (y + r) * (2 * r) + (z + r),
    ;
    vstd::arithmetic::div_mod::lemma_fundamental_div_mod_converse_div(i, 4 * r * r, x + r, rem);
    assert(i / (4 * r * r) == x + r);
    assert(i == ((x + r) * (2 * r) + (y + r)) * (2 * r) + (z + r)) by (nonlinear_arith)
        requires
            i == (x + r) * (4 * r * r) + (y + r) * (2 * r) + (z + r),
    ;
    vstd::arithmetic::div_mod::lemma_fundamental_div_mod_converse_div(i, 2 * r, (x + r) * (2 * r) + (y + r), z + r);
    vstd::arithmetic::div_mod::lemma_fundamental_div_mod_converse_mod(
        i,
        2 * r,
        (x + r) * (2 * r) + (y + r),
        z + r,
    );
    assert(i / (2 * r) == (x + r) * (2 * r) + (y + r));
    vstd::arithmetic::div_mod::lemma_fundamental_div_mod_converse_mod(
        (x + r) * (2 * r) + (y + r),
        2 * r,
        x + r,
        y + r,
    );
    assert((i / (2 * r)) % (2 * r) == y + r);
    assert(i % (2 * r) == z + r);
}

/// Once a candidate has been scanned, its band keeps it: if candidate j is
/// in the band, every band prefix past j contains it.
pub proof fn lemma_band_upto_contains(pr: int, dr: int, promote: bool, r: int, j: int, i: int)
    requires
        1 <= r <= 102,
        0 <= j < i <= 8 * r * r * r,
        in_band(pr, dr, promote, enum_offset(r, j)),
    ensures
        band_upto(pr, dr, promote, r, i).contains(
            (
                enum_offset(r, j).0 as i32,
                enum_offset(r, j).1 as i32,
                enum_offset(r, j).2 as i32,
            ),
        ),
    decreases i,
{
    let o = enum_offset(r, j);
    let e = (o.0 as i32, o.1 as i32, o.2 as i32);
    let prev = band_upto(pr, dr, promote, r, i - 1);
    let b = band_upto(pr, dr, promote, r, i);
    if j == i - 1 {
        assert(b == prev.push(e));
        assert(b[b.len() - 1] == e);
        assert(b.contains(e));
    } else {
        lemma_band_upto_contains(pr, dr, promote, r, j, i - 1);
        let w = choose|w: int| 0 <= w < prev.len() && prev[w] == e;
        assert(b[w] == e);
        assert(b.contains(e));
    }
}

/// Band exhaustiveness: every offset of the enumeration box that satisfies
/// a band's membership predicate stands in that band.
pub proof fn lemma_band_exhaustive(
    pr: int,
    dr: int,
    promote: bool,
    r: int,
    x: int,
    y: int,
    z: int,
)
    requires
        1 <= r <= 102,
        -r <= x < r,
        -r <= y < r,
        -r <= z < r,
        in_band(pr, dr, promote, (x, y, z)),
    ensures
        band_of(pr, dr, promote, r).contains((x as i32, y as i32, z as i32)),
{
    lemma_enum_index(r, x, y, z);
    let j = (x + r) * (4 * r * r) + (y + r) * (2 * r) + (z + r);
    lemma_band_upto_contains(pr, dr, promote, r, j, 8 * r * r * r);
}

/// Band disjointness: for any species parameters, no offset of the promote
/// band also stands in the demote band.
pub proof fn lemma_bands_disjoint(pr: int, dr: int, r: int, o: (i32, i32, i32))
    requires
        1 <= r <= 102,
        band_of(pr, dr, true, r).contains(o),
    ensures
        !band_of(pr, dr, false, r).contains(o),
{
    assert(0 <= 8 * r * r * r) by (nonlinear_arith)
        requires
            1 <= r,
    ;
    lemma_band_upto_elems(pr, dr, true, r, 8 * r * r * r);
    lemma_band_upto_elems(pr, dr, false, r, 8 * r * r * r);
}

/// The largest range (promote or demote) named by the first i groups of the
/// configuration, in thousandths.
pub open spec fn max_range_upto(cfg: Seq<CAChemicalGroup>, i: int) -> int
    decreases i,
{
    if i <= 0 {
        0
    } else {
        let m = max_range_upto(cfg, i - 1);
        let p = cfg[i - 1].promote.range as int;
        let d = cfg[i - 1].demote.range as int;
        let md = if d > p {
            d
        } else {
            p
        };
        if md > m {
            md
        } else {
            m
        }
    }
}

/// The enumeration half-extent for a configuration: the largest range
/// rounded up to whole voxels, plus two to absorb the boundary.
pub open spec fn reach_of(cfg: Seq<CAChemicalGroup>) -> int {
    (max_range_upto(cfg, cfg.len() as int) + (SCALE - 1)) / (SCALE as int) + 2
}

/// The largest range dominates every group's ranges.
pub proof fn lemma_max_range_dominates(cfg: Seq<CAChemicalGroup>, s: int, i: int)
    requires
        0 <= s < i,
        i <= cfg.len(),
    ensures
        cfg[s].promote.range <= max_range_upto(cfg, i),
        cfg[s].demote.range <= max_range_upto(cfg, i),
    decreases i,
{
    if s < i - 1 {
        lemma_max_range_dominates(cfg, s, i - 1);
    }
}

/// The enumeration half-extent covers the largest range: the box side
/// reaches at least ceil of that range in whole voxels.
pub proof fn lemma_reach_covers(cfg: Seq<CAChemicalGroup>)
    ensures
        max_range_upto(cfg, cfg.len() as int) <= (reach_of(cfg) - 2) * SCALE,
{
    let m = max_range_upto(cfg, cfg.len() as int);
    vstd::arithmetic::div_mod::lemma_fundamental_div_mod(m + SCALE - 1, SCALE as int);
    lemma_mod_division_less_than_divisor(m + SCALE - 1, SCALE as int);
    let q = (m + SCALE - 1) / (SCALE as int);
    assert(m + SCALE - 1 == (SCALE as int) * q + (m + SCALE - 1) % (SCALE as int));
    assert((SCALE as int) * q == q * SCALE) by (nonlinear_arith);
}

/// An offset that satisfies the band predicate of admissible ranges covered
/// by the half-extent lies strictly inside the enumeration box.
pub proof fn lemma_in_band_in_box(pr: int, dr: int, promote: bool, o: (int, int, int), r: int)
    requires
        2 <= r,
        0 <= pr <= (r - 2) * SCALE,
        0 <= dr <= (r - 2) * SCALE,
        in_band(pr, dr, promote, o),
    ensures
        -r < o.0 < r,
        -r < o.1 < r,
        -r < o.2 < r,
{
    let d2s = (o.0 * o.0 + o.1 * o.1 + o.2 * o.2) * (SCALE * SCALE);
    assert(pr * pr <= ((r - 2) * SCALE) * ((r - 2) * SCALE) && dr * dr <= ((r - 2) * SCALE) * ((r
        - 2) * SCALE)) by (nonlinear_arith)
        requires
            0 <= pr <= (r - 2) * SCALE && 0 <= dr <= (r - 2) * SCALE,
    ;
    assert(d2s <= ((r - 2) * SCALE) * ((r - 2) * SCALE));
    assert(-(r - 2) <= o.0 <= r - 2 && -(r - 2) <= o.1 <= r - 2 && -(r - 2) <= o.2 <= r - 2)
        by (nonlinear_arith)
        requires
            (o.0 * o.0 + o.1 * o.1 + o.2 * o.2) * (SCALE * SCALE) <= ((r - 2) * SCALE) * ((r - 2)
                * SCALE),
            2 <= r,
            SCALE == 1000,
    ;
}

/// Table exhaustiveness for a whole configuration: every offset that
/// satisfies species s's promote (or demote) membership predicate stands in
/// the band the configuration determines for that species.
pub proof fn lemma_tables_exhaustive(
    cfg: Seq<CAChemicalGroup>,
    s: int,
    promote: bool,
    o: (int, int, int),
)
    requires
        config_ok(cfg),
        0 <= s < cfg.len(),
        in_band(cfg[s].promote.range as int, cfg[s].demote.range as int, promote, o),
    ensures
        band_of(
            cfg[s].promote.range as int,
            cfg[s].demote.range as int,
            promote,
            reach_of(cfg),
        ).contains((o.0 as i32, o.1 as i32, o.2 as i32)),
{
    let r = reach_of(cfg);
    lemma_reach_bounds(cfg);
    lemma_max_range_dominates(cfg, s, cfg.len() as int);
    lemma_reach_covers(cfg);
    lemma_in_band_in_box(
        cfg[s].promote.range as int,
        cfg[s].demote.range as int,
        promote,
        o,
        r,
    );
    lemma_band_exhaustive(
        cfg[s].promote.range as int,
        cfg[s].demote.range as int,
        promote,
        r,
        o.0,
        o.1,
        o.2,
    );
}

/// Two configurations with the same ranges everywhere have the same largest
/// range, hence the same enumeration half-extent; influences play no part.
pub proof fn lemma_max_range_congruence(
    cfg1: Seq<CAChemicalGroup>,
    cfg2: Seq<CAChemicalGroup>,
    i: int,
)
    requires
        cfg1.len() == cfg2.len(),
        forall|j: int|
            0 <= j < cfg1.len() ==> (#[trigger] cfg2[j]).promote.range == cfg1[j].promote.range
                && cfg2[j].demote.range == cfg1[j].demote.range,
        0 <= i <= cfg1.len(),
    ensures
        max_range_upto(cfg1, i) == max_range_upto(cfg2, i),
    decreases i,
{
    if i > 0 {
        lemma_max_range_congruence(cfg1, cfg2, i - 1);
    }
}

/// The offset tables an admissible configuration determines: one promote
/// and one demote band per species, all enumerated with the configuration's
/// shared half-extent.
pub struct NeighbourTables {
    pub promote: Vec<Vec<(i32, i32, i32)>>,
    pub demote: Vec<Vec<(i32, i32, i32)>>,
}

/// The tables hold exactly the bands of the configuration.
pub open spec fn tables_match(t: NeighbourTables, cfg: Seq<CAChemicalGroup>) -> bool {
    let r = reach_of(cfg);
    &&& t.promote@.len() == cfg.len()
    &&& t.demote@.len() == cfg.len()
    &&& forall|s: int|
        0 <= s < cfg.len() ==> (#[trigger] t.promote@[s])@ == band_of(
            cfg[s].promote.range as int,
            cfg[s].demote.range as int,
            true,
            r,
        )
    &&& forall|s: int|
        0 <= s < cfg.len() ==> (#[trigger] t.demote@[s])@ == band_of(
            cfg[s].promote.range as int,
            cfg[s].demote.range as int,
            false,
            r,
        )
}

/// The reach of an admissible configuration lies in [2, 102].
pub proof fn lemma_reach_bounds(cfg: Seq<CAChemicalGroup>)
    requires
        config_ok(cfg),
    ensures
        2 <= reach_of(cfg) <= 102,
        0 <= max_range_upto(cfg, cfg.len() as int) <= crate::RANGE_MAX,
{
    lemma_max_range_upto_bounds(cfg, cfg.len() as int);
}

proof fn lemma_max_range_upto_bounds(cfg: Seq<CAChemicalGroup>, i: int)
    requires
        config_ok(cfg),
        0 <= i <= cfg.len(),
    ensures
        0 <= max_range_upto(cfg, i) <= crate::RANGE_MAX,
    decreases i,
{
    if i > 0 {
        lemma_max_range_upto_bounds(cfg, i - 1);
    }
}

/// One band, built by scanning the candidate enumeration in order.
fn build_band(pr: i64, dr: i64, promote: bool, r: usize) -> (v: Vec<(i32, i32, i32)>)
    requires
        2 <= r <= 102,
        0 <= pr <= crate::RANGE_MAX,
        0 <= dr <= crate::RANGE_MAX,
    ensures
        v@ == band_of(pr as int, dr as int, promote, r as int),
        v@.len() <= 8 * r * r * r,
{
    proof {
        assert(8 * r * r <= 8 * 102 * 102 && 8 * r * r * r <= 8 * 102 * 102 * 102 && 4 * r * r
            <= 4 * 102 * 102 && 4 * r * r >= 1) by (nonlinear_arith)
            requires
                2 <= r <= 102,
        ;
    }
    let total: usize = 8 * r * r * r;
    let two_r: usize = 2 * r;
    let four_r2: usize = 4 * r * r;
    let mut v: Vec<(i32, i32, i32)> = Vec::new();
    let mut i: usize = 0;
    while i < total
        invariant
            2 <= r <= 102,
            total == 8 * r * r * r,
            two_r == 2 * r,
            four_r2 == 4 * r * r,
            1 <= four_r2,
            0 <= pr <= crate::RANGE_MAX,
            0 <= dr <= crate::RANGE_MAX,
            i <= total,
            v@ == band_upto(pr as int, dr as int, promote, r as int, i as int),
            v@.len() <= i,
        decreases total - i,
    {
        proof {
            lemma_enum_offset_bounds(r as int, i as int);
        }
        let ix: usize = i / four_r2;
        let iy: usize = (i / two_r) % two_r;
        let iz: usize = i % two_r;
        let ox: i64 = ix as i64 - r as i64;
        let oy: i64 = iy as i64 - r as i64;
        let oz: i64 = iz as i64 - r as i64;
        proof {
            assert((ox as int, oy as int, oz as int) == enum_offset(r as int, i as int));
            assert(-102 <= ox < 102 && -102 <= oy < 102 && -102 <= oz < 102);
            assert(ox * ox <= 102 * 102 && oy * oy <= 102 * 102 && oz * oz <= 102 * 102
                && ox * ox >= 0 && oy * oy >= 0 && oz * oz >= 0) by (nonlinear_arith)
                requires
                    -102 <= ox <= 102 && -102 <= oy <= 102 && -102 <= oz <= 102,
            ;
            assert(pr * pr <= 100_000 * 100_000 && dr * dr <= 100_000 * 100_000 && pr * pr >= 0
                && dr * dr >= 0) by (nonlinear_arith)
                requires
                    0 <= pr <= 100_000 && 0 <= dr <= 100_000,
            ;
        }
        let d2: i64 = ox * ox + oy * oy + oz * oz;
        proof {
            assert(0 <= d2 * (SCALE * SCALE) <= 31212 * 1_000_000) by (nonlinear_arith)
                requires
                    0 <= d2 <= 31212 && SCALE == 1000,
            ;
        }
        let d2s: i64 = d2 * (SCALE * SCALE);
        let inside = if promote {
            d2s <= pr * pr
        } else {
            pr * pr < d2s && d2s <= dr * dr
        };
        if inside && !(ox == 0 && oy == 0 && oz == 0) {
            v.push((ox as i32, oy as i32, oz as i32));
        }
        i = i + 1;
        proof {
            assert(v@ == band_upto(pr as int, dr as int, promote, r as int, i as int));
        }
    }
    v
}

/// Build the complete neighbour tables for an admissible configuration.
pub fn build_tables(cfg: &Vec<CAChemicalGroup>) -> (t: NeighbourTables)
    requires
        config_ok(cfg@),
    ensures
        tables_match(t, cfg@),
        forall|s: int|
            0 <= s < cfg@.len() ==> (#[trigger] t.promote@[s])@.len() <= BAND_LEN_MAX,
        forall|s: int|
            0 <= s < cfg@.len() ==> (#[trigger] t.demote@[s])@.len() <= BAND_LEN_MAX,
{
    proof {
        lemma_reach_bounds(cfg@);
    }
    // The shared enumeration half-extent: the largest range, rounded up,
    // plus two.
    let mut mr: i64 = 0;
    let mut i: usize = 0;
    while i < cfg.len()
        invariant
            i <= cfg@.len(),
            config_ok(cfg@),
            mr == max_range_upto(cfg@, i as int),
            0 <= mr <= crate::RANGE_MAX,
        decreases cfg@.len() - i,
    {
        proof {
            lemma_max_range_upto_bounds(cfg@, i as int);
        }
        let g = cfg[i];
        let md = if g.demote.range > g.promote.range {
            g.demote.range
        } else {
            g.promote.range
        };
        if md > mr {
            mr = md;
        }
        i = i + 1;
    }
    let r: usize = (((mr as u64) + 999) / 1000) as usize + 2;
    proof {
        assert(r as int == reach_of(cfg@));
        assert(2 <= r <= 102);
    }
    let mut promote: Vec<Vec<(i32, i32, i32)>> = Vec::new();
    let mut demote: Vec<Vec<(i32, i32, i32)>> = Vec::new();
    let mut s: usize = 0;
    while s < cfg.len()
        invariant
            s <= cfg@.len(),
            config_ok(cfg@),
            2 <= r <= 102,
            r as int == reach_of(cfg@),
            promote@.len() == s,
            demote@.len() == s,
            forall|j: int|
                0 <= j < s ==> (#[trigger] promote@[j])@ == band_of(
                    cfg@[j].promote.range as int,
                    cfg@[j].demote.range as int,
                    true,
                    reach_of(cfg@),
                ) && promote@[j]@.len() <= BAND_LEN_MAX,
            forall|j: int|
                0 <= j < s ==> (#[trigger] demote@[j])@ == band_of(
                    cfg@[j].promote.range as int,
                    cfg@[j].demote.range as int,
                    false,
                    reach_of(cfg@),
                ) && demote@[j]@.len() <= BAND_LEN_MAX,
        decreases cfg@.len() - s,
    {
        let g = cfg[s];
        let bp = build_band(g.promote.range, g.demote.range, true, r);
        let bd = build_band(g.promote.range, g.demote.range, false, r);
        proof {
            assert(8 * r * r * r <= BAND_LEN_MAX) by (nonlinear_arith)
                requires
                    2 <= r <= 102,
            ;
        }
        promote.push(bp);
        demote.push(bd);
        s = s + 1;
    }
    NeighbourTables { promote, demote }
}

} // verus!
