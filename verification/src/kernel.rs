//! The simulation kernel: the deterministic K-species update rule.
//!
//! For every voxel the rule counts, per species, the neighbours of that
//! species inside the promote band and inside the demote band of the
//! previous generation, weighs the counts with the species' influences, and
//! then selects the next label: the species with the strictly positive best
//! contribution (ties break toward the lowest species index), else the
//! undifferentiated background when the aggregate influence is strictly
//! negative, else the previous label unchanged.

use vstd::prelude::*;

use crate::chem::{config_ok, CAChemicalGroup, CAError};
use crate::grid::{flat_idx, neighbour_idx, wrap, CAGrid3D};
use crate::tables::{
    band_of, lemma_band_upto_len, lemma_reach_bounds, reach_of, tables_match, NeighbourTables,
    BAND_LEN_MAX,
};
use crate::INFLUENCE_MAX;

verus! {

/// Largest magnitude one species' contribution can take: both bands full
/// and both influences at the cap.
pub const CONTRIB_MAX: i64 = 2 * 1_000_000 * 8_489_664;

/// How many offsets among the first i entries of the table point at a voxel
/// of the previous generation that carries label s.
pub open spec fn count_upto(
    tab: Seq<(i32, i32, i32)>,
    g: Seq<u8>,
    n: int,
    x: int,
    y: int,
    z: int,
    s: u8,
    i: int,
) -> int
    decreases i,
{
    if i <= 0 {
        0
    } else {
        count_upto(tab, g, n, x, y, z, s, i - 1) + if g[neighbour_idx(n, x, y, z, tab[i - 1])]
            == s {
            1int
        } else {
            0int
        }
    }
}

/// How many offsets of the whole table point at a voxel carrying label s.
pub open spec fn count_hits(
    tab: Seq<(i32, i32, i32)>,
    g: Seq<u8>,
    n: int,
    x: int,
    y: int,
    z: int,
    s: u8,
) -> int {
    count_upto(tab, g, n, x, y, z, s, tab.len() as int)
}

/// Species s's pull on voxel (x, y, z): promote influence times promote-band
/// matches plus demote influence times demote-band matches.  Species are
/// numbered 1 ..= K.
pub open spec fn species_contrib(
    cfg: Seq<CAChemicalGroup>,
    g: Seq<u8>,
    n: int,
    x: int,
    y: int,
    z: int,
    s: int,
) -> int {
    let grp = cfg[s - 1];
    let r = reach_of(cfg);
    grp.promote.influence * count_hits(
        band_of(grp.promote.range as int, grp.demote.range as int, true, r),
        g,
        n,
        x,
        y,
        z,
        s as u8,
    ) + grp.demote.influence * count_hits(
        band_of(grp.promote.range as int, grp.demote.range as int, false, r),
        g,
        n,
        x,
        y,
        z,
        s as u8,
    )
}

/// The best species among 1 ..= k and its contribution; ties break toward
/// the lowest species index.
pub open spec fn best_pair(
    cfg: Seq<CAChemicalGroup>,
    g: Seq<u8>,
    n: int,
    x: int,
    y: int,
    z: int,
    k: int,
) -> (int, int)
    decreases k,
{
    if k <= 1 {
        (1, species_contrib(cfg, g, n, x, y, z, 1))
    } else {
        let p = best_pair(cfg, g, n, x, y, z, k - 1);
        let c = species_contrib(cfg, g, n, x, y, z, k);
        if c > p.1 {
            (k, c)
        } else {
            p
        }
    }
}

/// The aggregate influence on voxel (x, y, z): the sum of all species'
/// contributions 1 ..= k.
pub open spec fn total_influence_upto(
    cfg: Seq<CAChemicalGroup>,
    g: Seq<u8>,
    n: int,
    x: int,
    y: int,
    z: int,
    k: int,
) -> int
    decreases k,
{
    if k <= 0 {
        0
    } else {
        total_influence_upto(cfg, g, n, x, y, z, k - 1) + species_contrib(cfg, g, n, x, y, z, k)
    }
}

/// The update rule: the next label of voxel (x, y, z) given the previous
/// generation g.
pub open spec fn next_label(cfg: Seq<CAChemicalGroup>, g: Seq<u8>, n: int, x: int, y: int, z: int) -> u8 {
    let k = cfg.len() as int;
    let bp = best_pair(cfg, g, n, x, y, z, k);
    if bp.1 > 0 {
        bp.0 as u8
    } else if total_influence_upto(cfg, g, n, x, y, z, k) < 0 {
        0u8
    } else {
        g[flat_idx(n, x, y, z)]
    }
}

/// The whole next generation: every voxel's next label, a pure function of
/// the configuration and the previous generation.
pub open spec fn next_grid(cfg: Seq<CAChemicalGroup>, g: Seq<u8>, n: int) -> Seq<u8> {
    Seq::new(
        (n * n * n) as nat,
        |i: int| next_label(cfg, g, n, i % n, (i / n) % n, i / (n * n)),
    )
}

/// A match count lies between 0 and the table length.
pub proof fn lemma_count_upto_bounds(
    tab: Seq<(i32, i32, i32)>,
    g: Seq<u8>,
    n: int,
    x: int,
    y: int,
    z: int,
    s: u8,
    i: int,
)
    requires
        0 <= i,
    ensures
        0 <= count_upto(tab, g, n, x, y, z, s, i) <= i,
    decreases i,
{
    if i > 0 {
        lemma_count_upto_bounds(tab, g, n, x, y, z, s, i - 1);
    }
}

/// Any band of an admissible configuration holds at most BAND_LEN_MAX
/// offsets.
pub proof fn lemma_band_of_len(cfg: Seq<CAChemicalGroup>, pr: int, dr: int, promote: bool)
    requires
        config_ok(cfg),
    ensures
        band_of(pr, dr, promote, reach_of(cfg)).len() <= BAND_LEN_MAX,
{
    let r = reach_of(cfg);
    lemma_reach_bounds(cfg);
    assert(0 <= 8 * r * r * r <= BAND_LEN_MAX) by (nonlinear_arith)
        requires
            2 <= r <= 102,
    ;
    lemma_band_upto_len(pr, dr, promote, r, 8 * r * r * r);
}

/// One species' contribution is bounded by CONTRIB_MAX in magnitude.
pub proof fn lemma_species_contrib_bounds(
    cfg: Seq<CAChemicalGroup>,
    g: Seq<u8>,
    n: int,
    x: int,
    y: int,
    z: int,
    s: int,
)
    requires
        config_ok(cfg),
        1 <= s <= cfg.len(),
    ensures
        -CONTRIB_MAX <= species_contrib(cfg, g, n, x, y, z, s) <= CONTRIB_MAX,
{
    let grp = cfg[s - 1];
    let r = reach_of(cfg);
    let bp = band_of(grp.promote.range as int, grp.demote.range as int, true, r);
    let bd = band_of(grp.promote.range as int, grp.demote.range as int, false, r);
    lemma_band_of_len(cfg, grp.promote.range as int, grp.demote.range as int, true);
    lemma_band_of_len(cfg, grp.promote.range as int, grp.demote.range as int, false);
    lemma_count_upto_bounds(bp, g, n, x, y, z, s as u8, bp.len() as int);
    lemma_count_upto_bounds(bd, g, n, x, y, z, s as u8, bd.len() as int);
    let cp = count_hits(bp, g, n, x, y, z, s as u8);
    let cd = count_hits(bd, g, n, x, y, z, s as u8);
    assert(-1_000_000 * 8_489_664 <= grp.promote.influence * cp <= 1_000_000 * 8_489_664)
        by (nonlinear_arith)
        requires
            -1_000_000 <= grp.promote.influence <= 1_000_000 && 0 <= cp <= 8_489_664,
    ;
    assert(-1_000_000 * 8_489_664 <= grp.demote.influence * cd <= 1_000_000 * 8_489_664)
        by (nonlinear_arith)
        requires
            -1_000_000 <= grp.demote.influence <= 1_000_000 && 0 <= cd <= 8_489_664,
    ;
}

/// The best species index lies in 1 ..= k, its contribution is the
/// contribution of that species, and no species among 1 ..= k does strictly
/// better.
pub proof fn lemma_best_pair_props(
    cfg: Seq<CAChemicalGroup>,
    g: Seq<u8>,
    n: int,
    x: int,
    y: int,
    z: int,
    k: int,
)
    requires
        config_ok(cfg),
        1 <= k <= cfg.len(),
    ensures
        1 <= best_pair(cfg, g, n, x, y, z, k).0 <= k,
        best_pair(cfg, g, n, x, y, z, k).1 == species_contrib(
            cfg,
            g,
            n,
            x,
            y,
            z,
            best_pair(cfg, g, n, x, y, z, k).0,
        ),
        forall|s: int|
            1 <= s <= k ==> #[trigger] species_contrib(cfg, g, n, x, y, z, s) <= best_pair(
                cfg,
                g,
                n,
                x,
                y,
                z,
                k,
            ).1,
        -CONTRIB_MAX <= best_pair(cfg, g, n, x, y, z, k).1 <= CONTRIB_MAX,
    decreases k,
{
    lemma_species_contrib_bounds(cfg, g, n, x, y, z, k);
    if k > 1 {
        lemma_best_pair_props(cfg, g, n, x, y, z, k - 1);
    }
}

/// The next label is always an admissible species label: at most K.
pub proof fn lemma_next_label_range(
    cfg: Seq<CAChemicalGroup>,
    g: Seq<u8>,
    n: int,
    x: int,
    y: int,
    z: int,
)
    requires
        config_ok(cfg),
        1 <= n,
        0 <= x < n,
        0 <= y < n,
        0 <= z < n,
        g.len() == n * n * n,
        forall|v: int| 0 <= v < g.len() ==> g[v] <= cfg.len(),
    ensures
        next_label(cfg, g, n, x, y, z) <= cfg.len(),
{
    lemma_best_pair_props(cfg, g, n, x, y, z, cfg.len() as int);
    crate::grid::lemma_flat_idx_bounds(n, x, y, z);
}

/// Count the offsets of one table whose wrapped target in g carries label s.
fn count_hits_exec(tab: &Vec<(i32, i32, i32)>, g: &CAGrid3D, x: usize, y: usize, z: usize, s: u8) -> (c:
    i64)
    requires
        g.wf(),
        x < g.spec_size(),
        y < g.spec_size(),
        z < g.spec_size(),
        tab@.len() <= BAND_LEN_MAX,
    ensures
        c == count_hits(tab@, g@, g.spec_size(), x as int, y as int, z as int, s),
        0 <= c <= tab@.len(),
{
    let n = g.size();
    let mut c: i64 = 0;
    let mut j: usize = 0;
    while j < tab.len()
        invariant
            g.wf(),
            n == g.spec_size(),
            x < n,
            y < n,
            z < n,
            tab@.len() <= BAND_LEN_MAX,
            j <= tab@.len(),
            c == count_upto(tab@, g@, n as int, x as int, y as int, z as int, s, j as int),
            0 <= c <= j,
        decreases tab@.len() - j,
    {
        let o = tab[j];
        let wx = wrap(x, o.0, n);
        let wy = wrap(y, o.1, n);
        let wz = wrap(z, o.2, n);
        if g.get(wx, wy, wz) == s {
            c = c + 1;
        }
        j = j + 1;
    }
    c
}

/// One species' pull on voxel (x, y, z), computed from the cached tables.
fn species_contrib_exec(
    cfg: &Vec<CAChemicalGroup>,
    t: &NeighbourTables,
    g: &CAGrid3D,
    x: usize,
    y: usize,
    z: usize,
    s: usize,
) -> (c: i64)
    requires
        config_ok(cfg@),
        tables_match(*t, cfg@),
        g.wf(),
        x < g.spec_size(),
        y < g.spec_size(),
        z < g.spec_size(),
        1 <= s <= cfg@.len(),
    ensures
        c == species_contrib(cfg@, g@, g.spec_size(), x as int, y as int, z as int, s as int),
        -CONTRIB_MAX <= c <= CONTRIB_MAX,
{
    let grp = cfg[s - 1];
    proof {
        lemma_band_of_len(cfg@, grp.promote.range as int, grp.demote.range as int, true);
        lemma_band_of_len(cfg@, grp.promote.range as int, grp.demote.range as int, false);
    }
    let cp = count_hits_exec(&t.promote[s - 1], g, x, y, z, s as u8);
    let cd = count_hits_exec(&t.demote[s - 1], g, x, y, z, s as u8);
    proof {
        assert(-1_000_000 * 8_489_664 <= grp.promote.influence * cp <= 1_000_000 * 8_489_664)
            by (nonlinear_arith)
            requires
                -1_000_000 <= grp.promote.influence <= 1_000_000 && 0 <= cp <= 8_489_664,
        ;
        assert(-1_000_000 * 8_489_664 <= grp.demote.influence * cd <= 1_000_000 * 8_489_664)
            by (nonlinear_arith)
            requires
                -1_000_000 <= grp.demote.influence <= 1_000_000 && 0 <= cd <= 8_489_664,
        ;
    }
    grp.promote.influence * cp + grp.demote.influence * cd
}

/// The next label of one voxel, per the update rule.
fn next_cell(
    cfg: &Vec<CAChemicalGroup>,
    t: &NeighbourTables,
    g: &CAGrid3D,
    x: usize,
    y: usize,
    z: usize,
) -> (r: u8)
    requires
        config_ok(cfg@),
        tables_match(*t, cfg@),
        g.wf(),
        x < g.spec_size(),
        y < g.spec_size(),
        z < g.spec_size(),
    ensures
        r == next_label(cfg@, g@, g.spec_size(), x as int, y as int, z as int),
{
    let k = cfg.len();
    let c1 = species_contrib_exec(cfg, t, g, x, y, z, 1);
    proof {
        assert(total_influence_upto(cfg@, g@, g.spec_size(), x as int, y as int, z as int, 0)
            == 0);
        assert(total_influence_upto(cfg@, g@, g.spec_size(), x as int, y as int, z as int, 1)
            == c1);
        assert(best_pair(cfg@, g@, g.spec_size(), x as int, y as int, z as int, 1) == (
        1int,
        c1 as int,
        ));
    }
    let mut bs: usize = 1;
    let mut bv: i64 = c1;
    let mut total: i64 = c1;
    let mut s: usize = 2;
    while s <= k
        invariant
            config_ok(cfg@),
            tables_match(*t, cfg@),
            g.wf(),
            x < g.spec_size(),
            y < g.spec_size(),
            z < g.spec_size(),
            k == cfg@.len(),
            2 <= s <= k + 1,
            1 <= bs < s,
            (bs as int, bv as int) == best_pair(
                cfg@,
                g@,
                g.spec_size(),
                x as int,
                y as int,
                z as int,
                (s - 1) as int,
            ),
            total == total_influence_upto(
                cfg@,
                g@,
                g.spec_size(),
                x as int,
                y as int,
                z as int,
                (s - 1) as int,
            ),
            -CONTRIB_MAX <= bv <= CONTRIB_MAX,
            -((s - 1) as int) * CONTRIB_MAX <= total <= ((s - 1) as int) * CONTRIB_MAX,
        decreases k + 1 - s,
    {
        let c = species_contrib_exec(cfg, t, g, x, y, z, s);
        if c > bv {
            bs = s;
            bv = c;
        }
        proof {
            assert(-(s as int) * CONTRIB_MAX <= total + c <= (s as int) * CONTRIB_MAX && -20
                * CONTRIB_MAX <= total + c <= 20 * CONTRIB_MAX) by (nonlinear_arith)
                requires
                    -((s - 1) as int) * CONTRIB_MAX <= total <= ((s - 1) as int) * CONTRIB_MAX,
                    -CONTRIB_MAX <= c <= CONTRIB_MAX,
                    2 <= s <= 20,
                    0 < CONTRIB_MAX,
            ;
        }
        total = total + c;
        s = s + 1;
    }
    if bv > 0 {
        bs as u8
    } else if total < 0 {
        0u8
    } else {
        g.get(x, y, z)
    }
}

/// With a single species the rule reduces to the legacy two-band form,
/// under the convention that species 1's promote band pushes toward 1 and
/// its demote band pushes toward the background: positive influence gives
/// 1, negative gives 0, and a tie carries the previous label.
pub proof fn lemma_single_species_rule(
    cfg: Seq<CAChemicalGroup>,
    g: Seq<u8>,
    n: int,
    x: int,
    y: int,
    z: int,
)
    requires
        cfg.len() == 1,
    ensures
        next_label(cfg, g, n, x, y, z) == (if species_contrib(cfg, g, n, x, y, z, 1) > 0 {
            1u8
        } else if species_contrib(cfg, g, n, x, y, z, 1) < 0 {
            0u8
        } else {
            g[flat_idx(n, x, y, z)]
        }),
{
    assert(total_influence_upto(cfg, g, n, x, y, z, 0) == 0);
}

/// Generation separation: the next generation is computed from the previous
/// snapshot alone — no voxel read depends on a voxel already written — so
/// swapping in any read-only copy of that snapshot yields the identical
/// next generation.
pub proof fn lemma_generation_separation(
    cfg: Seq<CAChemicalGroup>,
    snapshot: Seq<u8>,
    copy: Seq<u8>,
    n: int,
)
    requires
        copy == snapshot,
    ensures
        next_grid(cfg, copy, n) == next_grid(cfg, snapshot, n),
{
}

/// Determinism: the next generation and the order parameter it records are
/// pure functions of the species configuration and the previous grid, so
/// two automata that agree on configuration and grid step to bitwise
/// identical grids with identical history entries, however many times the
/// step is repeated.
pub proof fn lemma_step_deterministic(
    cfg1: Seq<CAChemicalGroup>,
    cfg2: Seq<CAChemicalGroup>,
    g1: Seq<u8>,
    g2: Seq<u8>,
    n1: int,
    n2: int,
)
    requires
        cfg1 == cfg2,
        g1 == g2,
        n1 == n2,
    ensures
        next_grid(cfg1, g1, n1) == next_grid(cfg2, g2, n2),
        crate::order::order_vec(next_grid(cfg1, g1, n1), n1, cfg1.len() as int)
            == crate::order::order_vec(next_grid(cfg2, g2, n2), n2, cfg2.len() as int),
{
}

/// Promote monotonicity: raising one species' promote influence, holding
/// every range, every other species and the demote influence fixed, cannot
/// lower that species' contribution at any voxel.
pub proof fn lemma_promote_influence_monotonic(
    cfg1: Seq<CAChemicalGroup>,
    cfg2: Seq<CAChemicalGroup>,
    g: Seq<u8>,
    n: int,
    x: int,
    y: int,
    z: int,
    s: int,
)
    requires
        cfg1.len() == cfg2.len(),
        1 <= s <= cfg1.len(),
        forall|j: int| 0 <= j < cfg1.len() && j != s - 1 ==> #[trigger] cfg2[j] == cfg1[j],
        cfg2[s - 1].promote.range == cfg1[s - 1].promote.range,
        cfg2[s - 1].demote.range == cfg1[s - 1].demote.range,
        cfg2[s - 1].demote.influence == cfg1[s - 1].demote.influence,
        cfg2[s - 1].promote.influence >= cfg1[s - 1].promote.influence,
    ensures
        species_contrib(cfg2, g, n, x, y, z, s) >= species_contrib(cfg1, g, n, x, y, z, s),
{
    assert forall|j: int|
        0 <= j < cfg1.len() implies (#[trigger] cfg2[j]).promote.range == cfg1[j].promote.range
        && cfg2[j].demote.range == cfg1[j].demote.range by {
        if j != s - 1 {
            assert(cfg2[j] == cfg1[j]);
        }
    }
    crate::tables::lemma_max_range_congruence(cfg1, cfg2, cfg1.len() as int);
    let r = reach_of(cfg1);
    assert(reach_of(cfg2) == r);
    let pr = cfg1[s - 1].promote.range as int;
    let dr = cfg1[s - 1].demote.range as int;
    let cp = count_hits(band_of(pr, dr, true, r), g, n, x, y, z, s as u8);
    let cd = count_hits(band_of(pr, dr, false, r), g, n, x, y, z, s as u8);
    lemma_count_upto_bounds(
        band_of(pr, dr, true, r),
        g,
        n,
        x,
        y,
        z,
        s as u8,
        band_of(pr, dr, true, r).len() as int,
    );
    assert(cfg1[s - 1].promote.influence * cp <= cfg2[s - 1].promote.influence * cp)
        by (nonlinear_arith)
        requires
            cfg1[s - 1].promote.influence <= cfg2[s - 1].promote.influence,
            0 <= cp,
    ;
    assert(species_contrib(cfg1, g, n, x, y, z, s) == cfg1[s - 1].promote.influence * cp + cfg1[s
        - 1].demote.influence * cd);
    assert(species_contrib(cfg2, g, n, x, y, z, s) == cfg2[s - 1].promote.influence * cp + cfg1[s
        - 1].demote.influence * cd);
}

/// True iff every label of the field is at most k.
fn labels_at_most(v: &Vec<u8>, k: u8) -> (r: bool)
    ensures
        r == forall|j: int| 0 <= j < v@.len() ==> #[trigger] v@[j] <= k,
{
    let mut i: usize = 0;
    while i < v.len()
        invariant
            i <= v@.len(),
            forall|j: int| 0 <= j < i ==> #[trigger] v@[j] <= k,
        decreases v@.len() - i,
    {
        if v[i] > k {
            return false;
        }
        i = i + 1;
    }
    true
}

/// The element-wise view of the order-parameter history.
pub open spec fn hist_view(h: Seq<Vec<i64>>) -> Seq<Seq<i64>> {
    h.map_values(|v: Vec<i64>| v@)
}

/// The K-species cellular automaton: two grid buffers (previous and current
/// generation), the species configuration with its cached neighbour tables,
/// the iteration counter, the mesher's capture selection, and the
/// order-parameter history.
pub struct CellularAutomaton3D {
    pub prev_generation: CAGrid3D,
    pub curr_generation: CAGrid3D,
    pub chemicals: Vec<CAChemicalGroup>,
    pub tables: NeighbourTables,
    pub iteration_count: u32,
    pub marching_cubes_chemical_capture: usize,
    pub order_parameter: Vec<Vec<i64>>,
}

impl CellularAutomaton3D {
    /// The grid side length N.
    pub open spec fn spec_size(&self) -> int {
        self.curr_generation.spec_size()
    }

    /// The number of differentiated species K.
    pub open spec fn spec_k(&self) -> int {
        self.chemicals@.len() as int
    }

    /// The current generation's contents.
    pub open spec fn grid_view(&self) -> Seq<u8> {
        self.curr_generation@
    }

    /// The recorded order-parameter history, one record per entry.
    pub open spec fn history(&self) -> Seq<Seq<i64>> {
        hist_view(self.order_parameter@)
    }

    /// Well-formedness: both buffers are cubic grids of one side length, the
    /// configuration is admissible, the cached tables are exactly the
    /// configuration's bands, every voxel label lies in 0 ..= K, and every
    /// recorded order-parameter record has K + 1 entries, each within
    /// +- 6 N^3.
    pub open spec fn wf(&self) -> bool {
        let n = self.spec_size();
        let k = self.spec_k();
        &&& self.curr_generation.wf()
        &&& self.prev_generation.wf()
        &&& self.prev_generation.spec_size() == n
        &&& config_ok(self.chemicals@)
        &&& tables_match(self.tables, self.chemicals@)
        &&& forall|v: int| 0 <= v < self.curr_generation@.len() ==> self.curr_generation@[v] <= k
        &&& forall|v: int| 0 <= v < self.prev_generation@.len() ==> self.prev_generation@[v] <= k
        &&& forall|j: int|
            0 <= j < self.order_parameter@.len() ==> (#[trigger] self.order_parameter@[j])@.len()
                == k + 1
        &&& forall|j: int, t: int|
            0 <= j < self.order_parameter@.len() && 0 <= t < k + 1 ==> -6 * (n * n * n)
                <= #[trigger] self.order_parameter@[j]@[t] <= 6 * (n * n * n)
    }

    /// Equality of automata: same side length and the same label at every
    /// voxel of the current generation.
    pub open spec fn spec_compare(&self, other: &CellularAutomaton3D) -> bool {
        self.spec_size() == other.spec_size() && self.grid_view() == other.grid_view()
    }

    /// A fresh automaton: zeroed grid, iteration 0, empty history.  Rejected
    /// when the configuration is inadmissible or the size is out of range.
    pub fn new(size: usize, chemicals: Vec<CAChemicalGroup>) -> (r: Result<
        CellularAutomaton3D,
        CAError,
    >)
        ensures
            r matches Ok(a) <==> (1 <= size <= crate::N_MAX && config_ok(chemicals@)),
            r matches Err(e) ==> e == CAError::ConfigInvalid,
            r matches Ok(a) ==> a.wf() && a.spec_size() == size && a.chemicals@ == chemicals@
                && a.iteration_count == 0 && a.history().len() == 0
                && a.marching_cubes_chemical_capture == 0 && a.grid_view() == Seq::new(
                (size * size * size) as nat,
                |i: int| 0u8,
            ),
    {
        if size < 1 || size > crate::N_MAX || !crate::chem::check_config(&chemicals) {
            return Err(CAError::ConfigInvalid);
        }
        let tables = crate::tables::build_tables(&chemicals);
        Ok(
            CellularAutomaton3D {
                prev_generation: CAGrid3D::new(size),
                curr_generation: CAGrid3D::new(size),
                chemicals,
                tables,
                iteration_count: 0,
                marching_cubes_chemical_capture: 0,
                order_parameter: Vec::new(),
            },
        )
    }

    pub fn size(&self) -> (n: usize)
        ensures
            n as int == self.spec_size(),
    {
        self.curr_generation.size()
    }

    pub fn get_iteration_count(&self) -> (c: u32)
        ensures
            c == self.iteration_count,
    {
        self.iteration_count
    }

    pub fn set_iteration_count(&mut self, iterations: u32)
        requires
            old(self).wf(),
        ensures
            final(self).wf(),
            final(self).iteration_count == iterations,
            final(self).grid_view() == old(self).grid_view(),
            final(self).prev_generation@ == old(self).prev_generation@,
            final(self).spec_size() == old(self).spec_size(),
            final(self).chemicals@ == old(self).chemicals@,
            final(self).history() == old(self).history(),
            final(self).marching_cubes_chemical_capture == old(
                self,
            ).marching_cubes_chemical_capture,
    {
        self.iteration_count = iterations;
    }

    /// Select which label the mesher treats as "inside".
    pub fn capture_chemical(&mut self, chemical: usize)
        requires
            old(self).wf(),
        ensures
            final(self).wf(),
            final(self).marching_cubes_chemical_capture == chemical,
            final(self).grid_view() == old(self).grid_view(),
            final(self).prev_generation@ == old(self).prev_generation@,
            final(self).spec_size() == old(self).spec_size(),
            final(self).chemicals@ == old(self).chemicals@,
            final(self).history() == old(self).history(),
            final(self).iteration_count == old(self).iteration_count,
    {
        self.marching_cubes_chemical_capture = chemical;
    }

    pub fn get_captured_chemical(&self) -> (c: usize)
        ensures
            c == self.marching_cubes_chemical_capture,
    {
        self.marching_cubes_chemical_capture
    }

    /// The label of voxel (x, y, z) in the current generation.
    pub fn get(&self, x: usize, y: usize, z: usize) -> (v: u32)
        requires
            self.wf(),
            x < self.spec_size(),
            y < self.spec_size(),
            z < self.spec_size(),
        ensures
            v == self.grid_view()[flat_idx(self.spec_size(), x as int, y as int, z as int)] as u32,
            v <= self.spec_k(),
    {
        proof {
            crate::grid::lemma_flat_idx_bounds(self.spec_size(), x as int, y as int, z as int);
        }
        self.curr_generation.get(x, y, z) as u32
    }

    /// Write one voxel of the current generation.
    pub fn set(&mut self, x: usize, y: usize, z: usize, val: u32)
        requires
            old(self).wf(),
            x < old(self).spec_size(),
            y < old(self).spec_size(),
            z < old(self).spec_size(),
            val <= old(self).spec_k(),
        ensures
            final(self).wf(),
            final(self).grid_view() == old(self).grid_view().update(
                flat_idx(old(self).spec_size(), x as int, y as int, z as int),
                val as u8,
            ),
            final(self).prev_generation@ == old(self).prev_generation@,
            final(self).spec_size() == old(self).spec_size(),
            final(self).chemicals@ == old(self).chemicals@,
            final(self).iteration_count == old(self).iteration_count,
            final(self).history() == old(self).history(),
            final(self).marching_cubes_chemical_capture == old(
                self,
            ).marching_cubes_chemical_capture,
    {
        proof {
            crate::grid::lemma_flat_idx_bounds(self.spec_size(), x as int, y as int, z as int);
        }
        self.curr_generation.set(x, y, z, val as u8);
    }

    /// Zero every voxel of both buffers, reset the iteration counter and
    /// clear the order-parameter history.
    pub fn clear_all_voxels(&mut self)
        requires
            old(self).wf(),
        ensures
            final(self).wf(),
            final(self).spec_size() == old(self).spec_size(),
            final(self).chemicals@ == old(self).chemicals@,
            final(self).grid_view() == Seq::new(
                (old(self).spec_size() * old(self).spec_size() * old(self).spec_size()) as nat,
                |i: int| 0u8,
            ),
            final(self).prev_generation@ == final(self).grid_view(),
            final(self).iteration_count == 0,
            final(self).history().len() == 0,
            final(self).marching_cubes_chemical_capture == old(
                self,
            ).marching_cubes_chemical_capture,
    {
        let n = self.curr_generation.size();
        self.prev_generation = CAGrid3D::new(n);
        self.curr_generation = CAGrid3D::new(n);
        self.iteration_count = 0;
        self.order_parameter = Vec::new();
        proof {
            assert(self.history() =~= Seq::<Seq<i64>>::empty());
        }
    }

    /// A flat copy of the current generation, in x-fastest order.
    pub fn export(&self) -> (r: Vec<u8>)
        requires
            self.wf(),
        ensures
            r@ == self.grid_view(),
    {
        let g = self.curr_generation.duplicate();
        g.data
    }

    /// A copy of the species configuration.
    pub fn get_species_configuration(&self) -> (r: Vec<CAChemicalGroup>)
        ensures
            r@ == self.chemicals@,
    {
        let mut r: Vec<CAChemicalGroup> = Vec::new();
        let mut i: usize = 0;
        while i < self.chemicals.len()
            invariant
                i <= self.chemicals@.len(),
                r@ == self.chemicals@.take(i as int),
            decreases self.chemicals@.len() - i,
        {
            r.push(self.chemicals[i]);
            i = i + 1;
            proof {
                assert(r@ =~= self.chemicals@.take(i as int));
            }
        }
        proof {
            assert(r@ =~= self.chemicals@);
        }
        r
    }

    /// True iff the other automaton has the same side length and the same
    /// label at every voxel.
    pub fn compare(&self, other: &CellularAutomaton3D) -> (r: bool)
        requires
            self.wf(),
            other.wf(),
        ensures
            r == self.spec_compare(other),
    {
        let n = self.curr_generation.size();
        if n != other.curr_generation.size() {
            return false;
        }
        let a = &self.curr_generation.data;
        let b = &other.curr_generation.data;
        let mut i: usize = 0;
        while i < a.len()
            invariant
                a@ == self.curr_generation@,
                b@ == other.curr_generation@,
                a@.len() == b@.len(),
                i <= a@.len(),
                forall|j: int| 0 <= j < i ==> a@[j] == b@[j],
            decreases a@.len() - i,
        {
            if a[i] != b[i] {
                return false;
            }
            i = i + 1;
        }
        proof {
            assert(self.grid_view() =~= other.grid_view());
        }
        true
    }

    /// Append one order-parameter record to the history.
    pub fn insert_order_parameter_value(&mut self, val: Vec<i64>)
        requires
            old(self).wf(),
            val@.len() == old(self).spec_k() + 1,
            forall|t: int|
                0 <= t < val@.len() ==> -6 * (old(self).spec_size() * old(self).spec_size() * old(
                    self,
                ).spec_size()) <= #[trigger] val@[t] <= 6 * (old(self).spec_size() * old(
                    self,
                ).spec_size() * old(self).spec_size()),
        ensures
            final(self).wf(),
            final(self).history() == old(self).history().push(val@),
            final(self).grid_view() == old(self).grid_view(),
            final(self).prev_generation@ == old(self).prev_generation@,
            final(self).spec_size() == old(self).spec_size(),
            final(self).chemicals@ == old(self).chemicals@,
            final(self).iteration_count == old(self).iteration_count,
            final(self).marching_cubes_chemical_capture == old(
                self,
            ).marching_cubes_chemical_capture,
    {
        self.order_parameter.push(val);
        proof {
            assert(self.history() =~= old(self).history().push(val@));
        }
    }

    /// Compute the order parameter of the current generation and append it
    /// to the history.
    fn compute_order_parameter(&mut self)
        requires
            old(self).wf(),
        ensures
            final(self).wf(),
            final(self).history() == old(self).history().push(
                crate::order::order_vec(
                    old(self).grid_view(),
                    old(self).spec_size(),
                    old(self).spec_k(),
                ),
            ),
            final(self).grid_view() == old(self).grid_view(),
            final(self).prev_generation@ == old(self).prev_generation@,
            final(self).spec_size() == old(self).spec_size(),
            final(self).chemicals@ == old(self).chemicals@,
            final(self).iteration_count == old(self).iteration_count,
            final(self).marching_cubes_chemical_capture == old(
                self,
            ).marching_cubes_chemical_capture,
    {
        let k = self.chemicals.len();
        let val = crate::order::compute_order_vec(&self.curr_generation, k);
        proof {
            let n = self.spec_size();
            assert forall|t: int| 0 <= t < val@.len() implies -6 * (n * n * n)
                <= #[trigger] val@[t] <= 6 * (n * n * n) by {
                crate::order::lemma_order_sum_bounds(self.grid_view(), n, t as u8);
            }
        }
        self.insert_order_parameter_value(val);
    }

    /// Advance one generation: the current grid becomes the previous
    /// snapshot, every voxel of the new grid is computed from that snapshot
    /// alone by the update rule (generation separation), the iteration
    /// counter grows by exactly one, and exactly one order-parameter record
    /// is appended.
    pub fn run_iteration(&mut self)
        requires
            old(self).wf(),
            old(self).iteration_count < u32::MAX,
        ensures
            final(self).wf(),
            final(self).prev_generation@ == old(self).grid_view(),
            final(self).grid_view() == next_grid(
                old(self).chemicals@,
                old(self).grid_view(),
                old(self).spec_size(),
            ),
            final(self).spec_size() == old(self).spec_size(),
            final(self).chemicals@ == old(self).chemicals@,
            final(self).iteration_count == old(self).iteration_count + 1,
            final(self).history() == old(self).history().push(
                crate::order::order_vec(
                    final(self).grid_view(),
                    old(self).spec_size(),
                    old(self).spec_k(),
                ),
            ),
            final(self).marching_cubes_chemical_capture == old(
                self,
            ).marching_cubes_chemical_capture,
    {
        let n = self.curr_generation.size();
        self.prev_generation = self.curr_generation.duplicate();
        proof {
            crate::grid::lemma_flat_idx_exec_bounds(n as int, 0, n as int - 1, n as int - 1);
        }
        let total: usize = n * n * n;
        let mut data: Vec<u8> = Vec::new();
        let mut i: usize = 0;
        while i < total
            invariant
                self.wf(),
                n == self.spec_size(),
                total == n * n * n,
                total <= 256 * 256 * 256,
                n * n <= 256 * 256,
                i <= total,
                data@.len() == i,
                forall|j: int|
                    0 <= j < i ==> #[trigger] data@[j] == next_label(
                        self.chemicals@,
                        self.prev_generation@,
                        n as int,
                        j % (n as int),
                        (j / (n as int)) % (n as int),
                        j / ((n as int) * (n as int)),
                    ),
                forall|j: int| 0 <= j < i ==> #[trigger] data@[j] <= self.spec_k(),
            decreases total - i,
        {
            proof {
                crate::order::lemma_coords_of(n as int, i as int);
            }
            let x = i % n;
            let y = (i / n) % n;
            let z = i / (n * n);
            let lab = next_cell(
                &self.chemicals,
                &self.tables,
                &self.prev_generation,
                x,
                y,
                z,
            );
            proof {
                lemma_next_label_range(
                    self.chemicals@,
                    self.prev_generation@,
                    n as int,
                    x as int,
                    y as int,
                    z as int,
                );
            }
            data.push(lab);
            i = i + 1;
        }
        proof {
            assert(data@ =~= next_grid(self.chemicals@, self.prev_generation@, n as int));
        }
        self.curr_generation = CAGrid3D::from_data(n, data);
        self.iteration_count = self.iteration_count + 1;
        self.compute_order_parameter();
    }

    /// Fill every voxel with a label drawn independently from [0, chem),
    /// reset the iteration counter, clear the history and record the order
    /// parameter of the fresh state.
    pub fn spread_chemicals_randomly(&mut self, rng: &mut rand::rngs::StdRng, chem: u32)
        requires
            old(self).wf(),
            1 <= chem <= old(self).spec_k() + 1,
        ensures
            final(self).wf(),
            final(self).spec_size() == old(self).spec_size(),
            final(self).chemicals@ == old(self).chemicals@,
            forall|v: int|
                0 <= v < final(self).grid_view().len() ==> (#[trigger] final(self).grid_view()[v])
                    < chem,
            final(self).iteration_count == 0,
            final(self).history().len() == 1,
            final(self).history()[0] == crate::order::order_vec(
                final(self).grid_view(),
                old(self).spec_size(),
                old(self).spec_k(),
            ),
            final(self).prev_generation@ == old(self).prev_generation@,
            final(self).marching_cubes_chemical_capture == old(
                self,
            ).marching_cubes_chemical_capture,
    {
        let n = self.curr_generation.size();
        proof {
            crate::grid::lemma_flat_idx_exec_bounds(n as int, 0, n as int - 1, n as int - 1);
        }
        let total: usize = n * n * n;
        let mut data: Vec<u8> = Vec::new();
        let mut i: usize = 0;
        while i < total
            invariant
                1 <= chem <= 21,
                i <= total,
                data@.len() == i,
                forall|j: int| 0 <= j < i ==> #[trigger] data@[j] < chem,
            decreases total - i,
        {
            let v = crate::rng::gen_below(rng, chem);
            data.push(v as u8);
            i = i + 1;
        }
        self.curr_generation = CAGrid3D::from_data(n, data);
        self.iteration_count = 0;
        self.order_parameter = Vec::new();
        proof {
            assert(self.history() =~= Seq::<Seq<i64>>::empty());
        }
        self.compute_order_parameter();
    }

    /// Adopt another automaton's state: copy every voxel label and the
    /// iteration counter, then recompute the order-parameter history from
    /// the adopted grid.
    pub fn import_data_from_automaton(&mut self, other: &CellularAutomaton3D)
        requires
            old(self).wf(),
            other.wf(),
            other.spec_size() == old(self).spec_size(),
            other.spec_k() <= old(self).spec_k(),
        ensures
            final(self).wf(),
            final(self).spec_size() == old(self).spec_size(),
            final(self).chemicals@ == old(self).chemicals@,
            final(self).grid_view() == other.grid_view(),
            final(self).iteration_count == other.iteration_count,
            final(self).spec_compare(other),
            final(self).history().len() == 1,
            final(self).history()[0] == crate::order::order_vec(
                other.grid_view(),
                old(self).spec_size(),
                old(self).spec_k(),
            ),
            final(self).prev_generation@ == old(self).prev_generation@,
            final(self).marching_cubes_chemical_capture == old(
                self,
            ).marching_cubes_chemical_capture,
    {
        self.curr_generation = other.curr_generation.duplicate();
        self.iteration_count = other.iteration_count;
        self.order_parameter = Vec::new();
        proof {
            assert(self.history() =~= Seq::<Seq<i64>>::empty());
        }
        self.compute_order_parameter();
    }

    /// Rebuild the engine in the legacy two-band form: one species whose
    /// promote chemical is the differentiated band (range and influence in
    /// thousandths) and whose demote chemical is the undifferentiated band.
    pub fn reset(
        &mut self,
        size: usize,
        dc_range: i64,
        dc_influence: i64,
        uc_range: i64,
        uc_influence: i64,
    ) -> (r: Result<(), CAError>)
        requires
            old(self).wf(),
        ensures
            final(self).wf(),
            r matches Ok(u) <==> (1 <= size <= crate::N_MAX && 0 <= dc_range <= crate::RANGE_MAX
                && 0 <= uc_range <= crate::RANGE_MAX && -INFLUENCE_MAX <= dc_influence
                <= INFLUENCE_MAX && -INFLUENCE_MAX <= uc_influence <= INFLUENCE_MAX),
            r matches Ok(u) ==> final(self).spec_size() == size && final(self).spec_k() == 1
                && final(self).chemicals@ == seq![
                CAChemicalGroup {
                    promote: crate::chem::CAChemical { range: dc_range, influence: dc_influence },
                    demote: crate::chem::CAChemical { range: uc_range, influence: uc_influence },
                },
            ] && final(self).grid_view() == Seq::new((size * size * size) as nat, |i: int| 0u8)
                && final(self).iteration_count == 0 && final(self).history().len() == 0,
            r matches Err(e) ==> e == CAError::ConfigInvalid && *final(self) == *old(self),
    {
        let group = CAChemicalGroup {
            promote: crate::chem::CAChemical { range: dc_range, influence: dc_influence },
            demote: crate::chem::CAChemical { range: uc_range, influence: uc_influence },
        };
        let mut chemicals: Vec<CAChemicalGroup> = Vec::new();
        chemicals.push(group);
        proof {
            assert(chemicals@ =~= seq![group]);
            assert(chemicals@[0] == group);
            if crate::chem::group_ok(group) {
                assert forall|i: int| 0 <= i < chemicals@.len() implies crate::chem::group_ok(
                    #[trigger] chemicals@[i],
                ) by {
                    assert(chemicals@[i] == group);
                }
            }
        }
        match CellularAutomaton3D::new(size, chemicals) {
            Ok(a) => {
                *self = a;
                Ok(())
            },
            Err(e) => Err(e),
        }
    }

    /// Replace the species configuration and rebuild the neighbour tables.
    /// Rejected when the new configuration is inadmissible or when a voxel
    /// of either buffer carries a label beyond the new species count; the
    /// order-parameter history restarts from the current grid.
    pub fn set_species_configuration(&mut self, chemicals: Vec<CAChemicalGroup>) -> (r: Result<
        (),
        CAError,
    >)
        requires
            old(self).wf(),
        ensures
            final(self).wf(),
            r matches Ok(u) <==> (config_ok(chemicals@) && (forall|v: int|
                0 <= v < old(self).grid_view().len() ==> old(self).grid_view()[v]
                    <= chemicals@.len()) && (forall|v: int|
                0 <= v < old(self).prev_generation@.len() ==> old(self).prev_generation@[v]
                    <= chemicals@.len())),
            r matches Ok(u) ==> final(self).chemicals@ == chemicals@ && final(self).grid_view()
                == old(self).grid_view() && final(self).spec_size() == old(self).spec_size()
                && final(self).iteration_count == old(self).iteration_count && final(self).history().len() == 1
                && final(self).history()[0] == crate::order::order_vec(
                old(self).grid_view(),
                old(self).spec_size(),
                chemicals@.len() as int,
            ) && final(self).prev_generation@ == old(self).prev_generation@,
            r matches Err(e) ==> e == CAError::ConfigInvalid && *final(self) == *old(self),
    {
        if !crate::chem::check_config(&chemicals) {
            return Err(CAError::ConfigInvalid);
        }
        let k = chemicals.len() as u8;
        if !labels_at_most(&self.curr_generation.data, k) {
            proof {
                let w = choose|j: int|
                    0 <= j < self.curr_generation@.len() && !(#[trigger] self.curr_generation@[j]
                        <= k);
                assert(self.grid_view()[w] > chemicals@.len());
            }
            return Err(CAError::ConfigInvalid);
        }
        if !labels_at_most(&self.prev_generation.data, k) {
            proof {
                let w = choose|j: int|
                    0 <= j < self.prev_generation@.len() && !(#[trigger] self.prev_generation@[j]
                        <= k);
                assert(self.prev_generation@[w] > chemicals@.len());
            }
            return Err(CAError::ConfigInvalid);
        }
        let tables = crate::tables::build_tables(&chemicals);
        self.chemicals = chemicals;
        self.tables = tables;
        self.order_parameter = Vec::new();
        proof {
            assert(self.history() =~= Seq::<Seq<i64>>::empty());
        }
        self.compute_order_parameter();
        Ok(())
    }

    /// The aggregate influence every species together exerts on one voxel
    /// of the current generation: the sum over species of influence-weighted
    /// band matches.
    pub fn total_influence(&self, x: usize, y: usize, z: usize) -> (t: i64)
        requires
            self.wf(),
            x < self.spec_size(),
            y < self.spec_size(),
            z < self.spec_size(),
        ensures
            t == total_influence_upto(
                self.chemicals@,
                self.grid_view(),
                self.spec_size(),
                x as int,
                y as int,
                z as int,
                self.spec_k(),
            ),
    {
        let k = self.chemicals.len();
        let mut total: i64 = 0;
        let mut s: usize = 1;
        while s <= k
            invariant
                self.wf(),
                x < self.spec_size(),
                y < self.spec_size(),
                z < self.spec_size(),
                k == self.spec_k(),
                1 <= s <= k + 1,
                total == total_influence_upto(
                    self.chemicals@,
                    self.grid_view(),
                    self.spec_size(),
                    x as int,
                    y as int,
                    z as int,
                    (s - 1) as int,
                ),
                -((s - 1) as int) * CONTRIB_MAX <= total <= ((s - 1) as int) * CONTRIB_MAX,
            decreases k + 1 - s,
        {
            let c = species_contrib_exec(
                &self.chemicals,
                &self.tables,
                &self.curr_generation,
                x,
                y,
                z,
                s,
            );
            proof {
                assert(-(s as int) * CONTRIB_MAX <= total + c <= (s as int) * CONTRIB_MAX && -20
                    * CONTRIB_MAX <= total + c <= 20 * CONTRIB_MAX) by (nonlinear_arith)
                    requires
                        -((s - 1) as int) * CONTRIB_MAX <= total <= ((s - 1) as int) * CONTRIB_MAX,
                        -CONTRIB_MAX <= c <= CONTRIB_MAX,
                        1 <= s <= 20,
                        0 < CONTRIB_MAX,
                ;
            }
            total = total + c;
            s = s + 1;
        }
        total
    }

    /// The recorded history, transposed: one sequence per label in 0 ..= k,
    /// each holding that label's tally for every recorded entry in order.
    pub fn get_order_parameters(&self) -> (r: Vec<Vec<i64>>)
        requires
            self.wf(),
        ensures
            r@.len() == self.spec_k() + 1,
            forall|t: int| 0 <= t <= self.spec_k() ==> (#[trigger] r@[t])@.len()
                == self.history().len(),
            forall|t: int, j: int|
                0 <= t <= self.spec_k() && 0 <= j < self.history().len()
                    ==> #[trigger] r@[t]@[j] == self.history()[j][t],
    {
        let k = self.chemicals.len();
        let m = self.order_parameter.len();
        let mut r: Vec<Vec<i64>> = Vec::new();
        let mut t: usize = 0;
        while t < k + 1
            invariant
                self.wf(),
                k == self.spec_k(),
                m == self.order_parameter@.len(),
                t <= k + 1,
                r@.len() == t,
                forall|u: int| 0 <= u < t ==> (#[trigger] r@[u])@.len() == m,
                forall|u: int, j: int|
                    0 <= u < t && 0 <= j < m ==> #[trigger] r@[u]@[j]
                        == self.order_parameter@[j]@[u],
            decreases k + 1 - t,
        {
            let mut row: Vec<i64> = Vec::new();
            let mut j: usize = 0;
            while j < m
                invariant
                    self.wf(),
                    k == self.spec_k(),
                    t <= k,
                    m == self.order_parameter@.len(),
                    j <= m,
                    row@.len() == j,
                    forall|i: int| 0 <= i < j ==> #[trigger] row@[i]
                        == self.order_parameter@[i]@[t as int],
                decreases m - j,
            {
                let entry = &self.order_parameter[j];
                row.push(entry[t]);
                j = j + 1;
            }
            r.push(row);
            t = t + 1;
        }
        r
    }
}

} // verus!
