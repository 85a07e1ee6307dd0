//! The order parameter: a per-species scalar measuring how face-homogeneous
//! the grid is.
//!
//! Every voxel contributes +1 to its own species' tally for each of its six
//! axis-aligned (wrapped) neighbours carrying the same label, and -1 for
//! each differing neighbour.  The per-species scalar is that tally divided
//! by 6 * N^3, so it lies in [-1, 1]; this module keeps the tallies as exact
//! integers and leaves the normalisation to the consumer.

use vstd::prelude::*;
use vstd::arithmetic::div_mod::{
    lemma_div_pos_is_pos, lemma_fundamental_div_mod, lemma_mod_division_less_than_divisor,
    lemma_multiply_divide_lt,
};

use crate::grid::{flat_idx, neighbour_idx, wrap, wrap_spec, CAGrid3D};

verus! {

/// The six axis-aligned unit offsets.
pub open spec fn face_dir(j: int) -> (i32, i32, i32) {
    if j == 0 {
        (-1i32, 0i32, 0i32)
    } else if j == 1 {
        (1i32, 0i32, 0i32)
    } else if j == 2 {
        (0i32, -1i32, 0i32)
    } else if j == 3 {
        (0i32, 1i32, 0i32)
    } else if j == 4 {
        (0i32, 0i32, -1i32)
    } else {
        (0i32, 0i32, 1i32)
    }
}

/// +1 when the wrapped neighbour of (x, y, z) in direction j carries the
/// same label, -1 otherwise.
pub open spec fn face_term(g: Seq<u8>, n: int, x: int, y: int, z: int, j: int) -> int {
    if g[neighbour_idx(n, x, y, z, face_dir(j))] == g[flat_idx(n, x, y, z)] {
        1
    } else {
        -1
    }
}

/// The sum of the six face terms of one voxel.
pub open spec fn face_sum(g: Seq<u8>, n: int, x: int, y: int, z: int) -> int {
    face_term(g, n, x, y, z, 0) + face_term(g, n, x, y, z, 1) + face_term(g, n, x, y, z, 2)
        + face_term(g, n, x, y, z, 3) + face_term(g, n, x, y, z, 4) + face_term(g, n, x, y, z, 5)
}

/// The species-s tally over the first i voxels (in flat order): each voxel
/// labelled s contributes its face sum.
pub open spec fn order_sum_upto(g: Seq<u8>, n: int, s: u8, i: int) -> int
    decreases i,
{
    if i <= 0 {
        0
    } else {
        let x = (i - 1) % n;
        let y = ((i - 1) / n) % n;
        let z = (i - 1) / (n * n);
        order_sum_upto(g, n, s, i - 1) + if g[i - 1] == s {
            face_sum(g, n, x, y, z)
        } else {
            0
        }
    }
}

/// The species-s tally over the whole grid.
pub open spec fn order_sum(g: Seq<u8>, n: int, s: u8) -> int {
    order_sum_upto(g, n, s, n * n * n)
}

/// The whole order-parameter record of one grid: one tally per label in
/// 0 ..= k.
pub open spec fn order_vec(g: Seq<u8>, n: int, k: int) -> Seq<i64> {
    Seq::new((k + 1) as nat, |s: int| order_sum(g, n, s as u8) as i64)
}

/// Order bounds: every tally lies between -6 i and 6 i after i voxels.
pub proof fn lemma_order_sum_upto_bounds(g: Seq<u8>, n: int, s: u8, i: int)
    requires
        0 <= i,
    ensures
        -6 * i <= order_sum_upto(g, n, s, i) <= 6 * i,
    decreases i,
{
    if i > 0 {
        lemma_order_sum_upto_bounds(g, n, s, i - 1);
    }
}

/// Order bounds over the whole grid: the tally lies between -6 N^3 and
/// 6 N^3, so the normalised order parameter lies in [-1, 1].
pub proof fn lemma_order_sum_bounds(g: Seq<u8>, n: int, s: u8)
    requires
        1 <= n,
    ensures
        -6 * (n * n * n) <= order_sum(g, n, s) <= 6 * (n * n * n),
{
    assert(0 <= n * n * n) by (nonlinear_arith)
        requires
            1 <= n,
    ;
    lemma_order_sum_upto_bounds(g, n, s, n * n * n);
}

/// Decompose a flat voxel number into its coordinates.
pub proof fn lemma_coords_of(n: int, i: int)
    requires
        1 <= n,
        0 <= i < n * n * n,
    ensures
        0 <= i % n < n,
        0 <= (i / n) % n < n,
        0 <= i / (n * n) < n,
        flat_idx(n, i % n, (i / n) % n, i / (n * n)) == i,
{
    let x = i % n;
    let y = (i / n) % n;
    let z = i / (n * n);
    lemma_mod_division_less_than_divisor(i, n);
    lemma_div_pos_is_pos(i, n);
    lemma_mod_division_less_than_divisor(i / n, n);
    assert(0 < n * n && i < (n * n) * n) by (nonlinear_arith)
        requires
            1 <= n && i < n * n * n,
    ;
    lemma_div_pos_is_pos(i, n * n);
    lemma_multiply_divide_lt(i, n * n, n);
    lemma_fundamental_div_mod(i, n);
    lemma_fundamental_div_mod(i / n, n);
    assert(i / (n * n) == (i / n) / n) by {
        vstd::arithmetic::div_mod::lemma_div_denominator(i, n, n);
    }
    assert(i == n * (n * ((i / n) / n) + (i / n) % n) + i % n);
    assert(flat_idx(n, x, y, z) == x + y * n + z * n * n);
    assert(n * (n * z + y) + x == x + y * n + z * (n * n)) by (nonlinear_arith);
    assert(z * (n * n) == z * n * n) by (nonlinear_arith);
}

/// Homogeneity: on a grid uniformly labelled s0, the tally of s0 over the
/// first i voxels is exactly 6 i, and every other label's tally is 0.
pub proof fn lemma_order_sum_upto_uniform(g: Seq<u8>, n: int, s0: u8, s: u8, i: int)
    requires
        1 <= n,
        g.len() == n * n * n,
        forall|v: int| 0 <= v < g.len() ==> g[v] == s0,
        0 <= i <= n * n * n,
    ensures
        s == s0 ==> order_sum_upto(g, n, s, i) == 6 * i,
        s != s0 ==> order_sum_upto(g, n, s, i) == 0,
    decreases i,
{
    if i > 0 {
        lemma_order_sum_upto_uniform(g, n, s0, s, i - 1);
        lemma_coords_of(n, i - 1);
        let x = (i - 1) % n;
        let y = ((i - 1) / n) % n;
        let z = (i - 1) / (n * n);
        if g[i - 1] == s {
            assert forall|j: int| 0 <= j < 6 implies face_term(g, n, x, y, z, j) == 1 by {
                let w = neighbour_idx(n, x, y, z, face_dir(j));
                assert(0 <= wrap_spec(x, face_dir(j).0 as int, n) < n && 0 <= wrap_spec(
                    y,
                    face_dir(j).1 as int,
                    n,
                ) < n && 0 <= wrap_spec(z, face_dir(j).2 as int, n) < n) by {
                    lemma_mod_division_less_than_divisor(x + face_dir(j).0 as int, n);
                    lemma_mod_division_less_than_divisor(y + face_dir(j).1 as int, n);
                    lemma_mod_division_less_than_divisor(z + face_dir(j).2 as int, n);
                }
                crate::grid::lemma_flat_idx_bounds(
                    n,
                    wrap_spec(x, face_dir(j).0 as int, n),
                    wrap_spec(y, face_dir(j).1 as int, n),
                    wrap_spec(z, face_dir(j).2 as int, n),
                );
                assert(g[w] == s0);
            }
            assert(face_sum(g, n, x, y, z) == 6);
        }
    }
}

/// Homogeneity over the whole grid: the uniform label scores the full
/// 6 N^3 (a normalised order parameter of exactly 1) and all others 0.
pub proof fn lemma_order_sum_uniform(g: Seq<u8>, n: int, s0: u8, s: u8)
    requires
        1 <= n,
        g.len() == n * n * n,
        forall|v: int| 0 <= v < g.len() ==> g[v] == s0,
    ensures
        s == s0 ==> order_sum(g, n, s) == 6 * (n * n * n),
        s != s0 ==> order_sum(g, n, s) == 0,
{
    assert(0 <= n * n * n) by (nonlinear_arith)
        requires
            1 <= n,
    ;
    lemma_order_sum_upto_uniform(g, n, s0, s, n * n * n);
}

/// Compute the order-parameter record of one grid: the exact tally for each
/// label in 0 ..= k.  Pure in the grid contents.
pub fn compute_order_vec(g: &CAGrid3D, k: usize) -> (r: Vec<i64>)
    requires
        g.wf(),
        1 <= k <= crate::K_MAX,
        forall|v: int| 0 <= v < g@.len() ==> g@[v] <= k,
    ensures
        r@ == order_vec(g@, g.spec_size(), k as int),
{
    let n = g.size();
    proof {
        crate::grid::lemma_flat_idx_exec_bounds(n as int, 0, n as int - 1, n as int - 1);
    }
    let total: usize = n * n * n;
    proof {
        assert(total <= 256 * 256 * 256);
    }
    let mut sums: Vec<i64> = Vec::new();
    let mut s: usize = 0;
    while s < k + 1
        invariant
            s <= k + 1,
            k <= crate::K_MAX,
            sums@.len() == s,
            forall|t: int| 0 <= t < s ==> sums@[t] == 0,
        decreases k + 1 - s,
    {
        sums.push(0i64);
        s = s + 1;
    }
    let mut i: usize = 0;
    while i < total
        invariant
            g.wf(),
            1 <= k <= crate::K_MAX,
            forall|v: int| 0 <= v < g@.len() ==> g@[v] <= k,
            n == g.spec_size(),
            total == n * n * n,
            total <= 256 * 256 * 256,
            n * n <= 256 * 256,
            i <= total,
            sums@.len() == k + 1,
            forall|t: int|
                0 <= t <= k ==> #[trigger] sums@[t] == order_sum_upto(
                    g@,
                    n as int,
                    t as u8,
                    i as int,
                ),
        decreases total - i,
    {
        proof {
            lemma_coords_of(n as int, i as int);
        }
        let x = i % n;
        let y = (i / n) % n;
        let z = i / (n * n);
        let lab = g.get(x, y, z);
        let mut delta: i64 = 0;
        let wxm = wrap(x, -1, n);
        let wxp = wrap(x, 1, n);
        let wym = wrap(y, -1, n);
        let wyp = wrap(y, 1, n);
        let wzm = wrap(z, -1, n);
        let wzp = wrap(z, 1, n);
        delta = delta + if g.get(wxm, y, z) == lab {
            1
        } else {
            -1
        };
        delta = delta + if g.get(wxp, y, z) == lab {
            1
        } else {
            -1
        };
        delta = delta + if g.get(x, wym, z) == lab {
            1
        } else {
            -1
        };
        delta = delta + if g.get(x, wyp, z) == lab {
            1
        } else {
            -1
        };
        delta = delta + if g.get(x, y, wzm) == lab {
            1
        } else {
            -1
        };
        delta = delta + if g.get(x, y, wzp) == lab {
            1
        } else {
            -1
        };
        proof {
            vstd::arithmetic::div_mod::lemma_small_mod(x as nat, n as nat);
            vstd::arithmetic::div_mod::lemma_small_mod(y as nat, n as nat);
            vstd::arithmetic::div_mod::lemma_small_mod(z as nat, n as nat);
            assert(delta == face_sum(g@, n as int, x as int, y as int, z as int));
            lemma_order_sum_upto_bounds(g@, n as int, lab, i as int);
            assert(6 * (i as int) < 6 * 256 * 256 * 256 + 6) by (nonlinear_arith)
                requires
                    i <= 256 * 256 * 256,
            ;
        }
        proof {
            assert(lab == g@[i as int]);
            assert(lab as int <= k);
            assert(sums@[lab as int] == order_sum_upto(g@, n as int, lab as u8, i as int));
            assert(-6 <= delta <= 6);
            assert(-6 * (i as int) <= sums@[lab as int] <= 6 * (i as int)) by {
                lemma_order_sum_upto_bounds(g@, n as int, lab, i as int);
            }
            assert(-6 - 6 * (i as int) <= sums@[lab as int] + delta && sums@[lab as int] + delta
                <= 6 * (i as int) + 6) by (nonlinear_arith)
                requires
                    -6 * (i as int) <= sums@[lab as int] <= 6 * (i as int),
                    -6 <= delta <= 6,
            ;
        }
        let cur = sums[lab as usize];
        sums[lab as usize] = cur + delta;
        i = i + 1;
        proof {
            assert forall|t: int| 0 <= t <= k implies #[trigger] sums@[t] == order_sum_upto(
                g@,
                n as int,
                t as u8,
                i as int,
            ) by {
                assert(order_sum_upto(g@, n as int, t as u8, i as int) == order_sum_upto(
                    g@,
                    n as int,
                    t as u8,
                    i as int - 1,
                ) + if g@[i - 1] == t as u8 {
                    face_sum(g@, n as int, (i - 1) as int % (n as int), ((i - 1) as int / (n as int)) % (n as int), (i - 1) as int / ((n as int) * (n as int)))
                } else {
                    0
                });
            }
        }
    }
    proof {
        assert(sums@ =~= order_vec(g@, g.spec_size(), k as int)) by {
            assert forall|t: int| 0 <= t <= k implies sums@[t] == order_sum(
                g@,
                n as int,
                t as u8,
            ) as i64 by {
                lemma_order_sum_bounds(g@, n as int, t as u8);
            }
        }
    }
    sums
}

} // verus!
