//! The cubic voxel grid and the toroidal index arithmetic.

use vstd::prelude::*;
use vstd::arithmetic::div_mod::{
    lemma_fundamental_div_mod_converse_mod, lemma_mod_add_multiples_vanish,
    lemma_mod_sub_multiples_vanish,
};

use crate::N_MAX;

verus! {

/// Flat storage index of voxel (x, y, z) in a grid of side n.
pub open spec fn flat_idx(n: int, x: int, y: int, z: int) -> int {
    x + y * n + z * n * n
}

/// The wrapped coordinate on one axis of the torus: the representative of
/// p + d modulo n that lies in [0, n).  `%` is Euclidean here, so the value
/// equals ((p + d) mod n + n) mod n for any reading of `mod`.
pub open spec fn wrap_spec(p: int, d: int, n: int) -> int {
    (p + d) % n
}

/// Flat index of the wrapped neighbour of (x, y, z) at offset o.
pub open spec fn neighbour_idx(n: int, x: int, y: int, z: int, o: (i32, i32, i32)) -> int {
    flat_idx(
        n,
        wrap_spec(x, o.0 as int, n),
        wrap_spec(y, o.1 as int, n),
        wrap_spec(z, o.2 as int, n),
    )
}

/// flat_idx is inverted by % n, / n % n, / (n * n).
pub proof fn lemma_flat_idx_bounds(n: int, x: int, y: int, z: int)
    requires
        1 <= n,
        0 <= x < n,
        0 <= y < n,
        0 <= z < n,
    ensures
        0 <= flat_idx(n, x, y, z) < n * n * n,
        flat_idx(n, x, y, z) % n == x,
        (flat_idx(n, x, y, z) / n) % n == y,
        flat_idx(n, x, y, z) / (n * n) == z,
{
    assert(0 <= x + y * n + z * n * n < n * n * n) by (nonlinear_arith)
        requires
            1 <= n && 0 <= x < n && 0 <= y < n && 0 <= z < n,
    ;
    let i = flat_idx(n, x, y, z);
    assert(x + y * n + z * n * n == (y + z * n) * n + x) by (nonlinear_arith);
    lemma_fundamental_div_mod_converse_mod(i, n, y + z * n, x);
    assert(i % n == x);
    vstd::arithmetic::div_mod::lemma_fundamental_div_mod_converse_div(i, n, y + z * n, x);
    assert(i / n == y + z * n);
    lemma_fundamental_div_mod_converse_mod(y + z * n, n, z, y);
    assert((i / n) % n == y);
    assert(x + y * n + z * n * n == z * (n * n) + (x + y * n)) by (nonlinear_arith);
    assert(0 <= x + y * n < n * n) by (nonlinear_arith)
        requires
            1 <= n && 0 <= x < n && 0 <= y < n,
    ;
    vstd::arithmetic::div_mod::lemma_fundamental_div_mod_converse_div(i, n * n, z, x + y * n);
}

/// In exec arithmetic the flat index of an in-range voxel neither overflows
/// nor leaves the storage: every partial sum stays under n * n * n.
pub proof fn lemma_flat_idx_exec_bounds(n: int, x: int, y: int, z: int)
    requires
        1 <= n <= N_MAX,
        0 <= x < n,
        0 <= y < n,
        0 <= z < n,
    ensures
        y * n <= 256 * 256,
        z * n <= 256 * 256,
        z * n * n <= 256 * 256 * 256,
        0 <= x + y * n + z * n * n < n * n * n,
        n * n <= 256 * 256,
        n * n * n <= 256 * 256 * 256,
{
    assert(y * n <= 256 * 256 && z * n <= 256 * 256 && z * n * n <= 256 * 256 * 256
        && n * n <= 256 * 256 && n * n * n <= 256 * 256 * 256)
        by (nonlinear_arith)
        requires
            1 <= n <= 256 && 0 <= y < n && 0 <= z < n,
    ;
    lemma_flat_idx_bounds(n, x, y, z);
}

/// The wrapped index of `p + d`: always lands in [0, n), agrees with the
/// double-mod normal form, and offsets of any magnitude wrap as many times
/// as needed.
pub fn wrap(p: usize, d: i32, n: usize) -> (r: usize)
    requires
        1 <= n <= N_MAX,
        p < n,
    ensures
        r < n,
        r as int == wrap_spec(p as int, d as int, n as int),
        r as int == ((p + d) % (n as int) + n) % (n as int),
{
    let n64: i64 = n as i64;
    let mut t: i64 = p as i64 + d as i64;
    proof {
        assert(t % n64 == (p + d) % (n as int));
    }
    while t < 0
        invariant
            1 <= n64 <= N_MAX,
            n64 == n,
            t % n64 == (p + d) % (n as int),
            -0x8000_0000 <= t <= 0x8000_1000,
        decreases (if t < 0 { 0 - t } else { 0int }),
    {
        proof {
            lemma_mod_add_multiples_vanish(t as int, n64 as int);
        }
        t = t + n64;
    }
    while t >= n64
        invariant
            1 <= n64 <= N_MAX,
            n64 == n,
            0 <= t,
            t % n64 == (p + d) % (n as int),
        decreases t,
    {
        proof {
            lemma_mod_sub_multiples_vanish(t as int, n64 as int);
        }
        t = t - n64;
    }
    proof {
        lemma_fundamental_div_mod_converse_mod(t as int, n64 as int, 0, t as int);
        let w = (p + d) % (n as int);
        lemma_mod_add_multiples_vanish(w, n as int);
        vstd::arithmetic::div_mod::lemma_mod_self_0(n as int);
        assert(0 <= w < n) by {
            vstd::arithmetic::div_mod::lemma_mod_division_less_than_divisor(p + d, n as int);
        }
        vstd::arithmetic::div_mod::lemma_small_mod(w as nat, n as nat);
        assert((w + n) % (n as int) == w);
    }
    t as usize
}

/// A cubic N x N x N field of species labels, one `u8` per voxel, stored
/// flat in x-fastest order.
pub struct CAGrid3D {
    pub size: usize,
    pub data: Vec<u8>,
}

impl View for CAGrid3D {
    type V = Seq<u8>;

    open spec fn view(&self) -> Seq<u8> {
        self.data@
    }
}

impl CAGrid3D {
    /// Shape well-formedness: positive bounded side, cubic storage.
    pub open spec fn wf(&self) -> bool {
        1 <= self.size <= N_MAX && self.data@.len() == self.size * self.size * self.size
    }

    pub open spec fn spec_size(&self) -> int {
        self.size as int
    }

    /// A fresh all-zero grid of the given side length.
    pub fn new(size: usize) -> (g: CAGrid3D)
        requires
            1 <= size <= N_MAX,
        ensures
            g.wf(),
            g.spec_size() == size,
            g@ == Seq::new((size * size * size) as nat, |i: int| 0u8),
    {
        proof {
            assert(size * size <= 256 * 256 && size * size * size <= 256 * 256 * 256)
                by (nonlinear_arith)
                requires
                    1 <= size <= 256,
            ;
        }
        let total: usize = size * size * size;
        let mut data: Vec<u8> = Vec::new();
        let mut i: usize = 0;
        while i < total
            invariant
                i <= total,
                data@.len() == i,
                data@ == Seq::new(i as nat, |j: int| 0u8),
            decreases total - i,
        {
            data.push(0u8);
            i = i + 1;
            proof {
                assert(data@ =~= Seq::new(i as nat, |j: int| 0u8));
            }
        }
        CAGrid3D { size, data }
    }

    /// Rebuild a grid from flat contents.
    pub(crate) fn from_data(size: usize, data: Vec<u8>) -> (g: CAGrid3D)
        requires
            1 <= size <= N_MAX,
            data@.len() == size * size * size,
        ensures
            g.wf(),
            g.spec_size() == size,
            g@ == data@,
    {
        CAGrid3D { size, data }
    }

    pub fn size(&self) -> (n: usize)
        ensures
            n as int == self.spec_size(),
    {
        self.size
    }

    pub fn get(&self, x: usize, y: usize, z: usize) -> (v: u8)
        requires
            self.wf(),
            x < self.spec_size(),
            y < self.spec_size(),
            z < self.spec_size(),
        ensures
            v == self@[flat_idx(self.spec_size(), x as int, y as int, z as int)],
    {
        proof {
            lemma_flat_idx_exec_bounds(self.spec_size(), x as int, y as int, z as int);
        }
        let n = self.size;
        self.data[x + y * n + z * n * n]
    }

    pub fn set(&mut self, x: usize, y: usize, z: usize, val: u8)
        requires
            old(self).wf(),
            x < old(self).spec_size(),
            y < old(self).spec_size(),
            z < old(self).spec_size(),
        ensures
            final(self).wf(),
            final(self).spec_size() == old(self).spec_size(),
            final(self)@ == old(self)@.update(
                flat_idx(old(self).spec_size(), x as int, y as int, z as int),
                val,
            ),
    {
        proof {
            lemma_flat_idx_exec_bounds(self.spec_size(), x as int, y as int, z as int);
        }
        let n = self.size;
        let idx = x + y * n + z * n * n;
        self.data[idx] = val;
    }

    /// An independent copy of the whole field.
    pub fn duplicate(&self) -> (g: CAGrid3D)
        requires
            self.wf(),
        ensures
            g.wf(),
            g.spec_size() == self.spec_size(),
            g@ == self@,
    {
        let mut data: Vec<u8> = Vec::new();
        let total = self.data.len();
        let mut i: usize = 0;
        while i < total
            invariant
                i <= total,
                total == self.data@.len(),
                data@ == self.data@.take(i as int),
            decreases total - i,
        {
            data.push(self.data[i]);
            i = i + 1;
            proof {
                assert(data@ =~= self.data@.take(i as int));
            }
        }
        proof {
            assert(data@ =~= self.data@);
        }
        CAGrid3D { size: self.size, data }
    }
}

} // verus!
