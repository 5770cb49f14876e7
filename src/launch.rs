//! A thread's place in a launch, and the indices computed from it.

use vstd::prelude::*;
use vstd::arithmetic::div_mod::{
    lemma_fundamental_div_mod,
    lemma_fundamental_div_mod_converse,
    lemma_mod_pos_bound,
    lemma_div_pos_is_pos,
};
use vstd::arithmetic::mul::lemma_mul_is_commutative;
use crate::dims::{UVec2, UVec3};

verus! {

/// What the hardware tells a thread about where it runs: its index in its
/// block, its block's index in the grid, and the dimensions of the block and
/// of the grid.
#[derive(Clone, Copy, Debug, PartialEq, Eq, Structural)]
pub struct ThreadContext {
    pub thread_idx: UVec3,
    pub block_idx: UVec3,
    pub block_dim: UVec3,
    pub grid_dim: UVec3,
}

/// Row-major flattening of `v` within a box of dimensions `d`: x varies
/// fastest, then y, then z.
pub open spec fn flatten(v: UVec3, d: UVec3) -> int {
    v.x + v.y * d.x + v.z * (d.x * d.y)
}

/// The number of threads in a launch of `grid_dim` blocks of `block_dim`
/// threads each.
pub open spec fn launch_size(grid_dim: UVec3, block_dim: UVec3) -> int {
    grid_dim.volume() * block_dim.volume()
}

/// A thread's global position along one axis.
pub open spec fn axis_position(thread_idx: usize, block_idx: usize, block_dim: usize) -> int {
    thread_idx + block_idx * block_dim
}

impl ThreadContext {
    /// The indices lie within the dimensions they count in.
    pub open spec fn wf(self) -> bool {
        self.thread_idx.below(self.block_dim) && self.block_idx.below(self.grid_dim)
    }

    /// Well formed, and the whole launch can be numbered by `usize`.
    pub open spec fn valid(self) -> bool {
        self.wf() && launch_size(self.grid_dim, self.block_dim) <= usize::MAX
    }

    /// The thread belongs to the launch of `grid_dim` blocks of `block_dim`
    /// threads.
    pub open spec fn in_launch(self, grid_dim: UVec3, block_dim: UVec3) -> bool {
        self.grid_dim == grid_dim && self.block_dim == block_dim && self.wf()
    }

    /// The flattened index: the block's flattened index in the grid, times
    /// the threads per block, plus the thread's flattened index in its block.
    pub open spec fn flat_index(self) -> int {
        flatten(self.block_idx, self.grid_dim) * self.block_dim.volume()
            + flatten(self.thread_idx, self.block_dim)
    }

    pub open spec fn is_first(self) -> bool {
        self.block_idx.is_zero() && self.thread_idx.is_zero()
    }
}

/// A pair `(a, b)` with `a < m` and `b < n`, written as `a + b * m`, lies
/// below `m * n`.
proof fn lemma_pair_below(a: int, b: int, m: int, n: int)
    requires
        0 <= a < m,
        0 <= b < n,
    ensures
        0 <= b * m,
        0 <= a + b * m < m * n,
{
    assert(0 <= b * m) by (nonlinear_arith)
        requires
            0 <= b,
            0 < m,
    ;
    assert(a + b * m < m * n) by (nonlinear_arith)
        requires
            0 <= a < m,
            0 <= b < n,
    ;
}

/// Where `n >= 1`, `m <= m * n`.
proof fn lemma_factor_le(m: int, n: int)
    requires
        0 <= m,
        1 <= n,
    ensures
        m <= m * n,
{
    assert(m <= m * n) by (nonlinear_arith)
        requires
            0 <= m,
            1 <= n,
    ;
}

/// The flattened index of `v` within `d` lies below the volume of `d`, and
/// bounds each of its terms.
proof fn lemma_flatten_below(v: UVec3, d: UVec3)
    requires
        v.below(d),
    ensures
        0 <= v.y * d.x,
        0 <= v.z * (d.x * d.y),
        v.x + v.y * d.x < d.x * d.y,
        0 <= flatten(v, d) < d.volume(),
{
    lemma_pair_below(v.x as int, v.y as int, d.x as int, d.y as int);
    lemma_pair_below(v.x + v.y * d.x, v.z as int, d.x * d.y, d.z as int);
}

/// Gets the overall thread index, accounting for 1d/2d/3d block and grid
/// dimensions. It is unique for every thread of the launch, whatever the
/// launch configuration.
pub fn index(ctx: &ThreadContext) -> (r: usize)
    requires
        ctx.valid(),
    ensures
        r == ctx.flat_index(),
{
    let grid_dim = ctx.grid_dim;
    let block_idx = ctx.block_idx;
    let block_dim = ctx.block_dim;
    let thread_idx = ctx.thread_idx;
    proof {
        let gv = grid_dim.volume();
        let bv = block_dim.volume();
        lemma_flatten_below(block_idx, grid_dim);
        lemma_flatten_below(thread_idx, block_dim);
        lemma_pair_below(
            flatten(thread_idx, block_dim),
            flatten(block_idx, grid_dim),
            bv,
            gv,
        );
        lemma_mul_is_commutative(gv, bv);
        lemma_factor_le(bv, gv);
        lemma_factor_le(gv, bv);
        lemma_factor_le(grid_dim.x * grid_dim.y, grid_dim.z as int);
        lemma_factor_le(block_dim.x * block_dim.y, block_dim.z as int);
    }
    let block_id = block_idx.x + block_idx.y * grid_dim.x
        + block_idx.z * (grid_dim.x * grid_dim.y);

    block_id * block_dim.product()
        + thread_idx.z * (block_dim.x * block_dim.y)
        + thread_idx.y * block_dim.x + thread_idx.x
}

/// The global position of the thread along x and y: on each axis, its index
/// in the block plus its block's index times the block's extent.
pub fn index_2d(ctx: &ThreadContext) -> (r: UVec2)
    requires
        axis_position(ctx.thread_idx.x, ctx.block_idx.x, ctx.block_dim.x) <= usize::MAX,
        axis_position(ctx.thread_idx.y, ctx.block_idx.y, ctx.block_dim.y) <= usize::MAX,
    ensures
        r.x == axis_position(ctx.thread_idx.x, ctx.block_idx.x, ctx.block_dim.x),
        r.y == axis_position(ctx.thread_idx.y, ctx.block_idx.y, ctx.block_dim.y),
{
    let i = axis_index(ctx.thread_idx.x, ctx.block_idx.x, ctx.block_dim.x);
    let j = axis_index(ctx.thread_idx.y, ctx.block_idx.y, ctx.block_dim.y);
    UVec2::new(i, j)
}

/// The global position of the thread along x, y and z.
pub fn index_3d(ctx: &ThreadContext) -> (r: UVec3)
    requires
        axis_position(ctx.thread_idx.x, ctx.block_idx.x, ctx.block_dim.x) <= usize::MAX,
        axis_position(ctx.thread_idx.y, ctx.block_idx.y, ctx.block_dim.y) <= usize::MAX,
        axis_position(ctx.thread_idx.z, ctx.block_idx.z, ctx.block_dim.z) <= usize::MAX,
    ensures
        r.x == axis_position(ctx.thread_idx.x, ctx.block_idx.x, ctx.block_dim.x),
        r.y == axis_position(ctx.thread_idx.y, ctx.block_idx.y, ctx.block_dim.y),
        r.z == axis_position(ctx.thread_idx.z, ctx.block_idx.z, ctx.block_dim.z),
{
    let i = axis_index(ctx.thread_idx.x, ctx.block_idx.x, ctx.block_dim.x);
    let j = axis_index(ctx.thread_idx.y, ctx.block_idx.y, ctx.block_dim.y);
    let k = axis_index(ctx.thread_idx.z, ctx.block_idx.z, ctx.block_dim.z);
    UVec3::new(i, j, k)
}

fn axis_index(thread_idx: usize, block_idx: usize, block_dim: usize) -> (r: usize)
    requires
        axis_position(thread_idx, block_idx, block_dim) <= usize::MAX,
    ensures
        r == axis_position(thread_idx, block_idx, block_dim),
{
    assert(0 <= block_idx * block_dim) by (nonlinear_arith);
    thread_idx + block_idx * block_dim
}

/// Whether this is the first thread of the launch (not the first to run):
/// the one whose block and thread indices are both zero.
pub fn first(ctx: &ThreadContext) -> (r: bool)
    ensures
        r == ctx.is_first(),
{
    ctx.block_idx == UVec3::zero() && ctx.thread_idx == UVec3::zero()
}

impl ThreadContext {
    /// Tells whether the context is valid: every index within its dimension,
    /// and the launch small enough to number by `usize`.
    pub fn is_valid(&self) -> (r: bool)
        ensures
            r == self.valid(),
    {
        if !(self.thread_idx.x < self.block_dim.x && self.thread_idx.y < self.block_dim.y
            && self.thread_idx.z < self.block_dim.z && self.block_idx.x < self.grid_dim.x
            && self.block_idx.y < self.grid_dim.y && self.block_idx.z < self.grid_dim.z) {
            return false;
        }
        let g = &self.grid_dim;
        let b = &self.block_dim;
        proof {
            lemma_factor_le(g.x * g.y, g.z as int);
            lemma_factor_le(b.x * b.y, b.z as int);
            lemma_factor_le(g.volume(), b.x as int);
            lemma_factor_le(g.volume() * b.x, b.y as int);
            lemma_factor_le(g.volume() * b.x * b.y, b.z as int);
            lemma_factor_le(g.x as int, g.y as int);
            assert(g.volume() * b.volume() == g.volume() * b.x * b.y * b.z) by (nonlinear_arith);
        }
        match g.x.checked_mul(g.y) {
            None => false,
            Some(gxy) => match gxy.checked_mul(g.z) {
                None => false,
                Some(gv) => match gv.checked_mul(b.x) {
                    None => false,
                    Some(p) => match p.checked_mul(b.y) {
                        None => false,
                        Some(q) => q.checked_mul(b.z).is_some(),
                    },
                },
            },
        }
    }
}

/// In a valid context the global position along each axis fits in a `usize`:
/// a thread whose context is valid may ask for `index_2d` and `index_3d`.
pub proof fn lemma_valid_positions_fit(ctx: ThreadContext)
    requires
        ctx.valid(),
    ensures
        axis_position(ctx.thread_idx.x, ctx.block_idx.x, ctx.block_dim.x) <= usize::MAX,
        axis_position(ctx.thread_idx.y, ctx.block_idx.y, ctx.block_dim.y) <= usize::MAX,
        axis_position(ctx.thread_idx.z, ctx.block_idx.z, ctx.block_dim.z) <= usize::MAX,
{
    let g = ctx.grid_dim;
    let b = ctx.block_dim;
    let t = ctx.thread_idx;
    let k = ctx.block_idx;
    assert(t.x + k.x * b.x < g.x * b.x && t.y + k.y * b.y < g.y * b.y && t.z + k.z * b.z < g.z
        * b.z) by (nonlinear_arith)
        requires
            t.below(b),
            k.below(g),
    ;
    assert(g.x * b.x <= launch_size(g, b) && g.y * b.y <= launch_size(g, b) && g.z * b.z
        <= launch_size(g, b)) by (nonlinear_arith)
        requires
            t.below(b),
            k.below(g),
            launch_size(g, b) == (g.x * g.y * g.z) * (b.x * b.y * b.z),
    ;
}

/// Both halves of a pair `a + b * m` with `a < m` are determined by its value.
proof fn lemma_pair_unique(a1: int, b1: int, a2: int, b2: int, m: int)
    requires
        0 <= a1 < m,
        0 <= a2 < m,
        a1 + b1 * m == a2 + b2 * m,
    ensures
        a1 == a2,
        b1 == b2,
{
    let v = a1 + b1 * m;
    lemma_fundamental_div_mod_converse(v, m, b1, a1);
    lemma_fundamental_div_mod_converse(v, m, b2, a2);
}

/// Splits `k < m * n` into the pair `(k % m, k / m)`.
proof fn lemma_pair_split(k: int, m: int, n: int)
    requires
        0 <= k < m * n,
        0 < m,
    ensures
        0 <= k % m < m,
        0 <= k / m < n,
        k == k % m + (k / m) * m,
{
    lemma_fundamental_div_mod(k, m);
    lemma_mod_pos_bound(k, m);
    lemma_div_pos_is_pos(k, m);
    lemma_mul_is_commutative(m, k / m);
    let q = k / m;
    assert(q < n) by (nonlinear_arith)
        requires
            0 <= q,
            0 < m,
            q * m <= k,
            k < m * n,
    ;
}

/// Flattening within `d` is one to one on the indices below `d`.
proof fn lemma_flatten_unique(v: UVec3, w: UVec3, d: UVec3)
    requires
        v.below(d),
        w.below(d),
        flatten(v, d) == flatten(w, d),
    ensures
        v == w,
{
    lemma_flatten_below(v, d);
    lemma_flatten_below(w, d);
    lemma_pair_unique(
        v.x + v.y * d.x,
        v.z as int,
        w.x + w.y * d.x,
        w.z as int,
        d.x * d.y,
    );
    lemma_pair_unique(v.x as int, v.y as int, w.x as int, w.y as int, d.x as int);
}

/// The indices below `d` that flatten to `k`.
spec fn unflatten(k: int, d: UVec3) -> UVec3 {
    let plane = d.x * d.y;
    let r = k % plane;
    UVec3 { x: (r % (d.x as int)) as usize, y: (r / (d.x as int)) as usize, z: (k / plane) as usize }
}

/// Every `k` below the volume of `d` is the flattening of some indices below `d`.
proof fn lemma_flatten_onto(k: int, d: UVec3)
    requires
        0 <= k < d.volume(),
    ensures
        unflatten(k, d).below(d),
        flatten(unflatten(k, d), d) == k,
{
    let plane = d.x * d.y;
    assert(0 < d.x && 0 < d.y) by (nonlinear_arith)
        requires
            0 <= k < d.x * d.y * d.z,
    ;
    assert(0 < plane) by (nonlinear_arith)
        requires
            plane == d.x * d.y,
            0 < d.x,
            0 < d.y,
    ;
    lemma_pair_split(k, plane, d.z as int);
    let r = k % plane;
    lemma_pair_split(r, d.x as int, d.y as int);
}

/// Some thread of the launch of `grid_dim` blocks of `block_dim` threads has
/// the flattened index `n`.
pub open spec fn index_taken(grid_dim: UVec3, block_dim: UVec3, n: int) -> bool {
    exists|c: ThreadContext| c.in_launch(grid_dim, block_dim) && #[trigger] c.flat_index() == n
}

/// Over all threads of a launch, the flattened index is a bijection onto
/// `0 .. launch_size(grid_dim, block_dim)`: it lies in that range, no two
/// threads share it, and every value in the range is some thread's.
pub proof fn lemma_index_bijective(grid_dim: UVec3, block_dim: UVec3)
    ensures
        forall|c: ThreadContext|
            c.in_launch(grid_dim, block_dim) ==> 0 <= #[trigger] c.flat_index() < launch_size(
                grid_dim,
                block_dim,
            ),
        forall|c1: ThreadContext, c2: ThreadContext|
            c1.in_launch(grid_dim, block_dim) && c2.in_launch(grid_dim, block_dim)
                && #[trigger] c1.flat_index() == #[trigger] c2.flat_index() ==> c1 == c2,
        forall|n: int|
            0 <= n < launch_size(grid_dim, block_dim) ==> #[trigger] index_taken(
                grid_dim,
                block_dim,
                n,
            ),
{
    let gv = grid_dim.volume();
    let bv = block_dim.volume();
    lemma_mul_is_commutative(gv, bv);
    assert forall|c: ThreadContext| c.in_launch(grid_dim, block_dim) implies 0
        <= #[trigger] c.flat_index() < launch_size(grid_dim, block_dim) by {
        lemma_flatten_below(c.block_idx, grid_dim);
        lemma_flatten_below(c.thread_idx, block_dim);
        lemma_pair_below(flatten(c.thread_idx, block_dim), flatten(c.block_idx, grid_dim), bv, gv);
    }
    assert forall|c1: ThreadContext, c2: ThreadContext|
        c1.in_launch(grid_dim, block_dim) && c2.in_launch(grid_dim, block_dim)
            && #[trigger] c1.flat_index() == #[trigger] c2.flat_index() implies c1 == c2 by {
        lemma_flatten_below(c1.thread_idx, block_dim);
        lemma_flatten_below(c2.thread_idx, block_dim);
        lemma_pair_unique(
            flatten(c1.thread_idx, block_dim),
            flatten(c1.block_idx, grid_dim),
            flatten(c2.thread_idx, block_dim),
            flatten(c2.block_idx, grid_dim),
            bv,
        );
        lemma_flatten_unique(c1.thread_idx, c2.thread_idx, block_dim);
        lemma_flatten_unique(c1.block_idx, c2.block_idx, grid_dim);
    }
    assert forall|n: int| 0 <= n < launch_size(grid_dim, block_dim) implies #[trigger] index_taken(
        grid_dim,
        block_dim,
        n,
    ) by {
        assert(0 < bv && 0 <= gv) by (nonlinear_arith)
            requires
                0 <= n < gv * bv,
                gv >= 0,
                bv >= 0,
        ;
        lemma_pair_split(n, bv, gv);
        lemma_flatten_onto(n % bv, block_dim);
        lemma_flatten_onto(n / bv, grid_dim);
        let c = ThreadContext {
            thread_idx: unflatten(n % bv, block_dim),
            block_idx: unflatten(n / bv, grid_dim),
            block_dim,
            grid_dim,
        };
        assert(c.in_launch(grid_dim, block_dim));
        assert(c.flat_index() == n);
    }
}

/// In a one-dimensional launch the flattened index is the thread's global
/// position along x.
pub proof fn lemma_index_1d(ctx: ThreadContext)
    requires
        ctx.wf(),
        ctx.grid_dim.y == 1,
        ctx.grid_dim.z == 1,
        ctx.block_dim.y == 1,
        ctx.block_dim.z == 1,
    ensures
        ctx.flat_index() == axis_position(ctx.thread_idx.x, ctx.block_idx.x, ctx.block_dim.x),
{
    let t = ctx.thread_idx;
    let b = ctx.block_idx;
    let bd = ctx.block_dim;
    let gd = ctx.grid_dim;
    assert(ctx.flat_index() == t.x + b.x * bd.x) by (nonlinear_arith)
        requires
            t.y == 0,
            t.z == 0,
            b.y == 0,
            b.z == 0,
            bd.y == 1,
            bd.z == 1,
            ctx.flat_index() == flatten(b, gd) * bd.volume() + flatten(t, bd),
            flatten(b, gd) == b.x + b.y * gd.x + b.z * (gd.x * gd.y),
            flatten(t, bd) == t.x + t.y * bd.x + t.z * (bd.x * bd.y),
            bd.volume() == bd.x * bd.y * bd.z,
    ;
}

/// Exactly one thread of a non-empty launch is the first: some thread of the
/// launch is, no two distinct ones are, and it is the one whose flattened
/// index is zero.
pub proof fn lemma_first_unique(grid_dim: UVec3, block_dim: UVec3)
    requires
        grid_dim.nonempty(),
        block_dim.nonempty(),
    ensures
        exists|c: ThreadContext| c.in_launch(grid_dim, block_dim) && #[trigger] c.is_first(),
        forall|c1: ThreadContext, c2: ThreadContext|
            c1.in_launch(grid_dim, block_dim) && c2.in_launch(grid_dim, block_dim)
                && #[trigger] c1.is_first() && #[trigger] c2.is_first() ==> c1 == c2,
        forall|c: ThreadContext|
            c.in_launch(grid_dim, block_dim) ==> (#[trigger] c.is_first() <==> c.flat_index()
                == 0),
{
    let z = UVec3 { x: 0, y: 0, z: 0 };
    let c0 = ThreadContext { thread_idx: z, block_idx: z, block_dim, grid_dim };
    assert(c0.in_launch(grid_dim, block_dim) && c0.is_first());
    assert(c0.flat_index() == 0) by (nonlinear_arith)
        requires
            c0.thread_idx.is_zero(),
            c0.block_idx.is_zero(),
    ;
    lemma_index_bijective(grid_dim, block_dim);
    assert forall|c: ThreadContext| c.in_launch(grid_dim, block_dim) implies (
    #[trigger] c.is_first() <==> c.flat_index() == 0) by {
        if c.is_first() {
            assert(c == c0);
        }
        if c.flat_index() == 0 {
            assert(c.flat_index() == c0.flat_index());
        }
    }
}

} // verus!
