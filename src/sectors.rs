//! The sector grid: a partition of the particles into the cells of a rows-by-cols grid.
use vstd::prelude::*;
use crate::fixed::UNIT;
use crate::vec2::Vec2;

verus! {

/// Largest number of rows or columns of a sector grid.
pub const MAX_GRID_CELLS: usize = 1000;

/// Size of the arena in whole units: positions range over `[0, width*UNIT] x [0, height*UNIT]`.
#[derive(Clone, Copy, Debug, PartialEq, Eq, Structural)]
pub struct Bounds {
    pub width: u32,
    pub height: u32,
}

impl Bounds {
    pub fn new(width: u32, height: u32) -> (r: Bounds)
        ensures
            r.width == width,
            r.height == height,
    {
        Bounds { width, height }
    }

    pub open spec fn valid(self) -> bool {
        self.width > 0 && self.height > 0
    }

    /// Largest x coordinate inside the arena, in sub-units.
    pub open spec fn max_x(self) -> int {
        self.width * UNIT
    }

    /// Largest y coordinate inside the arena, in sub-units.
    pub open spec fn max_y(self) -> int {
        self.height * UNIT
    }
}

/// Resolution of the sector grid.
#[derive(Clone, Copy, Debug, PartialEq, Eq, Structural)]
pub struct Grid {
    pub rows: usize,
    pub cols: usize,
}

impl Grid {
    pub open spec fn wf(self) -> bool {
        1 <= self.rows <= MAX_GRID_CELLS && 1 <= self.cols <= MAX_GRID_CELLS
    }

    pub open spec fn num_buckets(self) -> int {
        self.rows * self.cols
    }
}

/// Cell index along one axis: `floor(coord / (extent / cells))`, that is
/// `floor(coord * cells / extent)`, clamped to `[0, cells - 1]`.
#[verifier::opaque]
pub open spec fn axis_cell(coord: int, extent: int, cells: int) -> int {
    let c = (coord * cells) / extent;
    if c < 0 {
        0
    } else if c > cells - 1 {
        cells - 1
    } else {
        c
    }
}

/// The bucket `row * cols + col` that holds a particle at `p`.
pub open spec fn bucket_of(p: Vec2, bounds: Bounds, grid: Grid) -> int {
    axis_cell(p.y as int, bounds.max_y(), grid.rows as int) * grid.cols + axis_cell(
        p.x as int,
        bounds.max_x(),
        grid.cols as int,
    )
}

/// Indices below `k`, ascending, of the particles whose bucket is `b`.
pub open spec fn members_upto(
    pos: Seq<Vec2>,
    k: int,
    bounds: Bounds,
    grid: Grid,
    b: int,
) -> Seq<usize>
    decreases k,
{
    if k <= 0 {
        Seq::empty()
    } else {
        let prev = members_upto(pos, k - 1, bounds, grid, b);
        if bucket_of(pos[k - 1], bounds, grid) == b {
            prev.push((k - 1) as usize)
        } else {
            prev
        }
    }
}

/// Indices, ascending, of the particles whose bucket is `b`.
pub open spec fn members(pos: Seq<Vec2>, bounds: Bounds, grid: Grid, b: int) -> Seq<usize> {
    members_upto(pos, pos.len() as int, bounds, grid, b)
}

proof fn lemma_grid_size(grid: Grid)
    requires
        grid.wf(),
    ensures
        1 <= grid.num_buckets() <= 1_000_000,
{
    assert(1 <= grid.rows * grid.cols <= 1_000_000) by (nonlinear_arith)
        requires
            1 <= grid.rows <= 1000,
            1 <= grid.cols <= 1000,
    ;
}

proof fn lemma_axis_cell_range(coord: int, extent: int, cells: int)
    requires
        1 <= cells,
        1 <= extent,
    ensures
        0 <= axis_cell(coord, extent, cells) < cells,
{
    reveal(axis_cell);
}

pub proof fn lemma_bucket_range(p: Vec2, bounds: Bounds, grid: Grid)
    requires
        bounds.valid(),
        grid.wf(),
    ensures
        0 <= bucket_of(p, bounds, grid) < grid.num_buckets(),
{
    let r = axis_cell(p.y as int, bounds.max_y(), grid.rows as int);
    let c = axis_cell(p.x as int, bounds.max_x(), grid.cols as int);
    lemma_axis_cell_range(p.y as int, bounds.max_y(), grid.rows as int);
    lemma_axis_cell_range(p.x as int, bounds.max_x(), grid.cols as int);
    assert(0 <= r * grid.cols + c < grid.rows * grid.cols) by (nonlinear_arith)
        requires
            0 <= r < grid.rows,
            0 <= c < grid.cols,
    ;
}

proof fn lemma_members_upto(pos: Seq<Vec2>, k: int, bounds: Bounds, grid: Grid, b: int)
    requires
        0 <= k <= pos.len(),
        pos.len() <= usize::MAX,
    ensures
        members_upto(pos, k, bounds, grid, b).len() <= k,
        forall|j: int|
            0 <= j < members_upto(pos, k, bounds, grid, b).len() ==> #[trigger] members_upto(
                pos,
                k,
                bounds,
                grid,
                b,
            )[j] < k,
        forall|j1: int, j2: int|
            0 <= j1 < j2 < members_upto(pos, k, bounds, grid, b).len() ==> #[trigger] members_upto(
                pos,
                k,
                bounds,
                grid,
                b,
            )[j1] < #[trigger] members_upto(pos, k, bounds, grid, b)[j2],
        forall|i: int|
            0 <= i < k ==> (members_upto(pos, k, bounds, grid, b).contains(i as usize) <==> b
                == bucket_of(#[trigger] pos[i], bounds, grid)),
    decreases k,
{
    if k > 0 {
        lemma_members_upto(pos, k - 1, bounds, grid, b);
        let prev = members_upto(pos, k - 1, bounds, grid, b);
        let m = members_upto(pos, k, bounds, grid, b);
        let last = (k - 1) as usize;
        if bucket_of(pos[k - 1], bounds, grid) == b {
            assert(m == prev.push(last));
            assert forall|j1: int, j2: int| 0 <= j1 < j2 < m.len() implies #[trigger] m[j1]
                < #[trigger] m[j2] by {
                if j2 < prev.len() {
                    assert(prev[j1] < prev[j2]);
                } else {
                    assert(prev[j1] < k - 1);
                }
            }
        }
        assert forall|i: int| 0 <= i < k implies (m.contains(i as usize) <==> b == bucket_of(
            #[trigger] pos[i],
            bounds,
            grid,
        )) by {
            if i < k - 1 {
                if prev.contains(i as usize) {
                    let j = choose|j: int| 0 <= j < prev.len() && prev[j] == i as usize;
                    assert(m[j] == i as usize);
                }
                if m.contains(i as usize) {
                    let j = choose|j: int| 0 <= j < m.len() && m[j] == i as usize;
                    if j < prev.len() {
                        assert(prev[j] == i as usize);
                    } else {
                        assert(m[j] == last);
                    }
                }
            } else {
                if b == bucket_of(pos[i], bounds, grid) {
                    assert(m[m.len() - 1] == i as usize);
                } else {
                    if m.contains(i as usize) {
                        let j = choose|j: int| 0 <= j < m.len() && m[j] == i as usize;
                        assert(prev[j] < k - 1);
                    }
                }
            }
        }
    }
}

/// Every particle lies in exactly one bucket: a bucket's list holds, once each and
/// ascending, exactly the indices of the particles whose position maps to that bucket, and
/// each particle's bucket is a valid bucket id.
pub proof fn lemma_partition_complete(pos: Seq<Vec2>, bounds: Bounds, grid: Grid)
    requires
        pos.len() <= usize::MAX,
        bounds.valid(),
        grid.wf(),
    ensures
        forall|i: int|
            0 <= i < pos.len() ==> 0 <= bucket_of(#[trigger] pos[i], bounds, grid)
                < grid.num_buckets(),
        forall|i: int, b: int|
            0 <= i < pos.len() && 0 <= b < grid.num_buckets() ==> (#[trigger] members(
                pos,
                bounds,
                grid,
                b,
            ).contains(i as usize) <==> b == bucket_of(pos[i], bounds, grid)),
        forall|b: int|
            0 <= b < grid.num_buckets() ==> (#[trigger] members(
                pos,
                bounds,
                grid,
                b,
            )).no_duplicates(),
        forall|b: int, j: int|
            0 <= b < grid.num_buckets() && 0 <= j < members(pos, bounds, grid, b).len()
                ==> #[trigger] members(pos, bounds, grid, b)[j] < pos.len(),
        forall|b: int|
            0 <= b < grid.num_buckets() ==> #[trigger] members(pos, bounds, grid, b).len()
                <= pos.len(),
{
    assert forall|b: int| 0 <= b < grid.num_buckets() implies #[trigger] members(
        pos,
        bounds,
        grid,
        b,
    ).len() <= pos.len() by {
        lemma_members_upto(pos, pos.len() as int, bounds, grid, b);
    }
    assert forall|i: int| 0 <= i < pos.len() implies 0 <= bucket_of(
        #[trigger] pos[i],
        bounds,
        grid,
    ) < grid.num_buckets() by {
        lemma_bucket_range(pos[i], bounds, grid);
    }
    assert forall|i: int, b: int|
        0 <= i < pos.len() && 0 <= b < grid.num_buckets() implies (#[trigger] members(
        pos,
        bounds,
        grid,
        b,
    ).contains(i as usize) <==> b == bucket_of(pos[i], bounds, grid)) by {
        lemma_members_upto(pos, pos.len() as int, bounds, grid, b);
    }
    assert forall|b: int| 0 <= b < grid.num_buckets() implies (#[trigger] members(
        pos,
        bounds,
        grid,
        b,
    )).no_duplicates() by {
        lemma_members_upto(pos, pos.len() as int, bounds, grid, b);
        let m = members(pos, bounds, grid, b);
        assert forall|j1: int, j2: int| 0 <= j1 < m.len() && 0 <= j2 < m.len() && j1 != j2 implies m[j1]
            != m[j2] by {
            if j1 < j2 {
                assert(m[j1] < m[j2]);
            } else {
                assert(m[j2] < m[j1]);
            }
        }
    }
    assert forall|b: int, j: int|
        0 <= b < grid.num_buckets() && 0 <= j < members(pos, bounds, grid, b).len() implies #[trigger] members(
        pos,
        bounds,
        grid,
        b,
    )[j] < pos.len() by {
        lemma_members_upto(pos, pos.len() as int, bounds, grid, b);
    }
}

/// Cell index along one axis of the coordinate `coord`.
fn axis_cell_exec(coord: i64, extent: i64, cells: usize) -> (r: usize)
    requires
        1 <= cells <= MAX_GRID_CELLS,
        1 <= extent,
    ensures
        r == axis_cell(coord as int, extent as int, cells as int),
        r < cells,
{
    proof {
        reveal(axis_cell);
    }
    if coord < 0 {
        assert((coord * cells) / (extent as int) < 0) by (nonlinear_arith)
            requires
                coord < 0,
                cells >= 1,
                extent >= 1,
        ;
        0
    } else {
        assert(0 <= coord * cells <= 9_223_372_036_854_775_807 * 1000) by (nonlinear_arith)
            requires
                0 <= coord <= 9_223_372_036_854_775_807,
                1 <= cells <= 1000,
        ;
        let c: i128 = (coord as i128) * (cells as i128) / (extent as i128);
        assert(c >= 0) by (nonlinear_arith)
            requires
                c == (coord * cells) / (extent as int),
                coord * cells >= 0,
                extent >= 1,
        ;
        if c > (cells as i128) - 1 {
            cells - 1
        } else {
            c as usize
        }
    }
}

/// The bucket that holds a particle at `p`.
pub fn sector_of(p: Vec2, bounds: Bounds, grid: Grid) -> (r: usize)
    requires
        bounds.valid(),
        grid.wf(),
    ensures
        r == bucket_of(p, bounds, grid),
        r < grid.num_buckets(),
{
    proof {
        lemma_bucket_range(p, bounds, grid);
        lemma_grid_size(grid);
    }
    let w: i64 = (bounds.width as i64) * UNIT;
    let h: i64 = (bounds.height as i64) * UNIT;
    let row = axis_cell_exec(p.y, h, grid.rows);
    let col = axis_cell_exec(p.x, w, grid.cols);
    row * grid.cols + col
}

/// Builds the sector grid of `positions`: entry `b` lists, ascending, the indices of the
/// particles whose bucket is `b`.
pub fn update_sectors(positions: &Vec<Vec2>, bounds: Bounds, grid: Grid) -> (r: Vec<Vec<usize>>)
    requires
        bounds.valid(),
        grid.wf(),
    ensures
        r@.len() == grid.num_buckets(),
        forall|b: int|
            0 <= b < grid.num_buckets() ==> #[trigger] r@[b]@ == members(
                positions@,
                bounds,
                grid,
                b,
            ),
{
    proof {
        lemma_grid_size(grid);
    }
    let nb: usize = grid.rows * grid.cols;
    let mut buckets: Vec<Vec<usize>> = Vec::new();
    let mut b: usize = 0;
    while b < nb
        invariant
            nb == grid.num_buckets(),
            b <= nb,
            buckets@.len() == b,
            forall|c: int| 0 <= c < b ==> (#[trigger] buckets@[c])@ == Seq::<usize>::empty(),
        decreases nb - b,
    {
        buckets.push(Vec::new());
        b = b + 1;
    }
    let n = positions.len();
    let mut i: usize = 0;
    while i < n
        invariant
            n == positions@.len(),
            nb == grid.num_buckets(),
            bounds.valid(),
            grid.wf(),
            i <= n,
            buckets@.len() == nb,
            forall|c: int|
                0 <= c < nb ==> (#[trigger] buckets@[c])@ == members_upto(
                    positions@,
                    i as int,
                    bounds,
                    grid,
                    c,
                ),
        decreases n - i,
    {
        let s = sector_of(positions[i], bounds, grid);
        buckets[s].push(i);
        i = i + 1;
    }
    buckets
}

} // verus!
