//! The grid rasterizer: bins particle positions into a square grid of
//! per-cell counts for snapshotting. A pure, read-only function of the
//! store; rasterizing twice without an intervening step gives identical
//! grids.

use vstd::prelude::*;

use crate::nbody::NBody;
use crate::vec3::Vec3;

verus! {

/// The flattened (row-major) grid cell a position falls into, if any: the
/// grid covers `resolution` cells of width `cell_size` along each axis
/// starting at `(xmin, ymin)`; positions outside it are rejected.
pub open spec fn cell_index(p: Vec3, xmin: int, ymin: int, cell_size: int, resolution: int) -> Option<
    int,
>
    recommends
        cell_size >= 1,
{
    if p.x < xmin || p.y < ymin {
        None
    } else {
        let cx = (p.x - xmin) / cell_size;
        let cy = (p.y - ymin) / cell_size;
        if cx < resolution && cy < resolution {
            Some(cy * resolution + cx)
        } else {
            None
        }
    }
}

/// How many positions of the sequence fall into the given cell.
pub open spec fn count_in_cell(
    s: Seq<Vec3>,
    xmin: int,
    ymin: int,
    cell_size: int,
    resolution: int,
    c: int,
) -> nat
    decreases s.len(),
{
    if s.len() == 0 {
        0
    } else {
        count_in_cell(s.drop_last(), xmin, ymin, cell_size, resolution, c) + if cell_index(
            s.last(),
            xmin,
            ymin,
            cell_size,
            resolution,
        ) == Some(c) {
            1nat
        } else {
            0nat
        }
    }
}

/// A cell's count never exceeds the number of positions.
proof fn lemma_count_in_cell_le_len(
    s: Seq<Vec3>,
    xmin: int,
    ymin: int,
    cell_size: int,
    resolution: int,
    c: int,
)
    ensures
        count_in_cell(s, xmin, ymin, cell_size, resolution, c) <= s.len(),
    decreases s.len(),
{
    if s.len() > 0 {
        lemma_count_in_cell_le_len(s.drop_last(), xmin, ymin, cell_size, resolution, c);
    }
}

impl NBody {
    /// Bins every particle of both groups into a `resolution x resolution`
    /// grid of cells of width `cell_size` whose lower corner sits at
    /// `(xmin, ymin)`, and returns the per-cell counts, row-major.
    /// Positions outside the grid are not counted. The store is only read:
    /// the result is a function of the positions and the grid alone.
    #[verifier::loop_isolation(false)]
    pub fn count(&self, xmin: i64, ymin: i64, cell_size: i64, resolution: usize) -> (grid: Vec<
        u64,
    >)
        requires
            self@.wf(),
            -crate::math::COORD_LIMIT <= xmin <= crate::math::COORD_LIMIT,
            -crate::math::COORD_LIMIT <= ymin <= crate::math::COORD_LIMIT,
            1 <= cell_size,
            1 <= resolution,
            resolution * resolution <= usize::MAX,
            self@.mpos.len() + self@.gpos.len() <= u64::MAX,
        ensures
            grid@.len() == resolution * resolution,
            forall|c: int|
                0 <= c < grid@.len() ==> #[trigger] grid@[c] == count_in_cell(
                    self@.mpos,
                    xmin as int,
                    ymin as int,
                    cell_size as int,
                    resolution as int,
                    c,
                ) + count_in_cell(
                    self@.gpos,
                    xmin as int,
                    ymin as int,
                    cell_size as int,
                    resolution as int,
                    c,
                ),
    {
        let ghost xi = xmin as int;
        let ghost yi = ymin as int;
        let ghost ci = cell_size as int;
        let ghost ri = resolution as int;
        let cells: usize = resolution * resolution;
        let mut grid: Vec<u64> = Vec::new();
        let mut c: usize = 0;
        while c < cells
            invariant
                grid@.len() == c as int,
                c <= cells,
                forall|k: int| 0 <= k < c as int ==> #[trigger] grid@[k] == 0,
            decreases cells - c,
        {
            grid.push(0);
            c = c + 1;
        }

        let mpos = self.massive_positions();
        let n = mpos.len();
        let mut i: usize = 0;
        while i < n
            invariant
                self@.wf(),
                -crate::math::COORD_LIMIT <= xmin <= crate::math::COORD_LIMIT,
                -crate::math::COORD_LIMIT <= ymin <= crate::math::COORD_LIMIT,
                1 <= cell_size,
                1 <= resolution,
                mpos@ == self@.mpos,
                n == mpos@.len(),
                i <= n,
                cells == resolution * resolution,
                self@.mpos.len() + self@.gpos.len() <= u64::MAX,
                grid@.len() == cells,
                forall|k: int|
                    0 <= k < grid@.len() ==> #[trigger] grid@[k] == count_in_cell(
                        self@.mpos.take(i as int),
                        xi,
                        yi,
                        ci,
                        ri,
                        k,
                    ),
            decreases n - i,
        {
            let p = mpos[i];
            proof {
                assert(self@.mpos.take(i + 1).drop_last() =~= self@.mpos.take(i as int));
                assert(self@.mpos.take(i + 1).last() == self@.mpos[i as int]);
                lemma_count_in_cell_le_len(self@.mpos.take(i as int), xi, yi, ci, ri,
                    cell_index(p, xi, yi, ci, ri)->Some_0);
            }
            if p.x >= xmin && p.y >= ymin {
                let cx: u64 = ((p.x - xmin) as u64) / (cell_size as u64);
                let cy: u64 = ((p.y - ymin) as u64) / (cell_size as u64);
                if cx < (resolution as u64) && cy < (resolution as u64) {
                    proof {
                        assert(cy as usize as int == cy as int);
                        assert(cx as usize as int == cx as int);
                        assert((cy as usize as int) * (resolution as int) + (cx as usize as int)
                            < (resolution as int) * (resolution as int)) by (nonlinear_arith)
                            requires
                                0 <= cy as usize as int,
                                (cy as usize as int) < (resolution as int),
                                0 <= cx as usize as int,
                                (cx as usize as int) < (resolution as int),
                        ;
                        assert(cell_index(p, xi, yi, ci, ri) == Some(
                            (cy as usize as int) * (resolution as int) + cx as int,
                        ));
                    }
                    let cell: usize = (cy as usize) * resolution + (cx as usize);
                    grid[cell] = grid[cell] + 1;
                }
            }
            proof {
                assert forall|k: int| 0 <= k < grid@.len() implies #[trigger] grid@[k]
                    == count_in_cell(self@.mpos.take(i + 1), xi, yi, ci, ri, k) by {
                    assert(count_in_cell(self@.mpos.take(i + 1), xi, yi, ci, ri, k)
                        == count_in_cell(self@.mpos.take(i as int), xi, yi, ci, ri, k)
                        + if cell_index(self@.mpos[i as int], xi, yi, ci, ri) == Some(k) {
                        1nat
                    } else {
                        0nat
                    });
                }
            }
            i = i + 1;
        }
        proof {
            assert(self@.mpos.take(n as int) =~= self@.mpos);
        }

        let gpos = self.ghost_positions();
        let m = gpos.len();
        let mut i: usize = 0;
        while i < m
            invariant
                self@.wf(),
                -crate::math::COORD_LIMIT <= xmin <= crate::math::COORD_LIMIT,
                -crate::math::COORD_LIMIT <= ymin <= crate::math::COORD_LIMIT,
                1 <= cell_size,
                1 <= resolution,
                gpos@ == self@.gpos,
                m == gpos@.len(),
                i <= m,
                cells == resolution * resolution,
                self@.mpos.len() + self@.gpos.len() <= u64::MAX,
                grid@.len() == cells,
                forall|k: int|
                    0 <= k < grid@.len() ==> #[trigger] grid@[k] == count_in_cell(
                        self@.mpos,
                        xi,
                        yi,
                        ci,
                        ri,
                        k,
                    ) + count_in_cell(self@.gpos.take(i as int), xi, yi, ci, ri, k),
            decreases m - i,
        {
            let p = gpos[i];
            proof {
                assert(self@.gpos.take(i + 1).drop_last() =~= self@.gpos.take(i as int));
                assert(self@.gpos.take(i + 1).last() == self@.gpos[i as int]);
                lemma_count_in_cell_le_len(self@.mpos, xi, yi, ci, ri,
                    cell_index(p, xi, yi, ci, ri)->Some_0);
                lemma_count_in_cell_le_len(self@.gpos.take(i as int), xi, yi, ci, ri,
                    cell_index(p, xi, yi, ci, ri)->Some_0);
            }
            if p.x >= xmin && p.y >= ymin {
                let cx: u64 = ((p.x - xmin) as u64) / (cell_size as u64);
                let cy: u64 = ((p.y - ymin) as u64) / (cell_size as u64);
                if cx < (resolution as u64) && cy < (resolution as u64) {
                    proof {
                        assert(cy as usize as int == cy as int);
                        assert(cx as usize as int == cx as int);
                        assert((cy as usize as int) * (resolution as int) + (cx as usize as int)
                            < (resolution as int) * (resolution as int)) by (nonlinear_arith)
                            requires
                                0 <= cy as usize as int,
                                (cy as usize as int) < (resolution as int),
                                0 <= cx as usize as int,
                                (cx as usize as int) < (resolution as int),
                        ;
                        assert(cell_index(p, xi, yi, ci, ri) == Some(
                            (cy as usize as int) * (resolution as int) + cx as int,
                        ));
                    }
                    let cell: usize = (cy as usize) * resolution + (cx as usize);
                    grid[cell] = grid[cell] + 1;
                }
            }
            proof {
                assert forall|k: int| 0 <= k < grid@.len() implies #[trigger] grid@[k]
                    == count_in_cell(self@.mpos, xi, yi, ci, ri, k) + count_in_cell(
                    self@.gpos.take(i + 1),
                    xi,
                    yi,
                    ci,
                    ri,
                    k,
                ) by {
                    assert(count_in_cell(self@.gpos.take(i + 1), xi, yi, ci, ri, k)
                        == count_in_cell(self@.gpos.take(i as int), xi, yi, ci, ri, k)
                        + if cell_index(self@.gpos[i as int], xi, yi, ci, ri) == Some(k) {
                        1nat
                    } else {
                        0nat
                    });
                }
            }
            i = i + 1;
        }
        proof {
            assert(self@.gpos.take(m as int) =~= self@.gpos);
        }
        grid
    }
}

} // verus!
