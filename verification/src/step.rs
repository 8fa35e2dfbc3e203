//! The generation step: Conway's rules applied to every cell at once.
//!
//! A live cell survives with exactly two or three live neighbors; a dead
//! cell comes alive with exactly three; every other cell is dead in the
//! next generation. The step is pure: it reads one generation and builds
//! the next in a fresh grid, so no cell sees a half-updated neighborhood.

use crate::grid::{Dimensions, Grid};
use crate::neighbors::BoundaryPolicy;
use vstd::prelude::*;

verus! {

/// Conway's rule for one cell: its next state from its current state and
/// its number of live neighbors.
pub open spec fn next_state(alive: bool, live_neighbors: int) -> bool {
    if alive {
        live_neighbors == 2 || live_neighbors == 3
    } else {
        live_neighbors == 3
    }
}

impl Grid {
    /// The state of the cell at `(col, row)` in the next generation under
    /// the chosen boundary policy.
    pub open spec fn next_alive(self, policy: BoundaryPolicy, col: int, row: int) -> bool {
        next_state(self.alive(col, row), self.neighbor_count_spec(policy, col, row))
    }

    /// `other` is the generation after `self`: same dimensions, and every
    /// cell carries the state Conway's rule assigns it.
    pub open spec fn steps_to(self, other: Grid, policy: BoundaryPolicy) -> bool {
        &&& other.dim == self.dim
        &&& forall|c: int, r: int|
            self.in_bounds(c, r) ==> #[trigger] other.alive(c, r) == self.next_alive(policy, c, r)
    }
}

/// Compute the next generation of `grid` under the chosen boundary policy.
/// The input grid is untouched; the result is a freshly built grid of the
/// same dimensions.
pub fn update_grid(grid: &Grid, policy: BoundaryPolicy) -> (next: Grid)
    requires
        grid.wf(),
    ensures
        next.wf(),
        grid.steps_to(next, policy),
{
    let w = grid.dim.width;
    let h = grid.dim.height;
    let mut cells: Vec<bool> = Vec::new();
    let mut row: usize = 0;
    while row < h
        invariant
            grid.wf(),
            w == grid.dim.width,
            h == grid.dim.height,
            row <= h,
            cells@.len() == row as int * grid.w(),
            forall|c: int, r: int|
                0 <= c < grid.w() && 0 <= r < row ==> cells@[r * grid.w() + c]
                    == #[trigger] grid.next_alive(policy, c, r),
        decreases h - row,
    {
        let mut col: usize = 0;
        while col < w
            invariant
                grid.wf(),
                w == grid.dim.width,
                h == grid.dim.height,
                row < h,
                col <= w,
                cells@.len() == row as int * grid.w() + col as int,
                forall|c: int, r: int|
                    0 <= c < grid.w() && 0 <= r < row ==> cells@[r * grid.w() + c]
                        == #[trigger] grid.next_alive(policy, c, r),
                forall|c: int|
                    0 <= c < col ==> cells@[row as int * grid.w() + c]
                        == #[trigger] grid.next_alive(policy, c, row as int),
            decreases w - col,
        {
            let n = grid.neighbor_count(col, row, policy);
            let was_alive = grid.cell_is_alive_at(col, row);
            let next_cell = if was_alive {
                n == 2 || n == 3
            } else {
                n == 3
            };
            let ghost prev = cells@;
            cells.push(next_cell);
            proof {
                let wi = grid.w();
                assert forall|c: int, r: int|
                    0 <= c < wi && 0 <= r < row as int implies cells@[r * wi + c]
                    == #[trigger] grid.next_alive(policy, c, r) by {
                    assert(r * wi + c < row as int * wi + col as int) by (nonlinear_arith)
                        requires
                            0 <= c < wi,
                            0 <= r,
                            r < row as int,
                            0 <= col as int,
                    {}
                }
                assert forall|c: int| 0 <= c < col as int + 1 implies cells@[row as int
                    * wi + c] == #[trigger] grid.next_alive(policy, c, row as int) by {
                    if c < col as int {
                        assert(prev[row as int * wi + c] == grid.next_alive(policy, c, row as int));
                    } else {
                        assert(cells@[row as int * wi + c] == next_cell);
                    }
                }
            }
            col = col + 1;
        }
        proof {
            assert(row as int * grid.w() + grid.w() == (row as int + 1) * grid.w())
                by (nonlinear_arith);
        }
        row = row + 1;
    }
    proof {
        assert(h as int * grid.w() == grid.w() * grid.h()) by (nonlinear_arith)
            requires
                grid.w() == w as int,
                grid.h() == h as int,
        {}
    }
    let next = Grid { dim: Dimensions { width: w, height: h }, cells };
    proof {
        assert forall|c: int, r: int| grid.in_bounds(c, r) implies #[trigger] next.alive(c, r)
            == grid.next_alive(policy, c, r) by {
            assert(next.cells@[r * grid.w() + c] == grid.next_alive(policy, c, r));
        }
    }
    next
}

} // verus!
