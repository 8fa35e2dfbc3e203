//! The grid itself: a fixed width x height field of alive/dead cells.
//!
//! The logical model is a total function from in-bounds coordinates
//! `(col, row)` to a boolean (alive or dead); the storage is a dense
//! row-major `Vec<bool>` whose length equals `width * height`.

use vstd::prelude::*;

verus! {

/// Width and height of a grid, fixed at construction.
#[derive(Clone, Copy, PartialEq, Eq, Structural, Debug)]
pub struct Dimensions {
    pub width: usize,
    pub height: usize,
}

/// A coordinate pair: `col` counts from the left, `row` from the top.
#[derive(Clone, Copy, PartialEq, Eq, Structural, Debug)]
pub struct Cell {
    pub col: usize,
    pub row: usize,
}

/// A rectangular field of cells. `cells[row * width + col]` is true
/// exactly when the cell at `(col, row)` is alive.
pub struct Grid {
    pub dim: Dimensions,
    pub cells: Vec<bool>,
}

/// Row-major offsets of distinct in-bounds coordinates are in range.
pub proof fn lemma_offset_in_range(w: int, h: int, col: int, row: int)
    requires
        0 <= col < w,
        0 <= row < h,
    ensures
        0 <= row * w + col < w * h,
{
    assert(0 <= row * w + col < w * h) by (nonlinear_arith)
        requires
            0 <= col < w,
            0 <= row < h,
    {}
}

/// Row-major offsets of distinct in-bounds coordinates are distinct.
pub proof fn lemma_offset_injective(w: int, col1: int, row1: int, col2: int, row2: int)
    requires
        0 <= col1 < w,
        0 <= col2 < w,
        0 <= row1,
        0 <= row2,
        row1 * w + col1 == row2 * w + col2,
    ensures
        col1 == col2,
        row1 == row2,
{
    assert(col1 == col2 && row1 == row2) by (nonlinear_arith)
        requires
            0 <= col1 < w,
            0 <= col2 < w,
            0 <= row1,
            0 <= row2,
            row1 * w + col1 == row2 * w + col2,
    {}
}

impl Grid {
    /// Width as a mathematical integer.
    pub open spec fn w(self) -> int {
        self.dim.width as int
    }

    /// Height as a mathematical integer.
    pub open spec fn h(self) -> int {
        self.dim.height as int
    }

    /// Well-formed: the storage covers every in-bounds coordinate exactly once.
    pub open spec fn wf(self) -> bool {
        self.cells@.len() == self.w() * self.h()
    }

    /// Whether `(col, row)` lies inside the grid.
    pub open spec fn in_bounds(self, col: int, row: int) -> bool {
        0 <= col < self.w() && 0 <= row < self.h()
    }

    /// The state of the cell at `(col, row)`: true means alive.
    pub open spec fn alive(self, col: int, row: int) -> bool {
        self.cells@[row * self.w() + col]
    }

    /// Two grids agree on dimensions and on the state of every cell.
    pub open spec fn same_cells(self, other: Grid) -> bool {
        &&& other.dim == self.dim
        &&& forall|c: int, r: int|
            self.in_bounds(c, r) ==> other.alive(c, r) == self.alive(c, r)
    }

    /// Build a grid of the given dimensions whose live cells are exactly
    /// those listed in `alive_cells` (listing a cell twice is harmless).
    pub fn new(dim: Dimensions, alive_cells: Vec<Cell>) -> (g: Grid)
        requires
            dim.width as int * dim.height as int <= usize::MAX as int,
            forall|i: int|
                0 <= i < alive_cells@.len() ==> (#[trigger] alive_cells@[i]).col < dim.width
                    && alive_cells@[i].row < dim.height,
        ensures
            g.wf(),
            g.dim == dim,
            forall|c: int, r: int|
                g.in_bounds(c, r) ==> (#[trigger] g.alive(c, r) <==> alive_cells@.contains(
                    Cell { col: c as usize, row: r as usize },
                )),
    {
        let total = dim.width * dim.height;
        let mut cells: Vec<bool> = Vec::new();
        let mut k: usize = 0;
        while k < total
            invariant
                k <= total,
                cells@.len() == k,
                forall|i: int| 0 <= i < k ==> !(#[trigger] cells@[i]),
            decreases total - k,
        {
            cells.push(false);
            k = k + 1;
        }
        let mut g = Grid { dim, cells };
        proof {
            assert forall|c: int, r: int| g.in_bounds(c, r) implies !g.alive(c, r) by {
                lemma_offset_in_range(g.w(), g.h(), c, r);
            }
        }
        let mut i: usize = 0;
        while i < alive_cells.len()
            invariant
                i <= alive_cells@.len(),
                g.wf(),
                g.dim == dim,
                forall|j: int|
                    0 <= j < alive_cells@.len() ==> (#[trigger] alive_cells@[j]).col < dim.width
                        && alive_cells@[j].row < dim.height,
                forall|c: int, r: int|
                    g.in_bounds(c, r) ==> (#[trigger] g.alive(c, r) <==> exists|j: int|
                        0 <= j < i && alive_cells@[j] == (Cell {
                            col: c as usize,
                            row: r as usize,
                        })),
            decreases alive_cells@.len() - i,
        {
            let cl = alive_cells[i];
            let ghost pre = g;
            g.add_cell(cl.col, cl.row);
            proof {
                assert forall|c: int, r: int| g.in_bounds(c, r) implies (#[trigger] g.alive(c, r)
                    <==> exists|j: int|
                    0 <= j < i + 1 && alive_cells@[j] == (Cell {
                        col: c as usize,
                        row: r as usize,
                    })) by {
                    if c == cl.col as int && r == cl.row as int {
                        assert(alive_cells@[i as int] == (Cell {
                            col: c as usize,
                            row: r as usize,
                        }));
                    } else {
                        assert(g.alive(c, r) == pre.alive(c, r));
                    }
                }
            }
            i = i + 1;
        }
        proof {
            assert forall|c: int, r: int| g.in_bounds(c, r) implies (#[trigger] g.alive(c, r)
                <==> alive_cells@.contains(Cell { col: c as usize, row: r as usize })) by {
                assert(g.alive(c, r) <==> exists|j: int|
                    0 <= j < alive_cells@.len() && alive_cells@[j] == (Cell {
                        col: c as usize,
                        row: r as usize,
                    }));
            }
        }
        g
    }

    /// Whether the cell at `(col, row)` is alive.
    pub fn cell_is_alive_at(&self, col: usize, row: usize) -> (alive: bool)
        requires
            self.wf(),
            self.in_bounds(col as int, row as int),
        ensures
            alive == self.alive(col as int, row as int),
    {
        let total = self.cells.len();
        proof {
            lemma_offset_in_range(self.w(), self.h(), col as int, row as int);
            let off: int = (row as int) * self.w() + (col as int);
            let tot: int = total as int;
            assert(off < tot);
        }
        self.cells[row * self.dim.width + col]
    }

    /// Make the cell at `(col, row)` alive; every other cell is unchanged.
    pub fn add_cell(&mut self, col: usize, row: usize)
        requires
            old(self).wf(),
            old(self).in_bounds(col as int, row as int),
        ensures
            final(self).wf(),
            final(self).dim == old(self).dim,
            final(self).alive(col as int, row as int),
            forall|c: int, r: int|
                old(self).in_bounds(c, r) && !(c == col as int && r == row as int)
                    ==> final(self).alive(c, r) == old(self).alive(c, r),
    {
        self.set_cell(col, row, true);
    }

    /// Make the cell at `(col, row)` dead; every other cell is unchanged.
    pub fn remove_cell(&mut self, col: usize, row: usize)
        requires
            old(self).wf(),
            old(self).in_bounds(col as int, row as int),
        ensures
            final(self).wf(),
            final(self).dim == old(self).dim,
            !final(self).alive(col as int, row as int),
            forall|c: int, r: int|
                old(self).in_bounds(c, r) && !(c == col as int && r == row as int)
                    ==> final(self).alive(c, r) == old(self).alive(c, r),
    {
        self.set_cell(col, row, false);
    }

    /// Overwrite the state of the cell at `(col, row)`.
    fn set_cell(&mut self, col: usize, row: usize, state: bool)
        requires
            old(self).wf(),
            old(self).in_bounds(col as int, row as int),
        ensures
            final(self).wf(),
            final(self).dim == old(self).dim,
            final(self).alive(col as int, row as int) == state,
            forall|c: int, r: int|
                old(self).in_bounds(c, r) && !(c == col as int && r == row as int)
                    ==> final(self).alive(c, r) == old(self).alive(c, r),
    {
        let total = self.cells.len();
        proof {
            lemma_offset_in_range(self.w(), self.h(), col as int, row as int);
            let off: int = (row as int) * self.w() + (col as int);
            let tot: int = total as int;
            assert(off < tot);
        }
        let offset = row * self.dim.width + col;
        self.cells.set(offset, state);
        proof {
            assert forall|c: int, r: int|
                old(self).in_bounds(c, r) && !(c == col as int && r == row as int)
                    implies self.alive(c, r) == old(self).alive(c, r) by {
                lemma_offset_in_range(old(self).w(), old(self).h(), c, r);
                let target: int = (row as int) * old(self).w() + (col as int);
                if r * old(self).w() + c == target {
                    lemma_offset_injective(old(self).w(), c, r, col as int, row as int);
                }
            }
        }
    }
}

} // verus!
