//! Neighbor counting under an explicit boundary policy.
//!
//! Every cell has eight geometric neighbor positions, one per offset in
//! `{-1, 0, 1} x {-1, 0, 1}` other than `(0, 0)`. A position that falls
//! outside the grid is either wrapped around modulo the matching dimension
//! (toroidal grid) or excluded from the count (clipping). The two policies
//! are not equivalent and a caller picks one explicitly.

use crate::grid::{Cell, Grid};
use vstd::prelude::*;

verus! {

/// The eight neighbor positions of a cell that lie inside the grid,
/// split into the live ones and the dead ones.
pub struct Neighbours {
    pub alive: Vec<Cell>,
    pub dead: Vec<Cell>,
}

/// How neighbor positions outside the grid are treated.
#[derive(Clone, Copy, PartialEq, Eq, Structural, Debug)]
pub enum BoundaryPolicy {
    /// Out-of-range coordinates wrap around: the column axis modulo the
    /// width, the row axis modulo the height (the grid is a torus).
    Wrapping,
    /// Out-of-range coordinates are simply not counted; edge and corner
    /// cells have fewer than eight candidate neighbors.
    Clipping,
}

impl Grid {
    /// A column coordinate one step out of range, brought back modulo the
    /// width. For `-1 <= c <= width`, this is `c` modulo the width.
    pub open spec fn wrap_col(self, c: int) -> int {
        if c < 0 {
            c + self.w()
        } else if c >= self.w() {
            c - self.w()
        } else {
            c
        }
    }

    /// A row coordinate one step out of range, brought back modulo the
    /// height. For `-1 <= r <= height`, this is `r` modulo the height.
    pub open spec fn wrap_row(self, r: int) -> int {
        if r < 0 {
            r + self.h()
        } else if r >= self.h() {
            r - self.h()
        } else {
            r
        }
    }

    /// Contribution of the position `(c, r)` to a wrapping neighbor count:
    /// one exactly when the cell at the wrapped position is alive.
    pub open spec fn wrap_term(self, c: int, r: int) -> int {
        if self.alive(self.wrap_col(c), self.wrap_row(r)) {
            1
        } else {
            0
        }
    }

    /// Contribution of the position `(c, r)` to a clipping neighbor count:
    /// one exactly when `(c, r)` is in bounds and alive.
    pub open spec fn clip_term(self, c: int, r: int) -> int {
        if self.in_bounds(c, r) && self.alive(c, r) {
            1
        } else {
            0
        }
    }

    /// Live neighbors of `(col, row)` under the wrapping policy: the sum,
    /// over the eight offsets, of the state at the wrapped position.
    pub open spec fn count_wrapping_spec(self, col: int, row: int) -> int {
        self.wrap_term(col - 1, row - 1) + self.wrap_term(col, row - 1) + self.wrap_term(
            col + 1,
            row - 1,
        ) + self.wrap_term(col - 1, row) + self.wrap_term(col + 1, row) + self.wrap_term(
            col - 1,
            row + 1,
        ) + self.wrap_term(col, row + 1) + self.wrap_term(col + 1, row + 1)
    }

    /// Live neighbors of `(col, row)` under the clipping policy: the sum,
    /// over the eight offsets, of the state at the position, where an
    /// out-of-bounds position contributes nothing.
    pub open spec fn count_clipping_spec(self, col: int, row: int) -> int {
        self.clip_term(col - 1, row - 1) + self.clip_term(col, row - 1) + self.clip_term(
            col + 1,
            row - 1,
        ) + self.clip_term(col - 1, row) + self.clip_term(col + 1, row) + self.clip_term(
            col - 1,
            row + 1,
        ) + self.clip_term(col, row + 1) + self.clip_term(col + 1, row + 1)
    }

    /// The position `(c, r)` as a one-element sequence if it is in bounds
    /// and alive, and the empty sequence otherwise.
    pub open spec fn live_at(self, c: int, r: int) -> Seq<Cell> {
        if self.in_bounds(c, r) && self.alive(c, r) {
            seq![Cell { col: c as usize, row: r as usize }]
        } else {
            Seq::empty()
        }
    }

    /// The position `(c, r)` as a one-element sequence if it is in bounds
    /// and dead, and the empty sequence otherwise.
    pub open spec fn dead_at(self, c: int, r: int) -> Seq<Cell> {
        if self.in_bounds(c, r) && !self.alive(c, r) {
            seq![Cell { col: c as usize, row: r as usize }]
        } else {
            Seq::empty()
        }
    }

    /// The in-bounds neighbor positions of `(col, row)` that are alive, in
    /// a fixed order: left to right within each row, top row first.
    pub open spec fn clip_live_neighbors(self, col: int, row: int) -> Seq<Cell> {
        self.live_at(col - 1, row - 1) + self.live_at(col, row - 1) + self.live_at(
            col + 1,
            row - 1,
        ) + self.live_at(col - 1, row) + self.live_at(col + 1, row) + self.live_at(
            col - 1,
            row + 1,
        ) + self.live_at(col, row + 1) + self.live_at(col + 1, row + 1)
    }

    /// The in-bounds neighbor positions of `(col, row)` that are dead, in
    /// the same fixed order.
    pub open spec fn clip_dead_neighbors(self, col: int, row: int) -> Seq<Cell> {
        self.dead_at(col - 1, row - 1) + self.dead_at(col, row - 1) + self.dead_at(
            col + 1,
            row - 1,
        ) + self.dead_at(col - 1, row) + self.dead_at(col + 1, row) + self.dead_at(
            col - 1,
            row + 1,
        ) + self.dead_at(col, row + 1) + self.dead_at(col + 1, row + 1)
    }

    /// Live neighbors of `(col, row)` under the chosen policy.
    pub open spec fn neighbor_count_spec(self, policy: BoundaryPolicy, col: int, row: int) -> int {
        match policy {
            BoundaryPolicy::Wrapping => self.count_wrapping_spec(col, row),
            BoundaryPolicy::Clipping => self.count_clipping_spec(col, row),
        }
    }

    /// Count the live cells among the eight neighbor positions of
    /// `(col, row)` under the chosen boundary policy.
    pub fn neighbor_count(&self, col: usize, row: usize, policy: BoundaryPolicy) -> (n: usize)
        requires
            self.wf(),
            self.in_bounds(col as int, row as int),
        ensures
            n == self.neighbor_count_spec(policy, col as int, row as int),
            n <= 8,
    {
        match policy {
            BoundaryPolicy::Wrapping => self.count_wrapping(col, row),
            BoundaryPolicy::Clipping => self.count_clipping(col, row),
        }
    }

    /// Wrapping count: wrap each of the eight positions onto the torus.
    #[verifier::rlimit(50)]
    fn count_wrapping(&self, col: usize, row: usize) -> (n: usize)
        requires
            self.wf(),
            self.in_bounds(col as int, row as int),
        ensures
            n == self.count_wrapping_spec(col as int, row as int),
            n <= 8,
    {
        let w = self.dim.width;
        let h = self.dim.height;
        let cl = if col == 0 { w - 1 } else { col - 1 };
        let cr = if col + 1 == w { 0 } else { col + 1 };
        let ru = if row == 0 { h - 1 } else { row - 1 };
        let rd = if row + 1 == h { 0 } else { row + 1 };
        proof {
            assert(cl as int == self.wrap_col(col as int - 1));
            assert(cr as int == self.wrap_col(col as int + 1));
            assert(ru as int == self.wrap_row(row as int - 1));
            assert(rd as int == self.wrap_row(row as int + 1));
        }
        let mut n: usize = 0;
        if self.cell_is_alive_at(cl, ru) {
            n = n + 1;
        }
        if self.cell_is_alive_at(col, ru) {
            n = n + 1;
        }
        if self.cell_is_alive_at(cr, ru) {
            n = n + 1;
        }
        if self.cell_is_alive_at(cl, row) {
            n = n + 1;
        }
        if self.cell_is_alive_at(cr, row) {
            n = n + 1;
        }
        if self.cell_is_alive_at(cl, rd) {
            n = n + 1;
        }
        if self.cell_is_alive_at(col, rd) {
            n = n + 1;
        }
        if self.cell_is_alive_at(cr, rd) {
            n = n + 1;
        }
        n
    }

    /// Clipping count: skip each of the eight positions that falls off
    /// the edge of the grid.
    fn count_clipping(&self, col: usize, row: usize) -> (n: usize)
        requires
            self.wf(),
            self.in_bounds(col as int, row as int),
        ensures
            n == self.count_clipping_spec(col as int, row as int),
            n <= 8,
    {
        let w = self.dim.width;
        let h = self.dim.height;
        let mut n: usize = 0;
        if col > 0 && row > 0 && self.cell_is_alive_at(col - 1, row - 1) {
            n = n + 1;
        }
        if row > 0 && self.cell_is_alive_at(col, row - 1) {
            n = n + 1;
        }
        if col + 1 < w && row > 0 && self.cell_is_alive_at(col + 1, row - 1) {
            n = n + 1;
        }
        if col > 0 && self.cell_is_alive_at(col - 1, row) {
            n = n + 1;
        }
        if col + 1 < w && self.cell_is_alive_at(col + 1, row) {
            n = n + 1;
        }
        if col > 0 && row + 1 < h && self.cell_is_alive_at(col - 1, row + 1) {
            n = n + 1;
        }
        if row + 1 < h && self.cell_is_alive_at(col, row + 1) {
            n = n + 1;
        }
        if col + 1 < w && row + 1 < h && self.cell_is_alive_at(col + 1, row + 1) {
            n = n + 1;
        }
        n
    }

    /// Record the in-bounds candidate position `(c2, r2)`: on the live
    /// list if its cell is alive, on the dead list otherwise.
    fn push_candidate(&self, c2: usize, r2: usize, living: &mut Vec<Cell>, gone: &mut Vec<Cell>)
        requires
            self.wf(),
            self.in_bounds(c2 as int, r2 as int),
        ensures
            final(living)@ == old(living)@ + self.live_at(c2 as int, r2 as int),
            final(gone)@ == old(gone)@ + self.dead_at(c2 as int, r2 as int),
    {
        if self.cell_is_alive_at(c2, r2) {
            living.push(Cell { col: c2, row: r2 });
        } else {
            gone.push(Cell { col: c2, row: r2 });
        }
        proof {
            assert(living@ =~= old(living)@ + self.live_at(c2 as int, r2 as int));
            assert(gone@ =~= old(gone)@ + self.dead_at(c2 as int, r2 as int));
        }
    }

    /// The in-bounds neighbor positions of `(col, row)` (clipping
    /// boundary), partitioned into the live ones and the dead ones, each
    /// in the fixed order of `clip_live_neighbors` / `clip_dead_neighbors`.
    #[verifier::rlimit(50)]
    pub fn get_neighbours(&self, col: usize, row: usize) -> (nb: Neighbours)
        requires
            self.wf(),
            self.in_bounds(col as int, row as int),
        ensures
            nb.alive@ == self.clip_live_neighbors(col as int, row as int),
            nb.dead@ == self.clip_dead_neighbors(col as int, row as int),
            nb.alive@.len() == self.count_clipping_spec(col as int, row as int),
    {
        let w = self.dim.width;
        let h = self.dim.height;
        let ghost ci = col as int;
        let ghost ri = row as int;
        let mut living: Vec<Cell> = Vec::new();
        let mut gone: Vec<Cell> = Vec::new();
        let ghost lp1 = living@;
        let ghost gp1 = gone@;
        if col > 0 && row > 0 {
            self.push_candidate(col - 1, row - 1, &mut living, &mut gone);
        }
        proof {
            assert(living@ =~= lp1 + self.live_at(ci - 1, ri - 1));
            assert(gone@ =~= gp1 + self.dead_at(ci - 1, ri - 1));
        }
        let ghost lp2 = living@;
        let ghost gp2 = gone@;
        if row > 0 {
            self.push_candidate(col, row - 1, &mut living, &mut gone);
        }
        proof {
            assert(living@ =~= lp2 + self.live_at(ci, ri - 1));
            assert(gone@ =~= gp2 + self.dead_at(ci, ri - 1));
        }
        let ghost lp3 = living@;
        let ghost gp3 = gone@;
        if col + 1 < w && row > 0 {
            self.push_candidate(col + 1, row - 1, &mut living, &mut gone);
        }
        proof {
            assert(living@ =~= lp3 + self.live_at(ci + 1, ri - 1));
            assert(gone@ =~= gp3 + self.dead_at(ci + 1, ri - 1));
        }
        let ghost lp4 = living@;
        let ghost gp4 = gone@;
        if col > 0 {
            self.push_candidate(col - 1, row, &mut living, &mut gone);
        }
        proof {
            assert(living@ =~= lp4 + self.live_at(ci - 1, ri));
            assert(gone@ =~= gp4 + self.dead_at(ci - 1, ri));
        }
        let ghost lp5 = living@;
        let ghost gp5 = gone@;
        if col + 1 < w {
            self.push_candidate(col + 1, row, &mut living, &mut gone);
        }
        proof {
            assert(living@ =~= lp5 + self.live_at(ci + 1, ri));
            assert(gone@ =~= gp5 + self.dead_at(ci + 1, ri));
        }
        let ghost lp6 = living@;
        let ghost gp6 = gone@;
        if col > 0 && row + 1 < h {
            self.push_candidate(col - 1, row + 1, &mut living, &mut gone);
        }
        proof {
            assert(living@ =~= lp6 + self.live_at(ci - 1, ri + 1));
            assert(gone@ =~= gp6 + self.dead_at(ci - 1, ri + 1));
        }
        let ghost lp7 = living@;
        let ghost gp7 = gone@;
        if row + 1 < h {
            self.push_candidate(col, row + 1, &mut living, &mut gone);
        }
        proof {
            assert(living@ =~= lp7 + self.live_at(ci, ri + 1));
            assert(gone@ =~= gp7 + self.dead_at(ci, ri + 1));
        }
        let ghost lp8 = living@;
        let ghost gp8 = gone@;
        if col + 1 < w && row + 1 < h {
            self.push_candidate(col + 1, row + 1, &mut living, &mut gone);
        }
        proof {
            assert(living@ =~= lp8 + self.live_at(ci + 1, ri + 1));
            assert(gone@ =~= gp8 + self.dead_at(ci + 1, ri + 1));
            assert(living@ =~= self.clip_live_neighbors(ci, ri));
            assert(gone@ =~= self.clip_dead_neighbors(ci, ri));
        }
        Neighbours { alive: living, dead: gone }
    }
}

} // verus!
