//! A well-known seed pattern: the Gosper glider gun.

use crate::grid::{Dimensions, Grid};
use vstd::prelude::*;

verus! {

/// The live cells of the Gosper glider gun seed, on a 60 x 60 grid.
pub open spec fn gosper_seed(c: int, r: int) -> bool {
    (c == 1 && r == 5) || (c == 2 && r == 5) || (c == 1 && r == 6) || (c == 2 && r == 6)
        || (c == 11 && r == 5) || (c == 11 && r == 6) || (c == 11 && r == 7) || (c == 12 && r
        == 4) || (c == 12 && r == 8) || (c == 13 && r == 3) || (c == 13 && r == 9) || (c == 14
        && r == 3) || (c == 14 && r == 9) || (c == 15 && r == 6) || (c == 16 && r == 4) || (c
        == 16 && r == 8) || (c == 17 && r == 5) || (c == 17 && r == 6) || (c == 17 && r == 7)
        || (c == 18 && r == 6) || (c == 21 && r == 3) || (c == 21 && r == 4) || (c == 21 && r
        == 5) || (c == 22 && r == 3) || (c == 22 && r == 4) || (c == 22 && r == 5) || (c == 23
        && r == 2) || (c == 23 && r == 6) || (c == 25 && r == 1) || (c == 25 && r == 2) || (c
        == 25 && r == 6) || (c == 25 && r == 7) || (c == 35 && r == 3) || (c == 35 && r == 4)
        || (c == 36 && r == 3) || (c == 36 && r == 4)
}

/// Build a 60 x 60 grid seeded with the Gosper glider gun: the live
/// cells are exactly those of `gosper_seed`.
#[verifier::rlimit(100)]
#[verifier::spinoff_prover]
pub fn gosper_glider() -> (g: Grid)
    ensures
        g.wf(),
        g.dim.width == 60,
        g.dim.height == 60,
        forall|c: int, r: int|
            g.in_bounds(c, r) ==> (#[trigger] g.alive(c, r) <==> gosper_seed(c, r)),
{
    let mut g = Grid::new(Dimensions { width: 60, height: 60 }, Vec::new());
    g.add_cell(1, 5);
    g.add_cell(2, 5);
    g.add_cell(1, 6);
    g.add_cell(2, 6);
    g.add_cell(11, 5);
    g.add_cell(11, 6);
    g.add_cell(11, 7);
    g.add_cell(12, 4);
    g.add_cell(12, 8);
    g.add_cell(13, 3);
    g.add_cell(13, 9);
    g.add_cell(14, 3);
    g.add_cell(14, 9);
    g.add_cell(15, 6);
    g.add_cell(16, 4);
    g.add_cell(16, 8);
    g.add_cell(17, 5);
    g.add_cell(17, 6);
    g.add_cell(17, 7);
    g.add_cell(18, 6);
    g.add_cell(21, 3);
    g.add_cell(21, 4);
    g.add_cell(21, 5);
    g.add_cell(22, 3);
    g.add_cell(22, 4);
    g.add_cell(22, 5);
    g.add_cell(23, 2);
    g.add_cell(23, 6);
    g.add_cell(25, 1);
    g.add_cell(25, 2);
    g.add_cell(25, 6);
    g.add_cell(25, 7);
    g.add_cell(35, 3);
    g.add_cell(35, 4);
    g.add_cell(36, 3);
    g.add_cell(36, 4);
    g
}

} // verus!
