//! General properties of the automaton, stated once for all grids and
//! proved against the specifications of the other modules.

use crate::grid::Grid;
use crate::neighbors::BoundaryPolicy;
use vstd::prelude::*;

verus! {

/// Every in-bounds cell of `g` is dead.
pub open spec fn all_dead(g: Grid) -> bool {
    forall|c: int, r: int| g.in_bounds(c, r) ==> !(#[trigger] g.alive(c, r))
}

/// The live cells of `g` are exactly a two-by-two block whose upper-left
/// corner sits at `(col, row)`.
pub open spec fn is_block(g: Grid, col: int, row: int) -> bool {
    forall|c: int, r: int|
        g.in_bounds(c, r) ==> (#[trigger] g.alive(c, r) <==> ((c == col || c == col + 1) && (r
            == row || r == row + 1)))
}

/// The live cells of `g` are exactly a horizontal triple centered at
/// `(col, row)`.
pub open spec fn is_blinker_h(g: Grid, col: int, row: int) -> bool {
    forall|c: int, r: int|
        g.in_bounds(c, r) ==> (#[trigger] g.alive(c, r) <==> (r == row && col - 1 <= c <= col
            + 1))
}

/// The live cells of `g` are exactly a vertical triple centered at
/// `(col, row)`.
pub open spec fn is_blinker_v(g: Grid, col: int, row: int) -> bool {
    forall|c: int, r: int|
        g.in_bounds(c, r) ==> (#[trigger] g.alive(c, r) <==> (c == col && row - 1 <= r <= row
            + 1))
}

/// One if the cell at `(c, r)` is alive, zero otherwise (bounds ignored).
pub open spec fn live_bit(g: Grid, c: int, r: int) -> int {
    if g.alive(c, r) {
        1
    } else {
        0
    }
}

/// The number of the eight geometric neighbors of `(col, row)` that are
/// alive, with no boundary treatment at all.
pub open spec fn geometric_live_count(g: Grid, col: int, row: int) -> int {
    live_bit(g, col - 1, row - 1) + live_bit(g, col, row - 1) + live_bit(g, col + 1, row - 1)
        + live_bit(g, col - 1, row) + live_bit(g, col + 1, row) + live_bit(g, col - 1, row + 1)
        + live_bit(g, col, row + 1) + live_bit(g, col + 1, row + 1)
}

/// In an all-dead grid every cell has zero live neighbors, under either
/// boundary policy.
pub proof fn lemma_all_dead_count_zero(g: Grid, policy: BoundaryPolicy, col: int, row: int)
    requires
        g.wf(),
        all_dead(g),
        g.in_bounds(col, row),
    ensures
        g.neighbor_count_spec(policy, col, row) == 0,
{
    assert(g.in_bounds(g.wrap_col(col - 1), g.wrap_row(row - 1)));
    assert(g.in_bounds(g.wrap_col(col), g.wrap_row(row - 1)));
    assert(g.in_bounds(g.wrap_col(col + 1), g.wrap_row(row - 1)));
    assert(g.in_bounds(g.wrap_col(col - 1), g.wrap_row(row)));
    assert(g.in_bounds(g.wrap_col(col + 1), g.wrap_row(row)));
    assert(g.in_bounds(g.wrap_col(col - 1), g.wrap_row(row + 1)));
    assert(g.in_bounds(g.wrap_col(col), g.wrap_row(row + 1)));
    assert(g.in_bounds(g.wrap_col(col + 1), g.wrap_row(row + 1)));
}

/// Quiescence: one step of an all-dead grid is all-dead again, under
/// either boundary policy; repeating the step therefore never revives
/// anything.
pub proof fn lemma_quiescence(g: Grid, next: Grid, policy: BoundaryPolicy)
    requires
        g.wf(),
        all_dead(g),
        g.steps_to(next, policy),
    ensures
        all_dead(next),
{
    assert forall|c: int, r: int| next.in_bounds(c, r) implies !(#[trigger] next.alive(c, r)) by {
        assert(g.in_bounds(c, r));
        lemma_all_dead_count_zero(g, policy, c, r);
        assert(next.alive(c, r) == g.next_alive(policy, c, r));
    }
}

/// A live cell with zero live neighbors is dead in the next generation,
/// under either boundary policy.
pub proof fn lemma_isolated_cell_dies(g: Grid, policy: BoundaryPolicy, col: int, row: int)
    requires
        g.wf(),
        g.in_bounds(col, row),
        g.alive(col, row),
        g.neighbor_count_spec(policy, col, row) == 0,
    ensures
        !g.next_alive(policy, col, row),
{
}

/// In the interior of the grid the neighbor count does not depend on the
/// boundary policy: it is the number of the eight geometric neighbors
/// that are alive.
pub proof fn lemma_interior_count_policy_free(g: Grid, policy: BoundaryPolicy, col: int, row: int)
    requires
        g.wf(),
        1 <= col,
        col + 1 < g.w(),
        1 <= row,
        row + 1 < g.h(),
    ensures
        g.neighbor_count_spec(policy, col, row) == geometric_live_count(g, col, row),
{
    assert(g.wrap_col(col - 1) == col - 1);
    assert(g.wrap_col(col + 1) == col + 1);
    assert(g.wrap_row(row - 1) == row - 1);
    assert(g.wrap_row(row + 1) == row + 1);
}

/// Under the wrapping policy, the cell at the far end of a row is a
/// neighbor of the cell at column zero of the same row: with everything
/// else equal, its being alive raises the count at `(0, row)` by one.
/// (Width at least three keeps the two columns from also being directly
/// adjacent; height at least two keeps the diagonal wraps off that row.)
pub proof fn lemma_wrapping_counts_far_column(g1: Grid, g2: Grid, row: int)
    requires
        g1.wf(),
        g2.wf(),
        g2.dim == g1.dim,
        g1.w() >= 3,
        g1.h() >= 2,
        0 <= row < g1.h(),
        g1.alive(g1.w() - 1, row),
        !g2.alive(g1.w() - 1, row),
        forall|c: int, r: int|
            g1.in_bounds(c, r) && !(c == g1.w() - 1 && r == row) ==> #[trigger] g2.alive(c, r)
                == g1.alive(c, r),
    ensures
        g1.count_wrapping_spec(0, row) == g2.count_wrapping_spec(0, row) + 1,
{
    let w = g1.w();
    let ru = g1.wrap_row(row - 1);
    let rd = g1.wrap_row(row + 1);
    assert(g1.wrap_col(-1) == w - 1);
    assert(g1.wrap_col(0) == 0);
    assert(g1.wrap_col(1) == 1);
    assert(0 <= ru < g1.h() && ru != row);
    assert(0 <= rd < g1.h() && rd != row);
    assert(g1.wrap_term(-1, row) == 1);
    assert(g2.wrap_term(-1, row) == 0);
    assert(g2.wrap_term(-1, row - 1) == g1.wrap_term(-1, row - 1));
    assert(g2.wrap_term(0, row - 1) == g1.wrap_term(0, row - 1));
    assert(g2.wrap_term(1, row - 1) == g1.wrap_term(1, row - 1));
    assert(g2.wrap_term(1, row) == g1.wrap_term(1, row));
    assert(g2.wrap_term(-1, row + 1) == g1.wrap_term(-1, row + 1));
    assert(g2.wrap_term(0, row + 1) == g1.wrap_term(0, row + 1));
    assert(g2.wrap_term(1, row + 1) == g1.wrap_term(1, row + 1));
}

/// Under the clipping policy, the cell at the far end of a row is not a
/// neighbor of the cell at column zero of the same row: its state has no
/// bearing on the count at `(0, row)`. (Width at least three; at width
/// two the two columns are directly adjacent and are neighbors under
/// either policy.)
pub proof fn lemma_clipping_ignores_far_column(g1: Grid, g2: Grid, row: int)
    requires
        g1.wf(),
        g2.wf(),
        g2.dim == g1.dim,
        g1.w() >= 3,
        0 <= row < g1.h(),
        forall|c: int, r: int|
            g1.in_bounds(c, r) && !(c == g1.w() - 1 && r == row) ==> #[trigger] g2.alive(c, r)
                == g1.alive(c, r),
    ensures
        g1.count_clipping_spec(0, row) == g2.count_clipping_spec(0, row),
{
    assert(g2.clip_term(-1, row - 1) == g1.clip_term(-1, row - 1));
    assert(g2.clip_term(0, row - 1) == g1.clip_term(0, row - 1));
    assert(g2.clip_term(1, row - 1) == g1.clip_term(1, row - 1));
    assert(g2.clip_term(-1, row) == g1.clip_term(-1, row));
    assert(g2.clip_term(1, row) == g1.clip_term(1, row));
    assert(g2.clip_term(-1, row + 1) == g1.clip_term(-1, row + 1));
    assert(g2.clip_term(0, row + 1) == g1.clip_term(0, row + 1));
    assert(g2.clip_term(1, row + 1) == g1.clip_term(1, row + 1));
}

/// A two-by-two block is a still life under the clipping policy: the next
/// generation has exactly the same live cells, wherever in the grid the
/// block sits.
#[verifier::rlimit(100)]
#[verifier::spinoff_prover]
pub proof fn lemma_block_still_life(g: Grid, col: int, row: int)
    requires
        g.wf(),
        0 <= col,
        col + 1 < g.w(),
        0 <= row,
        row + 1 < g.h(),
        is_block(g, col, row),
    ensures
        forall|c: int, r: int|
            g.in_bounds(c, r) ==> #[trigger] g.next_alive(BoundaryPolicy::Clipping, c, r)
                == g.alive(c, r),
{
    assert forall|c: int, r: int| g.in_bounds(c, r) implies #[trigger] g.next_alive(
        BoundaryPolicy::Clipping,
        c,
        r,
    ) == g.alive(c, r) by {
        assert(g.clip_term(c - 1, r - 1) == if g.in_bounds(c - 1, r - 1) && g.alive(c - 1, r - 1) {
            1int
        } else {
            0int
        });
    }
}

/// One step turns a horizontal blinker into a vertical one (clipping
/// policy, with one cell of margin on every side).
#[verifier::rlimit(100)]
#[verifier::spinoff_prover]
pub proof fn lemma_blinker_h_to_v(g: Grid, next: Grid, col: int, row: int)
    requires
        g.wf(),
        1 <= col,
        col + 1 < g.w(),
        1 <= row,
        row + 1 < g.h(),
        is_blinker_h(g, col, row),
        g.steps_to(next, BoundaryPolicy::Clipping),
    ensures
        is_blinker_v(next, col, row),
{
    assert forall|c: int, r: int| next.in_bounds(c, r) implies (#[trigger] next.alive(c, r) <==> (c
        == col && row - 1 <= r <= row + 1)) by {
        assert(g.in_bounds(c, r));
        assert(next.alive(c, r) == g.next_alive(BoundaryPolicy::Clipping, c, r));
        assert(g.clip_term(c - 1, r - 1) == if g.in_bounds(c - 1, r - 1) && g.alive(c - 1, r - 1) {
            1int
        } else {
            0int
        });
    }
}

/// One step turns a vertical blinker back into a horizontal one (clipping
/// policy, with one cell of margin on every side).
#[verifier::rlimit(100)]
#[verifier::spinoff_prover]
pub proof fn lemma_blinker_v_to_h(g: Grid, next: Grid, col: int, row: int)
    requires
        g.wf(),
        1 <= col,
        col + 1 < g.w(),
        1 <= row,
        row + 1 < g.h(),
        is_blinker_v(g, col, row),
        g.steps_to(next, BoundaryPolicy::Clipping),
    ensures
        is_blinker_h(next, col, row),
{
    assert forall|c: int, r: int| next.in_bounds(c, r) implies (#[trigger] next.alive(c, r) <==> (r
        == row && col - 1 <= c <= col + 1)) by {
        assert(g.in_bounds(c, r));
        assert(next.alive(c, r) == g.next_alive(BoundaryPolicy::Clipping, c, r));
        assert(g.clip_term(c - 1, r - 1) == if g.in_bounds(c - 1, r - 1) && g.alive(c - 1, r - 1) {
            1int
        } else {
            0int
        });
    }
}

/// A blinker oscillates with period two: two steps from a horizontal
/// blinker restore every cell of the original grid (clipping policy, one
/// cell of margin on every side).
pub proof fn lemma_blinker_period_two(g: Grid, mid: Grid, last: Grid, col: int, row: int)
    requires
        g.wf(),
        mid.wf(),
        1 <= col,
        col + 1 < g.w(),
        1 <= row,
        row + 1 < g.h(),
        is_blinker_h(g, col, row),
        g.steps_to(mid, BoundaryPolicy::Clipping),
        mid.steps_to(last, BoundaryPolicy::Clipping),
    ensures
        is_blinker_v(mid, col, row),
        g.same_cells(last),
{
    lemma_blinker_h_to_v(g, mid, col, row);
    lemma_blinker_v_to_h(mid, last, col, row);
    assert forall|c: int, r: int| g.in_bounds(c, r) implies #[trigger] last.alive(c, r)
        == g.alive(c, r) by {
        assert(last.alive(c, r) <==> (r == row && col - 1 <= c <= col + 1));
    }
}

} // verus!
