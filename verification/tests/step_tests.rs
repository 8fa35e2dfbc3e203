use life::grid::{Cell, Dimensions, Grid};
use life::neighbors::BoundaryPolicy;
use life::step::update_grid;

fn grid_from(width: usize, height: usize, live: &[(usize, usize)]) -> Grid {
    let mut seed: Vec<Cell> = Vec::new();
    for &(col, row) in live {
        seed.push(Cell { col, row });
    }
    Grid::new(Dimensions { width, height }, seed)
}

fn live_cells(g: &Grid) -> Vec<(usize, usize)> {
    let mut out: Vec<(usize, usize)> = Vec::new();
    for row in 0..g.dim.height {
        for col in 0..g.dim.width {
            if g.cell_is_alive_at(col, row) {
                out.push((col, row));
            }
        }
    }
    out
}

#[test]
fn lone_center_cell_dies_under_either_policy() {
    // 3x3 grid, all dead but the center: the center has zero live
    // neighbors in every direction, so one step empties the grid.
    for policy in [BoundaryPolicy::Clipping, BoundaryPolicy::Wrapping] {
        let g = grid_from(3, 3, &[(1, 1)]);
        let next = update_grid(&g, policy);
        assert!(live_cells(&next).is_empty());
    }
}

#[test]
fn dead_grid_stays_dead() {
    for policy in [BoundaryPolicy::Clipping, BoundaryPolicy::Wrapping] {
        let mut g = grid_from(5, 4, &[]);
        for _ in 0..3 {
            g = update_grid(&g, policy);
            assert!(live_cells(&g).is_empty());
        }
    }
}

#[test]
fn block_is_a_still_life_under_clipping() {
    let g = grid_from(4, 4, &[(1, 1), (2, 1), (1, 2), (2, 2)]);
    let next = update_grid(&g, BoundaryPolicy::Clipping);
    assert_eq!(live_cells(&next), vec![(1, 1), (2, 1), (1, 2), (2, 2)]);
}

#[test]
fn block_in_a_corner_is_still_a_still_life_under_clipping() {
    let g = grid_from(3, 3, &[(0, 0), (1, 0), (0, 1), (1, 1)]);
    let next = update_grid(&g, BoundaryPolicy::Clipping);
    assert_eq!(live_cells(&next), vec![(0, 0), (1, 0), (0, 1), (1, 1)]);
}

#[test]
fn blinker_oscillates_with_period_two() {
    let g = grid_from(5, 5, &[(1, 2), (2, 2), (3, 2)]);
    let mid = update_grid(&g, BoundaryPolicy::Clipping);
    assert_eq!(live_cells(&mid), vec![(2, 1), (2, 2), (2, 3)]);
    let back = update_grid(&mid, BoundaryPolicy::Clipping);
    assert_eq!(live_cells(&back), vec![(1, 2), (2, 2), (3, 2)]);
}

#[test]
fn blinker_wraps_across_the_top_edge() {
    // A horizontal blinker on the top row of a torus flips into a
    // vertical one whose upper cell wraps to the bottom row.
    let g = grid_from(5, 5, &[(0, 0), (1, 0), (2, 0)]);
    let next = update_grid(&g, BoundaryPolicy::Wrapping);
    assert_eq!(live_cells(&next), vec![(1, 0), (1, 1), (1, 4)]);
}

#[test]
fn dead_cell_with_exactly_three_neighbors_is_born() {
    let g = grid_from(4, 4, &[(0, 1), (1, 1), (2, 1)]);
    let next = update_grid(&g, BoundaryPolicy::Clipping);
    // (1,0) and (1,2) each touch all three live cells.
    assert!(next.cell_is_alive_at(1, 0));
    assert!(next.cell_is_alive_at(1, 2));
    // (0,0) touches only two of them and stays dead.
    assert!(!next.cell_is_alive_at(0, 0));
}

#[test]
fn overcrowded_cell_dies() {
    // The center of a plus sign has four live neighbors and dies.
    let g = grid_from(5, 5, &[(2, 2), (1, 2), (3, 2), (2, 1), (2, 3)]);
    let next = update_grid(&g, BoundaryPolicy::Clipping);
    assert!(!next.cell_is_alive_at(2, 2));
}

#[test]
fn survivor_with_two_neighbors_stays_alive() {
    let g = grid_from(5, 5, &[(1, 2), (2, 2), (3, 2)]);
    let next = update_grid(&g, BoundaryPolicy::Clipping);
    assert!(next.cell_is_alive_at(2, 2));
    assert!(!next.cell_is_alive_at(1, 2));
    assert!(!next.cell_is_alive_at(3, 2));
}

#[test]
fn update_grid_leaves_the_input_unchanged() {
    let g = grid_from(4, 4, &[(1, 1), (2, 1), (1, 2), (2, 2)]);
    let before = live_cells(&g);
    let _ = update_grid(&g, BoundaryPolicy::Clipping);
    assert_eq!(live_cells(&g), before);
}
