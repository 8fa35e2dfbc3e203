use life::grid::{Cell, Dimensions, Grid};
use life::neighbors::BoundaryPolicy;

fn grid_from(width: usize, height: usize, live: &[(usize, usize)]) -> Grid {
    let mut seed: Vec<Cell> = Vec::new();
    for &(col, row) in live {
        seed.push(Cell { col, row });
    }
    Grid::new(Dimensions { width, height }, seed)
}

#[test]
fn new_marks_exactly_the_listed_cells() {
    let g = grid_from(4, 3, &[(0, 0), (2, 1), (3, 2)]);
    for row in 0..3 {
        for col in 0..4 {
            let expected = (col, row) == (0, 0) || (col, row) == (2, 1) || (col, row) == (3, 2);
            assert_eq!(g.cell_is_alive_at(col, row), expected);
        }
    }
}

#[test]
fn new_tolerates_a_repeated_cell() {
    let g = grid_from(2, 2, &[(1, 1), (1, 1)]);
    assert!(g.cell_is_alive_at(1, 1));
    assert!(!g.cell_is_alive_at(0, 0));
    assert!(!g.cell_is_alive_at(1, 0));
    assert!(!g.cell_is_alive_at(0, 1));
}

#[test]
fn add_cell_then_remove_cell_round_trip() {
    let mut g = grid_from(3, 3, &[(0, 2)]);
    g.add_cell(1, 1);
    assert!(g.cell_is_alive_at(1, 1));
    assert!(g.cell_is_alive_at(0, 2));
    g.remove_cell(1, 1);
    assert!(!g.cell_is_alive_at(1, 1));
    assert!(g.cell_is_alive_at(0, 2));
}

#[test]
fn get_neighbours_splits_live_and_dead() {
    let g = grid_from(3, 3, &[(0, 0), (1, 1)]);
    let nb = g.get_neighbours(0, 0);
    // In-bounds neighbors of the corner, in fixed order: (1,0), (0,1), (1,1).
    assert_eq!(nb.alive.len(), 1);
    assert_eq!(nb.alive[0], Cell { col: 1, row: 1 });
    assert_eq!(nb.dead.len(), 2);
    assert_eq!(nb.dead[0], Cell { col: 1, row: 0 });
    assert_eq!(nb.dead[1], Cell { col: 0, row: 1 });
}

#[test]
fn get_neighbours_of_interior_cell_lists_all_eight() {
    let g = grid_from(3, 3, &[(0, 0), (2, 2)]);
    let nb = g.get_neighbours(1, 1);
    assert_eq!(nb.alive.len(), 2);
    assert_eq!(nb.alive[0], Cell { col: 0, row: 0 });
    assert_eq!(nb.alive[1], Cell { col: 2, row: 2 });
    assert_eq!(nb.dead.len(), 6);
}

#[test]
fn neighbor_count_at_corner_under_clipping() {
    let g = grid_from(3, 3, &[(1, 0), (1, 1), (2, 2)]);
    // The corner (0,0) sees only (1,0), (0,1), (1,1).
    assert_eq!(g.neighbor_count(0, 0, BoundaryPolicy::Clipping), 2);
}

#[test]
fn interior_count_same_under_both_policies() {
    let g = grid_from(5, 5, &[(1, 1), (2, 1), (3, 3), (0, 0), (4, 4)]);
    // (2,2) is interior; its live geometric neighbors are (1,1), (2,1), (3,3).
    assert_eq!(g.neighbor_count(2, 2, BoundaryPolicy::Clipping), 3);
    assert_eq!(g.neighbor_count(2, 2, BoundaryPolicy::Wrapping), 3);
}

#[test]
fn wrapping_sees_far_column_and_clipping_does_not() {
    let g = grid_from(4, 3, &[(3, 1)]);
    // Under wrapping, (0,1) has the live cell (3,1) as its west neighbor.
    assert_eq!(g.neighbor_count(0, 1, BoundaryPolicy::Wrapping), 1);
    assert_eq!(g.neighbor_count(0, 1, BoundaryPolicy::Clipping), 0);
}

#[test]
fn wrapping_sees_far_row() {
    let g = grid_from(3, 4, &[(1, 3)]);
    assert_eq!(g.neighbor_count(1, 0, BoundaryPolicy::Wrapping), 1);
    assert_eq!(g.neighbor_count(1, 0, BoundaryPolicy::Clipping), 0);
}
