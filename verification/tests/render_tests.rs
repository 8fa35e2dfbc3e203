use life::grid::{Cell, Dimensions, Grid};
use life::seeds::gosper_glider;

fn grid_from(width: usize, height: usize, live: &[(usize, usize)]) -> Grid {
    let mut seed: Vec<Cell> = Vec::new();
    for &(col, row) in live {
        seed.push(Cell { col, row });
    }
    Grid::new(Dimensions { width, height }, seed)
}

#[test]
fn renders_rows_top_to_bottom() {
    let g = grid_from(3, 2, &[(0, 0), (2, 0), (1, 1)]);
    assert_eq!(g.to_text(), "# #\n # \n");
}

#[test]
fn renders_an_empty_grid_as_blank_lines() {
    let g = grid_from(2, 3, &[]);
    assert_eq!(g.to_text(), "  \n  \n  \n");
}

#[test]
fn renders_a_zero_width_grid_as_empty_lines() {
    let g = grid_from(0, 2, &[]);
    assert_eq!(g.to_text(), "\n\n");
}

#[test]
fn gosper_glider_seed_layout() {
    let g = gosper_glider();
    assert_eq!(g.dim.width, 60);
    assert_eq!(g.dim.height, 60);
    // Spot checks: the leading square and the far square of the gun.
    assert!(g.cell_is_alive_at(1, 5));
    assert!(g.cell_is_alive_at(2, 6));
    assert!(g.cell_is_alive_at(35, 3));
    assert!(g.cell_is_alive_at(36, 4));
    assert!(!g.cell_is_alive_at(0, 0));
    assert!(!g.cell_is_alive_at(3, 5));
    // The seed has exactly 36 live cells.
    let mut count: usize = 0;
    for row in 0..60 {
        for col in 0..60 {
            if g.cell_is_alive_at(col, row) {
                count += 1;
            }
        }
    }
    assert_eq!(count, 36);
}
