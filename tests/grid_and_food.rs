use snake::constants::{
    FRAMES_PER_SECOND, GRID_CELL_DIM, GRID_HEIGHT, GRID_WIDTH, MILLIS_PER_FRAME, SCREEN_HEIGHT,
    SCREEN_WIDTH,
};
use snake::food::Food;
use snake::grid::{Grid, Segment};

#[test]
fn configuration_values() {
    assert_eq!(GRID_WIDTH, 30);
    assert_eq!(GRID_HEIGHT, 30);
    assert_eq!(GRID_CELL_DIM, 25);
    assert_eq!(SCREEN_WIDTH, 750);
    assert_eq!(SCREEN_HEIGHT, 750);
    assert_eq!(FRAMES_PER_SECOND, 12);
    assert_eq!(MILLIS_PER_FRAME, 83);
}

#[test]
fn standard_grid_dimensions() {
    let g = Grid::standard();
    assert_eq!(g, Grid { width: 30, height: 30, cell: 25 });
    assert_eq!(g.max_x(), 725);
    assert_eq!(g.max_y(), 725);
}

#[test]
fn cell_position_scales_by_cell_size() {
    let g = Grid { width: 4, height: 3, cell: 10 };
    assert_eq!(g.cell_position(3, 2), Segment { x: 30, y: 20 });
    assert_eq!(g.cell_position(0, 0), Segment { x: 0, y: 0 });
    assert_eq!(g.max_x(), 30);
    assert_eq!(g.max_y(), 20);
}

fn on_grid(g: &Grid, s: &Segment) -> bool {
    s.x >= 0
        && s.y >= 0
        && s.x <= (g.width - 1) * g.cell
        && s.y <= (g.height - 1) * g.cell
        && s.x % g.cell == 0
        && s.y % g.cell == 0
}

#[test]
fn new_food_lies_on_standard_grid() {
    for _ in 0..200 {
        let f = Food::new();
        assert_eq!(f.grid, Grid::standard());
        assert!(on_grid(&f.grid, &f.rect));
    }
}

#[test]
fn respawned_food_lies_on_its_grid() {
    let g = Grid { width: 3, height: 2, cell: 7 };
    let mut f = Food::on_grid(g);
    let mut seen = std::collections::HashSet::new();
    for _ in 0..500 {
        f.move_food();
        assert_eq!(f.grid, g);
        assert!(on_grid(&g, &f.rect));
        seen.insert((f.rect.x, f.rect.y));
    }
    // all six cells are reachable
    assert_eq!(seen.len(), 6);
}

#[test]
fn single_cell_grid_food_stays_at_origin() {
    let g = Grid { width: 1, height: 1, cell: 5 };
    let mut f = Food::on_grid(g);
    assert_eq!(f.rect, Segment { x: 0, y: 0 });
    f.move_food();
    assert_eq!(f.rect, Segment { x: 0, y: 0 });
}
