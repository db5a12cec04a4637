use snake::grid::{Grid, Segment};
use snake::snake::{Direction, Snake};

fn small_grid() -> Grid {
    Grid { width: 4, height: 4, cell: 10 }
}

fn seg(x: i32, y: i32) -> Segment {
    Segment { x, y }
}

fn snake_with(body: Vec<Segment>, direction: Direction) -> Snake {
    Snake { body, direction, speed: 1, grid: small_grid() }
}

#[test]
fn head_moves_right_then_wraps_to_left_edge() {
    let mut s = snake_with(vec![seg(20, 20)], Direction::RIGHT);
    s.move_segments();
    assert_eq!(s.body, vec![seg(30, 20)]);
    s.move_segments();
    assert_eq!(s.body, vec![seg(0, 20)]);
}

#[test]
fn two_segment_body_trails_the_head() {
    let mut s = snake_with(vec![seg(10, 10), seg(0, 10)], Direction::RIGHT);
    s.move_segments();
    assert_eq!(s.body, vec![seg(20, 10), seg(10, 10)]);
}

#[test]
fn left_edge_wraps_to_last_column() {
    let mut s = snake_with(vec![seg(0, 10)], Direction::LEFT);
    s.move_segments();
    assert_eq!(s.body, vec![seg(30, 10)]);
}

#[test]
fn top_edge_wraps_to_last_row() {
    let mut s = snake_with(vec![seg(10, 0)], Direction::UP);
    s.move_segments();
    assert_eq!(s.body, vec![seg(10, 30)]);
}

#[test]
fn bottom_edge_wraps_to_first_row() {
    let mut s = snake_with(vec![seg(10, 30)], Direction::DOWN);
    s.move_segments();
    assert_eq!(s.body, vec![seg(10, 0)]);
}

#[test]
fn speed_two_moves_two_cells() {
    let mut s = snake_with(vec![seg(0, 0)], Direction::DOWN);
    s.speed = 2;
    s.move_segments();
    assert_eq!(s.body, vec![seg(0, 20)]);
    s.move_segments();
    assert_eq!(s.body, vec![seg(0, 0)]);
}

#[test]
fn no_heading_only_shifts() {
    let mut s = snake_with(vec![seg(10, 10), seg(20, 10), seg(30, 10)], Direction::NONE);
    s.move_segments();
    assert_eq!(s.body, vec![seg(10, 10), seg(10, 10), seg(20, 10)]);
}

#[test]
fn every_trailing_segment_takes_its_predecessors_place() {
    let before = vec![seg(10, 10), seg(10, 20), seg(20, 20), seg(30, 20)];
    let mut s = snake_with(before.clone(), Direction::UP);
    s.move_segments();
    assert_eq!(s.body.len(), before.len());
    for i in 1..before.len() {
        assert_eq!(s.body[i], before[i - 1]);
    }
    assert_eq!(s.body[0], seg(10, 0));
}

#[test]
fn grow_appends_placeholder_then_settles_on_old_tail() {
    let mut s = snake_with(vec![seg(10, 10), seg(0, 10)], Direction::RIGHT);
    s.grow();
    assert_eq!(s.body.len(), 3);
    assert_eq!(s.body[2], seg(1, 10));
    s.move_segments();
    assert_eq!(s.body, vec![seg(20, 10), seg(10, 10), seg(0, 10)]);
}

#[test]
fn new_snake_sits_still_on_standard_grid() {
    let s = Snake::new(375, 375);
    assert_eq!(s.body, vec![seg(375, 375)]);
    assert_eq!(s.direction, Direction::NONE);
    assert_eq!(s.speed, 1);
    assert_eq!(s.grid, Grid::standard());
}

#[test]
fn snake_on_custom_grid() {
    let s = Snake::on_grid(small_grid(), 30, 0);
    assert_eq!(s.body, vec![seg(30, 0)]);
    assert_eq!(s.grid, small_grid());
}
