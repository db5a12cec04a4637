use vstd::prelude::*;
use crate::grid::{Grid, Segment, lemma_wrap_aligned, standard_grid, wrap};

verus! {

/// The snake's heading. `NONE` is the heading before the first input: the
/// head does not move.
#[allow(non_camel_case_types)]
#[derive(Clone, Copy, Debug, PartialEq, Eq, Structural)]
pub enum Direction {
    UP,
    DOWN,
    LEFT,
    RIGHT,
    NONE,
}

/// The heading that would turn the snake back into its own neck.
pub open spec fn opposite(d: Direction) -> Direction {
    match d {
        Direction::UP => Direction::DOWN,
        Direction::DOWN => Direction::UP,
        Direction::LEFT => Direction::RIGHT,
        Direction::RIGHT => Direction::LEFT,
        Direction::NONE => Direction::NONE,
    }
}

/// Where the head goes in one step: `cell * speed` pixels along the heading,
/// wrapped round the edges of the grid.
pub open spec fn step_head(head: Segment, dir: Direction, speed: int, grid: Grid) -> Segment {
    let d = grid.cell * speed;
    match dir {
        Direction::UP => Segment { x: head.x, y: wrap(head.y - d, grid.last_y()) as i32 },
        Direction::DOWN => Segment { x: head.x, y: wrap(head.y + d, grid.last_y()) as i32 },
        Direction::LEFT => Segment { x: wrap(head.x - d, grid.last_x()) as i32, y: head.y },
        Direction::RIGHT => Segment { x: wrap(head.x + d, grid.last_x()) as i32, y: head.y },
        Direction::NONE => head,
    }
}

/// The body after one step: every segment takes the place its predecessor
/// held, and the head steps along the heading.
pub open spec fn shifted(body: Seq<Segment>, dir: Direction, speed: int, grid: Grid) -> Seq<Segment> {
    Seq::new(
        body.len(),
        |i: int|
            if i == 0 {
                step_head(body[0], dir, speed, grid)
            } else {
                body[i - 1]
            },
    )
}

/// The segment that `grow` appends: the tail moved one pixel to the right. It
/// is a placeholder, overwritten by the next step before anything reads it.
pub open spec fn placeholder(tail: Segment) -> Segment {
    Segment { x: if tail.x < i32::MAX { (tail.x + 1) as i32 } else { tail.x }, y: tail.y }
}

/// The body after `grow`.
pub open spec fn grown(body: Seq<Segment>) -> Seq<Segment> {
    body.push(placeholder(body.last()))
}

/// The snake: its body (index 0 is the head), heading and speed in cells per
/// step, on a grid.
pub struct Snake {
    pub body: Vec<Segment>,
    pub direction: Direction,
    pub speed: i32,
    pub grid: Grid,
}

impl Snake {
    /// A body that is never empty, a head on a cell of the grid, a speed of at
    /// least one cell. Segments behind the head are not constrained: the last
    /// one may be a placeholder left by `grow`.
    pub open spec fn wf(&self) -> bool {
        &&& self.grid.wf()
        &&& self.body@.len() >= 1
        &&& self.grid.holds(self.body@[0])
        &&& self.speed >= 1
    }

    /// The body after `move_segments`.
    pub open spec fn moved(&self) -> Seq<Segment> {
        shifted(self.body@, self.direction, self.speed as int, self.grid)
    }

    /// A snake of one segment at `(x_pos, y_pos)` on the standard grid, not
    /// moving yet.
    pub fn new(x_pos: i32, y_pos: i32) -> (r: Snake)
        requires
            standard_grid().holds(Segment { x: x_pos, y: y_pos }),
        ensures
            r.wf(),
            r.grid == standard_grid(),
            r.body@ == seq![Segment { x: x_pos, y: y_pos }],
            r.direction == Direction::NONE,
            r.speed == 1,
    {
        Snake::on_grid(Grid::standard(), x_pos, y_pos)
    }

    /// A snake of one segment at `(x_pos, y_pos)` on `grid`, not moving yet.
    pub fn on_grid(grid: Grid, x_pos: i32, y_pos: i32) -> (r: Snake)
        requires
            grid.wf(),
            grid.holds(Segment { x: x_pos, y: y_pos }),
        ensures
            r.wf(),
            r.grid == grid,
            r.body@ == seq![Segment { x: x_pos, y: y_pos }],
            r.direction == Direction::NONE,
            r.speed == 1,
    {
        let head = Segment { x: x_pos, y: y_pos };
        Snake { body: vec![head], direction: Direction::NONE, speed: 1, grid }
    }

    /// Wraps a coordinate pair round the edges of `grid`.
    fn clamp(grid: &Grid, x_pos: i64, y_pos: i64) -> (r: (i32, i32))
        requires
            grid.wf(),
        ensures
            r.0 == wrap(x_pos as int, grid.last_x()),
            r.1 == wrap(y_pos as int, grid.last_y()),
    {
        let max_x = grid.max_x();
        let max_y = grid.max_y();
        let result_x: i32 = if x_pos < 0 {
            max_x
        } else if x_pos > max_x as i64 {
            0
        } else {
            x_pos as i32
        };
        let result_y: i32 = if y_pos < 0 {
            max_y
        } else if y_pos > max_y as i64 {
            0
        } else {
            y_pos as i32
        };
        (result_x, result_y)
    }

    /// One step: each segment after the head takes its predecessor's former
    /// place, then the head moves `cell * speed` pixels along the heading and
    /// wraps round the edges.
    pub fn move_segments(&mut self)
        requires
            old(self).wf(),
        ensures
            final(self).wf(),
            final(self).body@ == old(self).moved(),
            final(self).direction == old(self).direction,
            final(self).speed == old(self).speed,
            final(self).grid == old(self).grid,
    {
        let ghost before = self.body@;
        let len = self.body.len();
        let mut i: usize = len - 1;
        while i > 0
            invariant
                self.body@.len() == len,
                len == before.len(),
                i < len,
                forall|j: int| 0 <= j <= i ==> self.body@[j] == before[j],
                forall|j: int| i < j < len ==> self.body@[j] == before[j - 1],
                self.direction == old(self).direction,
                self.speed == old(self).speed,
                self.grid == old(self).grid,
                before == old(self).body@,
            decreases i,
        {
            let prev = self.body[i - 1];
            self.body[i] = prev;
            i = i - 1;
        }
        let head = self.body[0];
        proof {
            let c = self.grid.cell as int;
            let v = self.speed as int;
            assert(1 <= c * v <= 0x4000_0000_0000_0000) by (nonlinear_arith)
                requires
                    1 <= c <= i32::MAX,
                    1 <= v <= i32::MAX,
            ;
        }
        let d: i64 = (self.grid.cell as i64) * (self.speed as i64);
        proof {
            lemma_step_head_on_grid(head, self.direction, self.speed as int, self.grid);
        }
        let new_head = match self.direction {
            Direction::UP => {
                Segment { x: head.x, y: Snake::clamp(&self.grid, head.x as i64, head.y as i64 - d).1 }
            },
            Direction::DOWN => {
                Segment { x: head.x, y: Snake::clamp(&self.grid, head.x as i64, head.y as i64 + d).1 }
            },
            Direction::LEFT => {
                Segment { x: Snake::clamp(&self.grid, head.x as i64 - d, head.y as i64).0, y: head.y }
            },
            Direction::RIGHT => {
                Segment { x: Snake::clamp(&self.grid, head.x as i64 + d, head.y as i64).0, y: head.y }
            },
            Direction::NONE => head,
        };
        self.body[0] = new_head;
        assert(self.body@ =~= old(self).moved());
    }

    /// Appends a placeholder segment after the tail; the next step moves it
    /// onto the tail's former cell.
    pub fn grow(&mut self)
        requires
            old(self).wf(),
        ensures
            final(self).wf(),
            final(self).body@ == grown(old(self).body@),
            final(self).direction == old(self).direction,
            final(self).speed == old(self).speed,
            final(self).grid == old(self).grid,
    {
        let last_segment = self.body[self.body.len() - 1];
        let x: i32 = if last_segment.x < i32::MAX {
            last_segment.x + 1
        } else {
            last_segment.x
        };
        self.body.push(Segment { x, y: last_segment.y });
    }
}

/// A head on the grid stays on the grid after a step.
pub proof fn lemma_step_head_on_grid(head: Segment, dir: Direction, speed: int, grid: Grid)
    requires
        grid.wf(),
        grid.holds(head),
        speed >= 1,
    ensures
        grid.holds(step_head(head, dir, speed, grid)),
{
    let c = grid.cell as int;
    lemma_last_cell_aligned(grid);
    lemma_wrap_aligned(head.x as int, speed, c, grid.last_x());
    lemma_wrap_aligned(head.x as int, -speed, c, grid.last_x());
    lemma_wrap_aligned(head.y as int, speed, c, grid.last_y());
    lemma_wrap_aligned(head.y as int, -speed, c, grid.last_y());
    assert(c * (-speed) == -(c * speed)) by (nonlinear_arith);
}

/// Wrapping: when the step would carry the head's coordinate on the axis of
/// movement outside `[0, last]`, that coordinate becomes the opposite edge
/// exactly (past the far edge it re-enters at zero, below zero at the last
/// cell); inside the range it is the plain step. The head stays on a cell.
pub proof fn lemma_head_wraps(head: Segment, dir: Direction, speed: int, grid: Grid)
    requires
        grid.wf(),
        grid.holds(head),
        speed >= 1,
    ensures
        grid.holds(step_head(head, dir, speed, grid)),
        ({
            let next = step_head(head, dir, speed, grid);
            let d = grid.cell * speed;
            &&& dir == Direction::RIGHT ==> {
                &&& next.y == head.y
                &&& head.x + d > grid.last_x() ==> next.x == 0
                &&& head.x + d <= grid.last_x() ==> next.x == head.x + d
            }
            &&& dir == Direction::LEFT ==> {
                &&& next.y == head.y
                &&& head.x - d < 0 ==> next.x == grid.last_x()
                &&& head.x - d >= 0 ==> next.x == head.x - d
            }
            &&& dir == Direction::DOWN ==> {
                &&& next.x == head.x
                &&& head.y + d > grid.last_y() ==> next.y == 0
                &&& head.y + d <= grid.last_y() ==> next.y == head.y + d
            }
            &&& dir == Direction::UP ==> {
                &&& next.x == head.x
                &&& head.y - d < 0 ==> next.y == grid.last_y()
                &&& head.y - d >= 0 ==> next.y == head.y - d
            }
            &&& dir == Direction::NONE ==> next == head
        }),
{
    lemma_step_head_on_grid(head, dir, speed, grid);
    assert(grid.cell * speed >= 1) by (nonlinear_arith)
        requires
            grid.cell >= 1,
            speed >= 1,
    ;
}

/// Trailing: after a step, every segment behind the head holds exactly the
/// place its predecessor held before the step, and the length is kept.
pub proof fn lemma_trailing(s: Snake)
    requires
        s.wf(),
    ensures
        s.moved().len() == s.body@.len(),
        forall|i: int| 1 <= i < s.body@.len() ==> #[trigger] s.moved()[i] == s.body@[i - 1],
{
}

/// Growth: the placeholder that `grow` appends is overwritten by the next
/// step, after which the new tail holds the old tail's place from before the
/// step, behind the old body's own trailing shift.
pub proof fn lemma_grown_tail_settles(body: Seq<Segment>, dir: Direction, speed: int, grid: Grid)
    requires
        body.len() >= 1,
    ensures
        shifted(grown(body), dir, speed, grid).len() == body.len() + 1,
        shifted(grown(body), dir, speed, grid)[body.len() as int] == body.last(),
        shifted(grown(body), dir, speed, grid).drop_last() == shifted(body, dir, speed, grid),
{
    assert(shifted(grown(body), dir, speed, grid).drop_last() =~= shifted(body, dir, speed, grid));
}

/// Every segment of `body` covers a cell of `grid`.
pub open spec fn all_on_grid(body: Seq<Segment>, grid: Grid) -> bool {
    forall|i: int| 0 <= i < body.len() ==> grid.holds(#[trigger] body[i])
}

/// Alignment: if every segment but possibly the last (a placeholder left by
/// `grow`) covers a cell, then after a step every segment covers a cell.
pub proof fn lemma_step_aligns_body(body: Seq<Segment>, dir: Direction, speed: int, grid: Grid)
    requires
        grid.wf(),
        body.len() >= 1,
        speed >= 1,
        all_on_grid(body.drop_last(), grid),
        grid.holds(body[0]),
    ensures
        all_on_grid(shifted(body, dir, speed, grid), grid),
{
    lemma_step_head_on_grid(body[0], dir, speed, grid);
    let next = shifted(body, dir, speed, grid);
    assert forall|i: int| 0 <= i < next.len() implies grid.holds(#[trigger] next[i]) by {
        if i > 0 {
            assert(body.drop_last()[i - 1] == body[i - 1]);
        }
    }
}

/// The last column and row of a grid lie on cell boundaries.
proof fn lemma_last_cell_aligned(grid: Grid)
    requires
        grid.wf(),
    ensures
        grid.last_x() % (grid.cell as int) == 0,
        grid.last_y() % (grid.cell as int) == 0,
{
    let c = grid.cell as int;
    assert(grid.last_x() == (grid.width - 1) * c) by (nonlinear_arith)
        requires
            grid.last_x() == grid.width * c - c,
    ;
    assert(grid.last_y() == (grid.height - 1) * c) by (nonlinear_arith)
        requires
            grid.last_y() == grid.height * c - c,
    ;
    vstd::arithmetic::div_mod::lemma_mod_multiples_basic(grid.width - 1, c);
    vstd::arithmetic::div_mod::lemma_mod_multiples_basic(grid.height - 1, c);
}

} // verus!
