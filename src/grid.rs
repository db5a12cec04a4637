use vstd::prelude::*;
use vstd::arithmetic::div_mod::{lemma_mod_multiples_basic, lemma_mod_multiples_vanish};
use crate::constants::{GRID_CELL_DIM, GRID_HEIGHT, GRID_WIDTH};

verus! {

/// A grid-aligned square, given by its top-left corner in pixels. Its side is
/// the cell size of the grid it lives on.
#[derive(Clone, Copy, Debug, PartialEq, Eq, Structural)]
pub struct Segment {
    pub x: i32,
    pub y: i32,
}

/// A field of `width` by `height` square cells, each `cell` pixels wide.
#[derive(Clone, Copy, Debug, PartialEq, Eq, Structural)]
pub struct Grid {
    pub width: i32,
    pub height: i32,
    pub cell: i32,
}

/// Toroidal wrap of one coordinate: a value below zero re-enters at the last
/// cell `max`, a value beyond `max` re-enters at zero.
pub open spec fn wrap(v: int, max: int) -> int {
    if v < 0 {
        max
    } else if v > max {
        0
    } else {
        v
    }
}

/// The grid the game is played on.
pub open spec fn standard_grid() -> Grid {
    Grid { width: GRID_WIDTH, height: GRID_HEIGHT, cell: GRID_CELL_DIM }
}

impl Grid {
    /// Positive dimensions whose pixel extents fit in an `i32`.
    pub open spec fn wf(self) -> bool {
        &&& 1 <= self.width
        &&& 1 <= self.height
        &&& 1 <= self.cell
        &&& self.width * self.cell <= i32::MAX
        &&& self.height * self.cell <= i32::MAX
    }

    /// Pixel x of the last column.
    pub open spec fn last_x(self) -> int {
        self.width * self.cell - self.cell
    }

    /// Pixel y of the last row.
    pub open spec fn last_y(self) -> int {
        self.height * self.cell - self.cell
    }

    /// The segment covers exactly one cell of this grid.
    pub open spec fn holds(self, s: Segment) -> bool {
        &&& 0 <= s.x <= self.last_x()
        &&& 0 <= s.y <= self.last_y()
        &&& s.x % self.cell == 0
        &&& s.y % self.cell == 0
    }

    /// The grid the game is played on.
    pub fn standard() -> (r: Grid)
        ensures
            r == standard_grid(),
            r.wf(),
    {
        Grid { width: GRID_WIDTH, height: GRID_HEIGHT, cell: GRID_CELL_DIM }
    }

    /// Pixel x of the last column.
    pub fn max_x(&self) -> (r: i32)
        requires
            self.wf(),
        ensures
            r == self.last_x(),
            0 <= r,
    {
        proof {
            assert(self.width * self.cell >= self.cell) by (nonlinear_arith)
                requires
                    self.width >= 1,
                    self.cell >= 1,
            ;
        }
        self.width * self.cell - self.cell
    }

    /// Pixel y of the last row.
    pub fn max_y(&self) -> (r: i32)
        requires
            self.wf(),
        ensures
            r == self.last_y(),
            0 <= r,
    {
        proof {
            assert(self.height * self.cell >= self.cell) by (nonlinear_arith)
                requires
                    self.height >= 1,
                    self.cell >= 1,
            ;
        }
        self.height * self.cell - self.cell
    }

    /// The segment on column `col` and row `row`.
    pub fn cell_position(&self, col: i32, row: i32) -> (r: Segment)
        requires
            self.wf(),
            0 <= col < self.width,
            0 <= row < self.height,
        ensures
            r.x == col * self.cell,
            r.y == row * self.cell,
            self.holds(r),
    {
        proof {
            let c = self.cell as int;
            assert(0 <= col * c <= self.width * c - c) by (nonlinear_arith)
                requires
                    0 <= col < self.width,
                    c >= 1,
            ;
            assert(0 <= row * c <= self.height * c - c) by (nonlinear_arith)
                requires
                    0 <= row < self.height,
                    c >= 1,
            ;
            lemma_mod_multiples_basic(col as int, c);
            lemma_mod_multiples_basic(row as int, c);
        }
        Segment { x: col * self.cell, y: row * self.cell }
    }
}

/// A coordinate on the grid, moved by a whole number of cells and wrapped,
/// stays a multiple of the cell size.
pub proof fn lemma_wrap_aligned(v: int, cells: int, cell: int, max: int)
    requires
        cell >= 1,
        v % cell == 0,
        max % cell == 0,
    ensures
        wrap(v + cell * cells, max) % cell == 0,
{
    lemma_mod_multiples_vanish(cells, v, cell);
    assert(0int % cell == 0);
}

} // verus!
