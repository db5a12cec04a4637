use vstd::prelude::*;
use rand::Rng;
use crate::grid::{Grid, Segment, standard_grid};

verus! {

/// Relies on `rand::thread_rng` and `rand::Rng::gen_range` over `0..bound`:
/// the value drawn lies in that range. `gen_range` panics on an empty range,
/// which `requires` rules out.
#[verifier::external_body]
fn random_below(bound: i32) -> (r: i32)
    requires
        bound > 0,
    ensures
        0 <= r < bound,
{
    rand::thread_rng().gen_range(0..bound)
}

/// The one food item: the cell it covers, on a grid. Where it lands is drawn
/// at random, with no regard for the snake's body.
#[derive(Clone, Copy, Debug, PartialEq, Eq, Structural)]
pub struct Food {
    pub rect: Segment,
    pub grid: Grid,
}

impl Food {
    /// The food covers one cell of its grid.
    pub open spec fn wf(&self) -> bool {
        &&& self.grid.wf()
        &&& self.grid.holds(self.rect)
    }

    /// Food on a random cell of the standard grid.
    pub fn new() -> (r: Food)
        ensures
            r.wf(),
            r.grid == standard_grid(),
    {
        Food::on_grid(Grid::standard())
    }

    /// Food on a random cell of `grid`.
    pub fn on_grid(grid: Grid) -> (r: Food)
        requires
            grid.wf(),
        ensures
            r.wf(),
            r.grid == grid,
    {
        let rect = Food::get_random_position(&grid);
        Food { rect, grid }
    }

    /// Moves the food to a random cell of its grid.
    pub fn move_food(&mut self)
        requires
            old(self).grid.wf(),
        ensures
            final(self).wf(),
            final(self).grid == old(self).grid,
    {
        let food_pos = Food::get_random_position(&self.grid);
        self.rect = food_pos;
    }

    /// A cell of `grid` drawn uniformly: a random column and a random row.
    fn get_random_position(grid: &Grid) -> (r: Segment)
        requires
            grid.wf(),
        ensures
            grid.holds(r),
    {
        let col = random_below(grid.width);
        let row = random_below(grid.height);
        grid.cell_position(col, row)
    }
}

} // verus!
