//! Cells of the playing field and the regions of the field that the rules speak of.
use vstd::prelude::*;

verus! {

/// Default width of the playing field, in cells.
pub const GRID_X_SIZE: i32 = 35;

/// Default height of the playing field, in cells.
pub const GRID_Y_SIZE: i32 = 25;

/// Edge length, in pixels, of the square that a front end draws for one cell.
pub const DOT_SIZE_IN_PXLS: i32 = 15;

/// One cell of the playing field. `x` grows to the right and `y` grows downwards.
/// The same type stands for a displacement between two cells.
#[derive(Clone, Copy, PartialEq, Eq, Structural, Debug)]
pub struct Cell {
    pub x: i32,
    pub y: i32,
}

/// The cell lies on a field of the given size.
pub open spec fn in_bounds(c: Cell, width: int, height: int) -> bool {
    0 <= c.x < width && 0 <= c.y < height
}

/// The cell lies on the field but not on its outermost ring. Food only ever lies here.
pub open spec fn in_interior(c: Cell, width: int, height: int) -> bool {
    1 <= c.x <= width - 2 && 1 <= c.y <= height - 2
}

/// The two cells share an edge: their Manhattan distance is one.
pub open spec fn adjacent(a: Cell, b: Cell) -> bool {
    ||| a.x == b.x && (a.y - b.y == 1 || b.y - a.y == 1)
    ||| a.y == b.y && (a.x - b.x == 1 || b.x - a.x == 1)
}

/// Componentwise sum of a cell and a displacement.
pub open spec fn cell_sum(a: Cell, b: Cell) -> Cell {
    Cell { x: (a.x + b.x) as i32, y: (a.y + b.y) as i32 }
}

/// The componentwise sum fits the coordinate type.
pub open spec fn sum_fits(a: Cell, b: Cell) -> bool {
    &&& i32::MIN <= a.x + b.x <= i32::MAX
    &&& i32::MIN <= a.y + b.y <= i32::MAX
}

/// Adds two cells as `nalgebra` 2-vectors, through `Vector2::new` and the `+` of
/// `nalgebra::Vector2<i32>`. The contract claims that `nalgebra` adds component by
/// component with the `+` of `i32`, which is why sums that leave `i32` are excluded.
#[verifier::external_body]
fn vector_sum(a: Cell, b: Cell) -> (r: Cell)
    requires
        sum_fits(a, b),
    ensures
        r == cell_sum(a, b),
{
    let v = nalgebra::Vector2::new(a.x, a.y) + nalgebra::Vector2::new(b.x, b.y);
    Cell { x: v.x, y: v.y }
}

impl Cell {
    /// The cell reached from `self` by the displacement `by`.
    pub fn offset(self, by: Cell) -> (r: Cell)
        requires
            sum_fits(self, by),
        ensures
            r == cell_sum(self, by),
            r.x == self.x + by.x,
            r.y == self.y + by.y,
    {
        vector_sum(self, by)
    }

    /// Whether the cell lies on a field of the given size.
    pub fn is_in_bounds(self, width: i32, height: i32) -> (r: bool)
        ensures
            r == in_bounds(self, width as int, height as int),
    {
        0 <= self.x && self.x < width && 0 <= self.y && self.y < height
    }

    /// Whether the cell lies on the field but not on its outermost ring.
    pub fn is_in_interior(self, width: i32, height: i32) -> (r: bool)
        ensures
            r == in_interior(self, width as int, height as int),
    {
        1 <= self.x && self.x < i32::MAX && self.x + 1 < width && 1 <= self.y && self.y < i32::MAX
            && self.y + 1 < height
    }
}

} // verus!
