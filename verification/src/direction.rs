//! The four directions of travel.
use vstd::prelude::*;
use vstd::std_specs::convert::FromSpecImpl;
use crate::grid::Cell;

verus! {

/// A direction in which the snake can travel.
#[derive(Clone, Copy, PartialEq, Eq, Structural, Debug)]
pub enum SnakeDirection {
    Up,
    Down,
    Right,
    Left,
}

impl SnakeDirection {
    /// The displacement of one step in this direction. `Up` decreases `y`.
    pub open spec fn delta(self) -> Cell {
        match self {
            SnakeDirection::Up => Cell { x: 0, y: -1i32 },
            SnakeDirection::Down => Cell { x: 0, y: 1 },
            SnakeDirection::Right => Cell { x: 1, y: 0 },
            SnakeDirection::Left => Cell { x: -1i32, y: 0 },
        }
    }

    /// The direction that points the other way.
    pub open spec fn opposite(self) -> SnakeDirection {
        match self {
            SnakeDirection::Up => SnakeDirection::Down,
            SnakeDirection::Down => SnakeDirection::Up,
            SnakeDirection::Right => SnakeDirection::Left,
            SnakeDirection::Left => SnakeDirection::Right,
        }
    }
}

impl From<SnakeDirection> for Cell {
    /// The displacement of one step in the given direction.
    fn from(direction: SnakeDirection) -> (r: Cell) {
        match direction {
            SnakeDirection::Up => Cell { x: 0, y: -1 },
            SnakeDirection::Down => Cell { x: 0, y: 1 },
            SnakeDirection::Right => Cell { x: 1, y: 0 },
            SnakeDirection::Left => Cell { x: -1, y: 0 },
        }
    }
}

impl FromSpecImpl<SnakeDirection> for Cell {
    open spec fn obeys_from_spec() -> bool {
        true
    }

    open spec fn from_spec(direction: SnakeDirection) -> Cell {
        direction.delta()
    }
}

} // verus!
