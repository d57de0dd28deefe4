use vstd::prelude::*;

verus! {

/// A cell of the arena: column, then row.
pub type Position = (u16, u16);

/// The four directions a tank or a bullet can face.
#[derive(Debug, Clone, Copy, PartialEq, Eq)]
pub enum MovementDirection {
    Left,
    Up,
    Down,
    Right,
}

impl Default for MovementDirection {
    /// Tanks start facing right.
    fn default() -> (d: MovementDirection)
        ensures
            d == MovementDirection::Right,
    {
        MovementDirection::Right
    }
}

impl MovementDirection {
    /// The direction a quarter turn counter-clockwise from `self`.
    pub open spec fn turned(self) -> MovementDirection {
        match self {
            MovementDirection::Left => MovementDirection::Down,
            MovementDirection::Up => MovementDirection::Left,
            MovementDirection::Down => MovementDirection::Right,
            MovementDirection::Right => MovementDirection::Up,
        }
    }

    /// The direction a quarter turn clockwise from `self`.
    pub open spec fn turned_back(self) -> MovementDirection {
        match self {
            MovementDirection::Down => MovementDirection::Left,
            MovementDirection::Left => MovementDirection::Up,
            MovementDirection::Right => MovementDirection::Down,
            MovementDirection::Up => MovementDirection::Right,
        }
    }

    /// Up and down are the vertical directions.
    pub open spec fn is_vertical(self) -> bool {
        self == MovementDirection::Up || self == MovementDirection::Down
    }
}

} // verus!
