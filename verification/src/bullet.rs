use vstd::prelude::*;
use crate::geometry::Rect;
use crate::utils::{MovementDirection, Position};

verus! {

/// A shot in flight: one cell that moves one step per frame in its direction.
#[derive(Debug, Clone, Copy, PartialEq, Eq)]
pub struct Bullet {
    pub position: Position,
    pub direction: MovementDirection,
}

impl Bullet {
    /// The single cell the bullet occupies.
    pub open spec fn rect(self) -> Rect {
        Rect { x: self.position.0, y: self.position.1, width: 1, height: 1 }
    }

    pub fn new(position: Position, direction: MovementDirection) -> (b: Bullet)
        ensures
            b.position == position,
            b.direction == direction,
    {
        Bullet { position, direction }
    }

    pub fn get_rect(&self) -> (r: Rect)
        ensures
            r == self.rect(),
    {
        let (x, y) = self.position;
        Rect { x, y, width: 1, height: 1 }
    }
}

} // verus!
