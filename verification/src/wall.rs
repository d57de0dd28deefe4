use vstd::prelude::*;
use crate::geometry::Rect;
use crate::utils::Position;

verus! {

/// What a wall is made of. Bullets fly over water; tanks cannot drive
/// through any wall.
#[derive(Debug, Clone, Copy, PartialEq, Eq)]
pub enum WallType {
    Static,
    Breakable(usize),
    Water,
}

/// A rectangular wall of the arena.
#[derive(Debug)]
pub struct Wall {
    pub rect: Rect,
    pub wall_type: WallType,
}

/// The rectangle with corner `position` and size `size` (width, height).
pub open spec fn placed(position: Position, size: Position) -> Rect {
    Rect { x: position.0, y: position.1, width: size.0, height: size.1 }
}

impl Wall {
    /// A solid wall.
    pub fn new(position: Position, size: Position) -> (w: Wall)
        ensures
            w.rect == placed(position, size),
            w.wall_type == WallType::Static,
    {
        Wall {
            rect: Rect { x: position.0, y: position.1, width: size.0, height: size.1 },
            wall_type: WallType::Static,
        }
    }

    /// A pool of water.
    pub fn new_water(position: Position, size: Position) -> (w: Wall)
        ensures
            w.rect == placed(position, size),
            w.wall_type == WallType::Water,
    {
        Wall {
            rect: Rect { x: position.0, y: position.1, width: size.0, height: size.1 },
            wall_type: WallType::Water,
        }
    }

    /// A wall that can take `health` hits.
    pub fn new_destroyable(position: Position, size: Position, health: usize) -> (w: Wall)
        ensures
            w.rect == placed(position, size),
            w.wall_type == WallType::Breakable(health),
    {
        Wall {
            rect: Rect { x: position.0, y: position.1, width: size.0, height: size.1 },
            wall_type: WallType::Breakable(health),
        }
    }

    pub fn get_rect(&self) -> (r: Rect)
        ensures
            r == self.rect,
    {
        self.rect
    }

    pub fn is_water(&self) -> (b: bool)
        ensures
            b == (self.wall_type == WallType::Water),
    {
        match self.wall_type {
            WallType::Water => true,
            _ => false,
        }
    }
}

} // verus!
