use vstd::prelude::*;
use crate::bullet::Bullet;
use crate::geometry::{Rect, sat_add16, sat_sub16};
use crate::utils::{MovementDirection, Position};

verus! {

/// A tank: the player's, or the body of an enemy.
///
/// `move_forward_steps` counts the moves still queued: turning towards the
/// direction already faced queues one more, turning elsewhere clears them.
#[derive(Debug, Clone, Copy)]
pub struct Tank {
    pub position: Position,
    pub direction: MovementDirection,
    pub health: usize,
    pub ammo: usize,
    pub move_forward_steps: usize,
}

/// The 3x3 block of cells a tank at `(x, y)` covers.
pub open spec fn tank_rect(x: u16, y: u16) -> Rect {
    Rect { x, y, width: 3, height: 3 }
}

/// True when a tank at `(x, y)` would overlap one of `obstacles`.
pub open spec fn blocked(x: u16, y: u16, obstacles: Seq<Rect>) -> bool {
    exists|k: int| 0 <= k < obstacles.len() && #[trigger] tank_rect(x, y).overlaps(obstacles[k])
}

/// Where a tank that steps up to row `y` settles: the obstacles are checked in
/// order, and each one that overlaps the tank where it stands at that moment
/// pushes it one row back down.
pub open spec fn up_settle(x: u16, y: int, obstacles: Seq<Rect>) -> int
    decreases obstacles.len(),
{
    if obstacles.len() == 0 {
        y
    } else {
        let y2 = if tank_rect(x, y as u16).overlaps(obstacles[0]) { y + 1 } else { y };
        up_settle(x, y2, obstacles.drop_first())
    }
}

/// A settled row is never above the row the tank stepped to.
pub proof fn lemma_up_settle_not_above(x: u16, y: int, obstacles: Seq<Rect>)
    ensures
        up_settle(x, y, obstacles) >= y,
    decreases obstacles.len(),
{
    if obstacles.len() > 0 {
        let y2 = if tank_rect(x, y as u16).overlaps(obstacles[0]) { y + 1 } else { y };
        lemma_up_settle_not_above(x, y2, obstacles.drop_first());
    }
}

impl Tank {
    /// The cells the tank covers.
    pub open spec fn rect(self) -> Rect {
        tank_rect(self.position.0, self.position.1)
    }

    /// The damage rectangle has a row below the tank's top row when it faces
    /// up or down, which must exist.
    pub open spec fn damage_rect_defined(self) -> bool {
        self.direction.is_vertical() ==> self.position.1 < u16::MAX
    }

    /// The cells where a bullet hurts the tank: the middle row when it faces up
    /// or down, the whole tank when it faces left or right.
    pub open spec fn damage_rect(self) -> Rect {
        if self.direction.is_vertical() {
            Rect { x: self.position.0, y: (self.position.1 + 1) as u16, width: 3, height: 1 }
        } else {
            self.rect()
        }
    }

    /// The muzzle cell exists on the board.
    pub open spec fn shot_defined(self) -> bool {
        let (x, y) = self.position;
        match self.direction {
            MovementDirection::Left => y < u16::MAX,
            MovementDirection::Right => x + 2 <= u16::MAX && y < u16::MAX,
            MovementDirection::Up => x < u16::MAX,
            MovementDirection::Down => x < u16::MAX && y < u16::MAX,
        }
    }

    /// The bullet a shot fires: from the muzzle, in the direction faced.
    pub open spec fn shot(self) -> Bullet {
        let (x, y) = self.position;
        let position: Position = match self.direction {
            MovementDirection::Left => (x, (y + 1) as u16),
            MovementDirection::Right => ((x + 2) as u16, (y + 1) as u16),
            MovementDirection::Up => ((x + 1) as u16, y),
            MovementDirection::Down => ((x + 1) as u16, (y + 1) as u16),
        };
        Bullet { position, direction: self.direction }
    }

    /// The tank after turning towards `d`: facing `d` already queues one more
    /// move, facing elsewhere turns it and clears the queue.
    pub open spec fn faced(self, d: MovementDirection) -> Tank {
        if self.direction == d {
            Tank { move_forward_steps: (self.move_forward_steps + 1) as usize, ..self }
        } else {
            Tank { direction: d, move_forward_steps: 0, ..self }
        }
    }

    /// Turning towards `d` cannot overflow the queue of moves.
    pub open spec fn can_face(self, d: MovementDirection) -> bool {
        self.direction == d ==> self.move_forward_steps < usize::MAX
    }

    /// The tank after `move_left` with these obstacles.
    pub open spec fn moved_left(self, obstacles: Seq<Rect>) -> Tank {
        if self.direction == MovementDirection::Left {
            let x1 = sat_sub16(self.position.0, 1);
            let x = if blocked(x1, self.position.1, obstacles) { (x1 + 1) as u16 } else { x1 };
            Tank { position: (x, self.position.1), ..self }
        } else {
            Tank { direction: MovementDirection::Left, ..self }
        }
    }

    /// The tank after `move_right` with these obstacles.
    pub open spec fn moved_right(self, obstacles: Seq<Rect>) -> Tank {
        if self.direction == MovementDirection::Right {
            let x1 = sat_add16(self.position.0, 1);
            let x = if blocked(x1, self.position.1, obstacles) { (x1 - 1) as u16 } else { x1 };
            Tank { position: (x, self.position.1), ..self }
        } else {
            Tank { direction: MovementDirection::Right, ..self }
        }
    }

    /// The tank after `move_down` with these obstacles.
    pub open spec fn moved_down(self, obstacles: Seq<Rect>) -> Tank {
        if self.direction == MovementDirection::Down {
            let y1 = sat_add16(self.position.1, 1);
            let y = if blocked(self.position.0, y1, obstacles) { (y1 - 1) as u16 } else { y1 };
            Tank { position: (self.position.0, y), ..self }
        } else {
            Tank { direction: MovementDirection::Down, ..self }
        }
    }

    /// `move_up` keeps the tank on the board: the pushes back down end at a
    /// row that exists.
    pub open spec fn up_fits(self, obstacles: Seq<Rect>) -> bool {
        self.direction == MovementDirection::Up ==> up_settle(
            self.position.0,
            sat_sub16(self.position.1, 1) as int,
            obstacles,
        ) <= u16::MAX
    }

    /// The tank after `move_up` with these obstacles.
    pub open spec fn moved_up(self, obstacles: Seq<Rect>) -> Tank {
        if self.direction == MovementDirection::Up {
            let y = up_settle(self.position.0, sat_sub16(self.position.1, 1) as int, obstacles);
            Tank { position: (self.position.0, y as u16), ..self }
        } else {
            Tank { direction: MovementDirection::Up, ..self }
        }
    }

    /// The tank after `move_forward`: one move in the direction it faces.
    pub open spec fn moved_forward(self, obstacles: Seq<Rect>) -> Tank {
        match self.direction {
            MovementDirection::Left => self.moved_left(obstacles),
            MovementDirection::Up => self.moved_up(obstacles),
            MovementDirection::Right => self.moved_right(obstacles),
            MovementDirection::Down => self.moved_down(obstacles),
        }
    }

    /// The tank after `shall_move_forward`: one queued move used up, if any.
    pub open spec fn stepped(self) -> Tank {
        if self.move_forward_steps > 0 {
            Tank { move_forward_steps: (self.move_forward_steps - 1) as usize, ..self }
        } else {
            self
        }
    }

    /// The tank after one hit: one point of health less, never below zero.
    pub open spec fn damaged(self) -> Tank {
        Tank { health: if self.health > 0 { (self.health - 1) as usize } else { 0 }, ..self }
    }

    /// A fresh tank at `position`: three points of health, a thousand rounds,
    /// facing right, nothing queued.
    pub open spec fn fresh(position: Position) -> Tank {
        Tank {
            position,
            direction: MovementDirection::Right,
            health: 3,
            ammo: 1000,
            move_forward_steps: 0,
        }
    }

    pub fn new(position: Position) -> (t: Tank)
        ensures
            t == Tank::fresh(position),
    {
        Tank {
            position,
            direction: MovementDirection::default(),
            health: 3,
            ammo: 1000,
            move_forward_steps: 0,
        }
    }

    /// Uses up one queued move; says whether there was one.
    pub fn shall_move_forward(&mut self) -> (res: bool)
        ensures
            res == (old(self).move_forward_steps > 0),
            *final(self) == old(self).stepped(),
    {
        let res = self.move_forward_steps > 0;
        if res {
            self.move_forward_steps -= 1;
        }
        res
    }

    /// One move in the direction faced.
    pub fn move_forward(&mut self, obstacles: &Vec<Rect>)
        requires
            old(self).up_fits(obstacles@),
        ensures
            *final(self) == old(self).moved_forward(obstacles@),
    {
        let obstacles = obstacles.clone();
        match self.direction {
            MovementDirection::Left => self.move_left(obstacles),
            MovementDirection::Up => self.move_up(obstacles),
            MovementDirection::Right => self.move_right(obstacles),
            MovementDirection::Down => self.move_down(obstacles),
        }
    }

    /// Facing up: steps one row up, and each obstacle, checked in order, that
    /// overlaps the tank where it then stands pushes it one row back down.
    /// Facing elsewhere: turns up.
    pub fn move_up(&mut self, obstacles: Vec<Rect>)
        requires
            old(self).up_fits(obstacles@),
        ensures
            *final(self) == old(self).moved_up(obstacles@),
    {
        match self.direction {
            MovementDirection::Up => {
                let x = self.position.0;
                let y0 = self.position.1.saturating_sub(1);
                self.position = (x, y0);
                let ghost target = up_settle(x, y0 as int, obstacles@);
                assert(obstacles@.skip(0) =~= obstacles@);
                let mut i: usize = 0;
                while i < obstacles.len()
                    invariant
                        i <= obstacles.len(),
                        target <= u16::MAX,
                        self.position.0 == x,
                        up_settle(x, self.position.1 as int, obstacles@.skip(i as int)) == target,
                        self.direction == old(self).direction,
                        old(self).direction == MovementDirection::Up,
                        self.health == old(self).health,
                        self.ammo == old(self).ammo,
                        self.move_forward_steps == old(self).move_forward_steps,
                    decreases obstacles.len() - i,
                {
                    let ghost rest = obstacles@.skip(i as int);
                    proof {
                        assert(rest.drop_first() =~= obstacles@.skip(i + 1));
                        assert(rest[0] == obstacles@[i as int]);
                    }
                    if self.get_rect().intersects(obstacles[i]) {
                        proof {
                            lemma_up_settle_not_above(x, self.position.1 + 1, obstacles@.skip(i + 1));
                        }
                        self.position.1 += 1;
                    }
                    i += 1;
                }
            },
            _ => {
                self.direction = MovementDirection::Up;
            },
        }
    }

    /// Facing down: steps one row down (not past `u16::MAX`), and steps back
    /// up a row if it then overlaps an obstacle. Facing elsewhere: turns down.
    pub fn move_down(&mut self, obstacles: Vec<Rect>)
        ensures
            *final(self) == old(self).moved_down(obstacles@),
    {
        match self.direction {
            MovementDirection::Down => {
                let x = self.position.0;
                let y1 = self.position.1.saturating_add(1);
                self.position = (x, y1);
                let mut i: usize = 0;
                while i < obstacles.len()
                    invariant
                        i <= obstacles.len(),
                        self.position == (x, y1),
                        y1 >= 1,
                        forall|k: int| 0 <= k < i ==> !#[trigger] tank_rect(x, y1).overlaps(obstacles@[k]),
                        self.direction == old(self).direction,
                        old(self).direction == MovementDirection::Down,
                        self.health == old(self).health,
                        self.ammo == old(self).ammo,
                        self.move_forward_steps == old(self).move_forward_steps,
                        x == old(self).position.0,
                        y1 == sat_add16(old(self).position.1, 1),
                    decreases obstacles.len() - i,
                {
                    if self.get_rect().intersects(obstacles[i]) {
                        assert(tank_rect(x, y1).overlaps(obstacles@[i as int]));
                        self.position.1 -= 1;
                        return;
                    }
                    i += 1;
                }
            },
            _ => {
                self.direction = MovementDirection::Down;
            },
        }
    }

    /// Facing right: steps one column right (not past `u16::MAX`), and steps
    /// back if it then overlaps an obstacle. Facing elsewhere: turns right.
    pub fn move_right(&mut self, obstacles: Vec<Rect>)
        ensures
            *final(self) == old(self).moved_right(obstacles@),
    {
        match self.direction {
            MovementDirection::Right => {
                let y = self.position.1;
                let x1 = self.position.0.saturating_add(1);
                self.position = (x1, y);
                let mut i: usize = 0;
                while i < obstacles.len()
                    invariant
                        i <= obstacles.len(),
                        self.position == (x1, y),
                        x1 >= 1,
                        forall|k: int| 0 <= k < i ==> !#[trigger] tank_rect(x1, y).overlaps(obstacles@[k]),
                        self.direction == old(self).direction,
                        old(self).direction == MovementDirection::Right,
                        self.health == old(self).health,
                        self.ammo == old(self).ammo,
                        self.move_forward_steps == old(self).move_forward_steps,
                        y == old(self).position.1,
                        x1 == sat_add16(old(self).position.0, 1),
                    decreases obstacles.len() - i,
                {
                    if self.get_rect().intersects(obstacles[i]) {
                        assert(tank_rect(x1, y).overlaps(obstacles@[i as int]));
                        self.position.0 -= 1;
                        return;
                    }
                    i += 1;
                }
            },
            _ => {
                self.direction = MovementDirection::Right;
            },
        }
    }

    /// Facing left: steps one column left (not past zero), and steps back
    /// right if it then overlaps an obstacle. Facing elsewhere: turns left.
    pub fn move_left(&mut self, obstacles: Vec<Rect>)
        ensures
            *final(self) == old(self).moved_left(obstacles@),
    {
        match self.direction {
            MovementDirection::Left => {
                let y = self.position.1;
                let x1 = self.position.0.saturating_sub(1);
                self.position = (x1, y);
                let mut i: usize = 0;
                while i < obstacles.len()
                    invariant
                        i <= obstacles.len(),
                        self.position == (x1, y),
                        x1 < u16::MAX,
                        forall|k: int| 0 <= k < i ==> !#[trigger] tank_rect(x1, y).overlaps(obstacles@[k]),
                        self.direction == old(self).direction,
                        old(self).direction == MovementDirection::Left,
                        self.health == old(self).health,
                        self.ammo == old(self).ammo,
                        self.move_forward_steps == old(self).move_forward_steps,
                        y == old(self).position.1,
                        x1 == sat_sub16(old(self).position.0, 1),
                    decreases obstacles.len() - i,
                {
                    if self.get_rect().intersects(obstacles[i]) {
                        assert(tank_rect(x1, y).overlaps(obstacles@[i as int]));
                        self.position.0 += 1;
                        return;
                    }
                    i += 1;
                }
            },
            _ => {
                self.direction = MovementDirection::Left;
            },
        }
    }

    /// Turns right, or queues one more move if already facing right.
    pub fn rotate_right(&mut self)
        requires
            old(self).can_face(MovementDirection::Right),
        ensures
            *final(self) == old(self).faced(MovementDirection::Right),
    {
        if let MovementDirection::Right = self.direction {
            self.move_forward_steps += 1
        } else {
            self.move_forward_steps = 0;
            self.direction = MovementDirection::Right;
        }
    }

    /// Turns left, or queues one more move if already facing left.
    pub fn rotate_left(&mut self)
        requires
            old(self).can_face(MovementDirection::Left),
        ensures
            *final(self) == old(self).faced(MovementDirection::Left),
    {
        if let MovementDirection::Left = self.direction {
            self.move_forward_steps += 1
        } else {
            self.move_forward_steps = 0;
            self.direction = MovementDirection::Left;
        }
    }

    /// Turns up, or queues one more move if already facing up.
    pub fn rotate_up(&mut self)
        requires
            old(self).can_face(MovementDirection::Up),
        ensures
            *final(self) == old(self).faced(MovementDirection::Up),
    {
        if let MovementDirection::Up = self.direction {
            self.move_forward_steps += 1;
        } else {
            self.direction = MovementDirection::Up;
            self.move_forward_steps = 0;
        }
    }

    /// Turns down, or queues one more move if already facing down.
    pub fn rotate_down(&mut self)
        requires
            old(self).can_face(MovementDirection::Down),
        ensures
            *final(self) == old(self).faced(MovementDirection::Down),
    {
        if let MovementDirection::Down = self.direction {
            self.move_forward_steps += 1
        } else {
            self.direction = MovementDirection::Down;
            self.move_forward_steps = 0
        }
    }

    /// A quarter turn counter-clockwise; nothing else changes.
    pub fn rotate(&mut self)
        ensures
            *final(self) == (Tank { direction: old(self).direction.turned(), ..*old(self) }),
    {
        self.direction = {
            match self.direction {
                MovementDirection::Left => MovementDirection::Down,
                MovementDirection::Up => MovementDirection::Left,
                MovementDirection::Down => MovementDirection::Right,
                MovementDirection::Right => MovementDirection::Up,
            }
        }
    }

    /// A quarter turn clockwise; nothing else changes.
    pub fn rotate_back(&mut self)
        ensures
            *final(self) == (Tank { direction: old(self).direction.turned_back(), ..*old(self) }),
    {
        self.direction = {
            match self.direction {
                MovementDirection::Down => MovementDirection::Left,
                MovementDirection::Left => MovementDirection::Up,
                MovementDirection::Right => MovementDirection::Down,
                MovementDirection::Up => MovementDirection::Right,
            }
        }
    }

    /// Fires a bullet from the muzzle in the direction faced, and clears the
    /// queue of moves.
    pub fn shoot(&mut self) -> (b: Bullet)
        requires
            old(self).shot_defined(),
        ensures
            b == old(self).shot(),
            *final(self) == (Tank { move_forward_steps: 0, ..*old(self) }),
    {
        let direction = self.direction;
        let (x, y) = self.position;
        let position: Position = match direction {
            MovementDirection::Left => (x, y + 1),
            MovementDirection::Right => (x + 2, y + 1),
            MovementDirection::Up => (x + 1, y),
            MovementDirection::Down => (x + 1, y + 1),
        };
        self.move_forward_steps = 0;
        Bullet { direction, position }
    }

    pub fn get_rect(&self) -> (r: Rect)
        ensures
            r == self.rect(),
    {
        let (x, y) = self.position;
        Rect { x, y, width: 3, height: 3 }
    }

    pub fn get_damage_rect(&self) -> (r: Rect)
        requires
            self.damage_rect_defined(),
        ensures
            r == self.damage_rect(),
    {
        let (x, y) = self.position;
        match self.direction {
            MovementDirection::Down | MovementDirection::Up => Rect { x, y: y + 1, width: 3, height: 1 },
            MovementDirection::Left | MovementDirection::Right => Rect { x, y, width: 3, height: 3 },
        }
    }

    /// One point of health more, never past `usize::MAX`.
    pub fn receive_hp(&mut self)
        ensures
            final(self).health == (if old(self).health < usize::MAX {
                old(self).health + 1
            } else {
                old(self).health as int
            }),
            *final(self) == (Tank { health: final(self).health, ..*old(self) }),
    {
        self.health = self.health.saturating_add(1);
    }

    /// One point of health less, never below zero.
    pub fn receive_damage(&mut self)
        ensures
            *final(self) == old(self).damaged(),
    {
        self.health = self.health.saturating_sub(1);
    }
}

impl Default for Tank {
    /// A tank at the origin, facing right, with nothing: no health, no ammo,
    /// no queued moves.
    fn default() -> (t: Tank)
        ensures
            t.position == (0u16, 0u16),
            t.direction == MovementDirection::Right,
            t.health == 0,
            t.ammo == 0,
            t.move_forward_steps == 0,
    {
        Tank {
            position: (0, 0),
            direction: MovementDirection::Right,
            health: 0,
            ammo: 0,
            move_forward_steps: 0,
        }
    }
}

} // verus!
