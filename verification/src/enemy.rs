use vstd::prelude::*;
use crate::bullet::Bullet;
use crate::geometry::Rect;
use crate::utils::Position;
use crate::player::Tank;

verus! {

/// An enemy: a tank, and whether a hit has told it to turn away.
#[derive(Debug, Clone, Copy)]
pub struct Enemy {
    pub tank: Tank,
    pub needs_rotation: bool,
}

impl Enemy {
    /// The enemy after a bullet hits it: a living enemy loses a point of
    /// health, drops its queued moves and is told to turn; a wreck is left
    /// alone.
    pub open spec fn hit(self) -> Enemy {
        if self.tank.health > 0 {
            Enemy {
                tank: Tank { move_forward_steps: 0, ..self.tank.damaged() },
                needs_rotation: true,
            }
        } else {
            self
        }
    }

    /// An enemy is destroyed once its health is gone.
    pub open spec fn destroyed(self) -> bool {
        self.tank.health == 0
    }

    /// A fresh enemy: a fresh tank at `position`, with no pending turn.
    pub open spec fn fresh(position: Position) -> Enemy {
        Enemy { tank: Tank::fresh(position), needs_rotation: false }
    }

    pub fn new(position: Position) -> (e: Enemy)
        ensures
            e == Enemy::fresh(position),
    {
        Enemy { tank: Tank::new(position), needs_rotation: false }
    }

    pub fn get_pos(&self) -> (p: (u16, u16))
        ensures
            p == self.tank.position,
    {
        self.tank.position
    }

    pub fn get_rect(&self) -> (r: Rect)
        ensures
            r == self.tank.rect(),
    {
        self.tank.get_rect()
    }

    pub fn get_damage_rect(&self) -> (r: Rect)
        requires
            self.tank.damage_rect_defined(),
        ensures
            r == self.tank.damage_rect(),
    {
        self.tank.get_damage_rect()
    }

    /// A living enemy fires (clearing its queued moves); a wreck does not.
    pub fn shoot(&mut self) -> (b: Option<Bullet>)
        requires
            !old(self).destroyed() ==> old(self).tank.shot_defined(),
        ensures
            old(self).destroyed() ==> b is None && *final(self) == *old(self),
            !old(self).destroyed() ==> b == Some(old(self).tank.shot()) && *final(self) == (Enemy {
                tank: Tank { move_forward_steps: 0, ..old(self).tank },
                ..*old(self)
            }),
    {
        if self.tank.health != 0 {
            Some(self.tank.shoot())
        } else {
            None
        }
    }

    pub fn receive_damage(&mut self)
        ensures
            *final(self) == old(self).hit(),
    {
        if self.tank.health > 0 {
            self.tank.receive_damage();
            self.tank.move_forward_steps = 0;
            self.needs_rotation = true;
        }
    }

    /// A quarter turn counter-clockwise, which settles the pending turn.
    pub fn rotate(&mut self)
        ensures
            *final(self) == (Enemy {
                tank: Tank { direction: old(self).tank.direction.turned(), ..old(self).tank },
                needs_rotation: false,
            }),
    {
        self.tank.rotate();
        self.needs_rotation = false;
    }

    pub fn is_destroyed(&self) -> (b: bool)
        ensures
            b == self.destroyed(),
    {
        self.tank.health == 0
    }
}

} // verus!
