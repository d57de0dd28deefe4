use vstd::prelude::*;
use crate::bullet::Bullet;
use crate::enemy::Enemy;
use crate::geometry::Rect;
use crate::player::Tank;

verus! {

/// What an explosion mark shows: a spent bullet, a wrecked enemy, or the
/// wrecked player.
#[derive(Debug, Clone, Copy, PartialEq, Eq)]
pub enum DummyKind {
    Bullet,
    Enemy,
    Player,
}

/// An explosion mark left on the arena for a number of frames.
#[derive(Debug, Clone, Copy, PartialEq, Eq)]
pub struct Dummy {
    pub kind: DummyKind,
    pub rect: Rect,
    pub frames: usize,
}

impl Dummy {
    /// The mark a spent bullet leaves: ten frames, on the bullet's cell.
    pub open spec fn of_bullet(bullet: Bullet) -> Dummy {
        Dummy { kind: DummyKind::Bullet, rect: bullet.rect(), frames: 10 }
    }

    /// The mark a wrecked enemy leaves: fifty frames, over the tank.
    pub open spec fn of_enemy(enemy: Enemy) -> Dummy {
        Dummy { kind: DummyKind::Enemy, rect: enemy.tank.rect(), frames: 50 }
    }

    /// The mark a wrecked player leaves: five thousand frames, over the tank.
    pub open spec fn of_player(player: Tank) -> Dummy {
        Dummy { kind: DummyKind::Player, rect: player.rect(), frames: 5000 }
    }

    /// The mark one frame later: one frame fewer, if any were left.
    pub open spec fn aged(self) -> Dummy {
        if self.frames > 0 {
            Dummy { frames: (self.frames - 1) as usize, ..self }
        } else {
            self
        }
    }

    pub fn from_bullet(bullet: &Bullet) -> (d: Dummy)
        ensures
            d == Dummy::of_bullet(*bullet),
    {
        Dummy { kind: DummyKind::Bullet, rect: bullet.get_rect(), frames: 10 }
    }

    pub fn from_enemy(enemy: &Enemy) -> (d: Dummy)
        ensures
            d == Dummy::of_enemy(*enemy),
    {
        Dummy { kind: DummyKind::Enemy, rect: enemy.get_rect(), frames: 50 }
    }

    pub fn from_player(player: &Tank) -> (d: Dummy)
        ensures
            d == Dummy::of_player(*player),
    {
        Dummy { kind: DummyKind::Player, rect: player.get_rect(), frames: 5000 }
    }

    /// Counts one frame down; says whether the mark is still to be shown,
    /// which is whether any frame was left.
    pub fn decrease_frames(&mut self) -> (alive: bool)
        ensures
            alive == (old(self).frames > 0),
            *final(self) == old(self).aged(),
    {
        if self.frames > 0 {
            self.frames -= 1;
            true
        } else {
            false
        }
    }
}

} // verus!
