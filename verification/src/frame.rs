use vstd::prelude::*;
use crate::animations::Dummy;
use crate::app::{App, AppView, Difficulty};
use crate::bullet::Bullet;
use crate::enemy::Enemy;
use crate::geometry::Rect;
use crate::player::{Tank, up_settle, lemma_up_settle_not_above};
use crate::utils::MovementDirection;
use crate::wall::{Wall, WallType};

verus! {

/// Where a bullet is one frame later, or `None` once it has reached the edge
/// of an arena of `max_x` by `max_y` cells.
pub open spec fn advanced(b: Bullet, max_x: u16, max_y: u16) -> Option<Bullet> {
    let (x, y) = b.position;
    match b.direction {
        MovementDirection::Left => if x == 0 {
            None
        } else {
            Some(Bullet { position: ((x - 1) as u16, y), ..b })
        },
        MovementDirection::Down => if y >= max_y - 1 {
            None
        } else {
            Some(Bullet { position: (x, (y + 1) as u16), ..b })
        },
        MovementDirection::Up => if y == 0 {
            None
        } else {
            Some(Bullet { position: (x, (y - 1) as u16), ..b })
        },
        MovementDirection::Right => if x >= max_x - 1 {
            None
        } else {
            Some(Bullet { position: ((x + 1) as u16, y), ..b })
        },
    }
}

/// A wall that is not water covers part of `r`.
pub open spec fn hits_wall(walls: Seq<Wall>, r: Rect) -> bool {
    exists|k: int|
        0 <= k < walls.len() && walls[k].wall_type != WallType::Water && r.overlaps(
            #[trigger] walls[k].rect,
        )
}

/// Enemy `j` is the first, in order, whose damage rectangle `r` overlaps.
pub open spec fn first_enemy_hit(enemies: Seq<Enemy>, r: Rect, j: int) -> bool {
    &&& 0 <= j < enemies.len()
    &&& r.overlaps(enemies[j].tank.damage_rect())
    &&& forall|k: int| 0 <= k < j ==> !r.overlaps(#[trigger] enemies[k].tank.damage_rect())
}

/// The first enemy, in order, that a bullet on `r` hits, if any.
pub open spec fn enemy_hit(enemies: Seq<Enemy>, r: Rect) -> Option<int> {
    if exists|j: int| first_enemy_hit(enemies, r, j) {
        Some(choose|j: int| first_enemy_hit(enemies, r, j))
    } else {
        None
    }
}

/// The round after one bullet's frame: it flies a cell on; then, the first
/// thing that stops it (the edge, a wall that is not water, an enemy, the
/// player) takes the hit, and the bullet leaves a mark where it ended. A
/// bullet that nothing stops is kept. The player's wreck gets a mark of its
/// own when the hit takes its last point of health.
pub open spec fn fly_one(w: AppView, b: Bullet, max_x: u16, max_y: u16) -> AppView {
    match advanced(b, max_x, max_y) {
        None => AppView { dummies: w.dummies.push(Dummy::of_bullet(b)), ..w },
        Some(nb) => {
            let r = nb.rect();
            let spent = w.dummies.push(Dummy::of_bullet(nb));
            if hits_wall(w.walls, r) {
                AppView { dummies: spent, ..w }
            } else if let Some(j) = enemy_hit(w.enemies, r) {
                AppView { dummies: spent, enemies: w.enemies.update(j, w.enemies[j].hit()), ..w }
            } else if r.overlaps(w.player.damage_rect()) {
                AppView {
                    dummies: if w.player.health == 1 {
                        spent.push(Dummy::of_player(w.player))
                    } else {
                        spent
                    },
                    player: w.player.damaged(),
                    ..w
                }
            } else {
                AppView { bullets: w.bullets.push(nb), ..w }
            }
        },
    }
}

/// The round after `bullets` have flown, one after the other, from `w`.
pub open spec fn fly_all(w: AppView, bullets: Seq<Bullet>, max_x: u16, max_y: u16) -> AppView
    decreases bullets.len(),
{
    if bullets.len() == 0 {
        w
    } else {
        fly_one(fly_all(w, bullets.drop_last(), max_x, max_y), bullets.last(), max_x, max_y)
    }
}

/// The round after every bullet in flight has had its frame; the bullets
/// that fly on keep their order.
pub open spec fn after_bullets(w: AppView, max_x: u16, max_y: u16) -> AppView {
    fly_all(AppView { bullets: Seq::empty(), ..w }, w.bullets, max_x, max_y)
}

/// Nothing but health, queued moves and pending turns changed between `a`
/// and `b`; queues and health did not grow, and every enemy is still there.
pub open spec fn same_ground(a: AppView, b: AppView) -> bool {
    &&& b.walls == a.walls
    &&& b.player.position == a.player.position
    &&& b.player.direction == a.player.direction
    &&& b.player.move_forward_steps == a.player.move_forward_steps
    &&& b.enemies.len() == a.enemies.len()
    &&& forall|j: int|
        0 <= j < a.enemies.len() ==> {
            &&& (#[trigger] b.enemies[j]).tank.position == a.enemies[j].tank.position
            &&& b.enemies[j].tank.direction == a.enemies[j].tank.direction
            &&& b.enemies[j].tank.move_forward_steps <= a.enemies[j].tank.move_forward_steps
            &&& b.enemies[j].tank.health <= a.enemies[j].tank.health
        }
    &&& b.difficulty == a.difficulty
    &&& b.state == a.state
    &&& b.lvl == a.lvl
}

/// Every tank's damage rectangle exists.
pub open spec fn damage_rects_defined(w: AppView) -> bool {
    &&& w.player.damage_rect_defined()
    &&& forall|j: int| 0 <= j < w.enemies.len() ==> (#[trigger] w.enemies[j]).tank.damage_rect_defined()
}

/// Only one enemy can be the first one hit.
proof fn lemma_first_hit_unique(enemies: Seq<Enemy>, r: Rect, j1: int, j2: int)
    requires
        first_enemy_hit(enemies, r, j1),
        first_enemy_hit(enemies, r, j2),
    ensures
        j1 == j2,
{
    if j1 < j2 {
        assert(!r.overlaps(enemies[j1].tank.damage_rect()));
    } else if j2 < j1 {
        assert(!r.overlaps(enemies[j2].tank.damage_rect()));
    }
}

/// Whether a wall that is not water covers part of `r`.
fn wall_in_way(walls: &Vec<Wall>, r: Rect) -> (b: bool)
    ensures
        b == hits_wall(walls@, r),
{
    let mut k: usize = 0;
    while k < walls.len()
        invariant
            k <= walls.len(),
            forall|m: int|
                0 <= m < k ==> !(walls@[m].wall_type != WallType::Water && r.overlaps(
                    #[trigger] walls@[m].rect,
                )),
        decreases walls.len() - k,
    {
        if !walls[k].is_water() && r.intersects(walls[k].get_rect()) {
            return true;
        }
        k += 1;
    }
    false
}

/// The first enemy, in order, whose damage rectangle `r` overlaps.
fn enemy_in_way(enemies: &Vec<Enemy>, r: Rect) -> (h: Option<usize>)
    requires
        forall|j: int| 0 <= j < enemies@.len() ==> (#[trigger] enemies@[j]).tank.damage_rect_defined(),
    ensures
        h matches Some(j) ==> j < enemies@.len() && enemy_hit(enemies@, r) == Some(j as int),
        h is None ==> enemy_hit(enemies@, r) is None,
{
    let mut k: usize = 0;
    while k < enemies.len()
        invariant
            k <= enemies.len(),
            forall|j: int| 0 <= j < enemies@.len() ==> (#[trigger] enemies@[j]).tank.damage_rect_defined(),
            forall|m: int| 0 <= m < k ==> !r.overlaps(#[trigger] enemies@[m].tank.damage_rect()),
        decreases enemies.len() - k,
    {
        if r.intersects(enemies[k].get_damage_rect()) {
            proof {
                assert(first_enemy_hit(enemies@, r, k as int));
                let c = choose|j: int| first_enemy_hit(enemies@, r, j);
                lemma_first_hit_unique(enemies@, r, c, k as int);
            }
            return Some(k);
        }
        k += 1;
    }
    proof {
        assert forall|j: int| !first_enemy_hit(enemies@, r, j) by {
            if first_enemy_hit(enemies@, r, j) {
                assert(!r.overlaps(enemies@[j].tank.damage_rect()));
            }
        }
    }
    None
}

impl App {
    /// One bullet's frame, as `fly_one` states.
    fn fly_bullet(&mut self, b: Bullet, max_x: u16, max_y: u16)
        requires
            max_x >= 1,
            max_y >= 1,
            damage_rects_defined(old(self)@),
        ensures
            final(self)@ == fly_one(old(self)@, b, max_x, max_y),
            same_ground(old(self)@, final(self)@),
            damage_rects_defined(final(self)@),
    {
        let (x, y) = b.position;
        let moved: Option<Bullet> = match b.direction {
            MovementDirection::Left => if x == 0 {
                None
            } else {
                Some(Bullet { position: (x - 1, y), ..b })
            },
            MovementDirection::Down => if y >= max_y - 1 {
                None
            } else {
                Some(Bullet { position: (x, y + 1), ..b })
            },
            MovementDirection::Up => if y == 0 {
                None
            } else {
                Some(Bullet { position: (x, y - 1), ..b })
            },
            MovementDirection::Right => if x >= max_x - 1 {
                None
            } else {
                Some(Bullet { position: (x + 1, y), ..b })
            },
        };
        match moved {
            None => {
                self.dummies.push(Dummy::from_bullet(&b));
            },
            Some(nb) => {
                let r = nb.get_rect();
                if wall_in_way(&self.walls, r) {
                    self.dummies.push(Dummy::from_bullet(&nb));
                    return ;
                }
                match enemy_in_way(&self.enemies, r) {
                    Some(j) => {
                        self.dummies.push(Dummy::from_bullet(&nb));
                        let mut e = self.enemies[j];
                        e.receive_damage();
                        self.enemies.set(j, e);
                    },
                    None => {
                        if r.intersects(self.player.get_damage_rect()) {
                            self.dummies.push(Dummy::from_bullet(&nb));
                            if self.player.health == 1 {
                                self.dummies.push(Dummy::from_player(&self.player));
                            }
                            self.player.receive_damage();
                        } else {
                            self.bullets.push(nb);
                        }
                    },
                }
            },
        }
    }

    /// Every bullet in flight has its frame, in order.
    fn fly_bullets(&mut self, max_x: u16, max_y: u16)
        requires
            max_x >= 1,
            max_y >= 1,
            damage_rects_defined(old(self)@),
        ensures
            final(self)@ == after_bullets(old(self)@, max_x, max_y),
            same_ground(old(self)@, final(self)@),
    {
        let mut incoming: Vec<Bullet> = Vec::new();
        std::mem::swap(&mut incoming, &mut self.bullets);
        let ghost start = AppView { bullets: Seq::empty(), ..old(self)@ };
        assert(incoming@.take(0) =~= Seq::<Bullet>::empty());
        let mut k: usize = 0;
        while k < incoming.len()
            invariant
                k <= incoming.len(),
                max_x >= 1,
                max_y >= 1,
                incoming@ == old(self)@.bullets,
                start == (AppView { bullets: Seq::empty(), ..old(self)@ }),
                self@ == fly_all(start, incoming@.take(k as int), max_x, max_y),
                same_ground(old(self)@, self@),
                damage_rects_defined(self@),
            decreases incoming.len() - k,
        {
            let b = incoming[k];
            proof {
                assert(incoming@.take(k + 1).drop_last() =~= incoming@.take(k as int));
                assert(incoming@.take(k + 1).last() == b);
            }
            self.fly_bullet(b, max_x, max_y);
            k += 1;
        }
        assert(incoming@.take(incoming.len() as int) =~= incoming@);
    }
}


/// Every this many frames, enemies reload and may fire.
pub const ENEMY_SHOOT_INTERVAL: u32 = 55;

/// Every this many frames, enemies that have nothing else to do turn.
pub const ENEMY_ROTATION_INTERVAL: u32 = 90;

/// Two coordinates are at most one cell apart.
pub open spec fn near(a: u16, b: u16) -> bool {
    -1 <= a - b <= 1
}

/// Everything tanks cannot drive through this frame: the walls, the enemies,
/// the player, then the borders of the arena.
pub open spec fn obstacles_of(w: AppView, borders: Seq<Rect>) -> Seq<Rect> {
    w.walls.map_values(|wl: Wall| wl.rect) + w.enemies.map_values(|e: Enemy| e.tank.rect()) + seq![
        w.player.rect(),
    ] + borders
}

/// The player's move this frame: one queued move, if there is one.
pub open spec fn player_turn(p: Tank, obstacles: Seq<Rect>) -> Tank {
    if p.move_forward_steps > 0 {
        p.stepped().moved_forward(obstacles)
    } else {
        p
    }
}

/// An enemy's turn in frame `i`, with the player at `p`, and what it fires.
///
/// A wreck does nothing. On every `ENEMY_SHOOT_INTERVAL`-th frame an enemy
/// reloads one round. An enemy in line with the player (at most a cell off on
/// one axis) turns towards it, first vertically, then horizontally, and fires
/// when the game is hard or it reloaded this frame; otherwise, on every
/// `ENEMY_ROTATION_INTERVAL`-th frame, it queues a move and makes one. An
/// enemy out of line uses a queued move if it has one; else, on every
/// `ENEMY_ROTATION_INTERVAL`-th frame or after being hit, it turns a quarter
/// counter-clockwise and queues five moves.
pub open spec fn enemy_turn(
    e: Enemy,
    p: (u16, u16),
    i: u32,
    is_hard: bool,
    obstacles: Seq<Rect>,
) -> (Enemy, Option<Bullet>) {
    if e.destroyed() {
        (e, None)
    } else {
        let (ex, ey) = e.tank.position;
        let vertical = near(ex, p.0);
        let horizontal = near(ey, p.1);
        let reload = i % ENEMY_SHOOT_INTERVAL == 0;
        let t0 = if reload { Tank { ammo: 1, ..e.tank } } else { e.tank };
        if vertical || horizontal {
            let t1 = if vertical {
                if p.1 > ey { t0.faced(MovementDirection::Down) } else { t0.faced(MovementDirection::Up) }
            } else {
                t0
            };
            let t2 = if horizontal {
                if p.0 > ex { t1.faced(MovementDirection::Right) } else { t1.faced(MovementDirection::Left) }
            } else {
                t1
            };
            if is_hard || reload {
                (Enemy { tank: Tank { move_forward_steps: 0, ..t2 }, ..e }, Some(t2.shot()))
            } else if i % ENEMY_ROTATION_INTERVAL == 0 {
                let t3 = Tank { move_forward_steps: (t2.move_forward_steps + 1) as usize, ..t2 };
                (Enemy { tank: t3.moved_forward(obstacles), ..e }, None)
            } else {
                (Enemy { tank: t2, ..e }, None)
            }
        } else if t0.move_forward_steps > 0 {
            (Enemy { tank: t0.stepped().moved_forward(obstacles), ..e }, None)
        } else if i % ENEMY_ROTATION_INTERVAL == 0 || e.needs_rotation {
            (
                Enemy {
                    tank: Tank { direction: t0.direction.turned(), move_forward_steps: 5, ..t0 },
                    needs_rotation: false,
                },
                None,
            )
        } else {
            (Enemy { tank: t0, ..e }, None)
        }
    }
}

/// A living enemy can take its turn without leaving the numbers a `u16` or
/// a `usize` holds: its muzzle exists in every direction, two more queued
/// moves fit, and a move up settles on a row that exists.
pub open spec fn enemy_turn_ready(e: Enemy, obstacles: Seq<Rect>) -> bool {
    let (x, y) = e.tank.position;
    !e.destroyed() ==> {
        &&& x + 2 <= u16::MAX
        &&& y < u16::MAX
        &&& e.tank.move_forward_steps + 2 <= usize::MAX
        &&& crate::player::up_settle(x, crate::geometry::sat_sub16(y, 1) as int, obstacles) <= u16::MAX
    }
}

/// The enemies after each has taken its turn, in order, and the bullets they
/// fired, in that order.
pub open spec fn enemies_turns(
    es: Seq<Enemy>,
    p: (u16, u16),
    i: u32,
    is_hard: bool,
    obstacles: Seq<Rect>,
) -> (Seq<Enemy>, Seq<Bullet>)
    decreases es.len(),
{
    if es.len() == 0 {
        (Seq::empty(), Seq::empty())
    } else {
        let (done, shots) = enemies_turns(es.drop_last(), p, i, is_hard, obstacles);
        let (e, shot) = enemy_turn(es.last(), p, i, is_hard, obstacles);
        (
            done.push(e),
            match shot {
                Some(b) => shots.push(b),
                None => shots,
            },
        )
    }
}

/// The enemies still alive, in order, and a wreck mark for each destroyed
/// one, in order.
pub open spec fn cull(es: Seq<Enemy>) -> (Seq<Enemy>, Seq<Dummy>)
    decreases es.len(),
{
    if es.len() == 0 {
        (Seq::empty(), Seq::empty())
    } else {
        let (alive, wrecks) = cull(es.drop_last());
        let e = es.last();
        if e.destroyed() {
            (alive, wrecks.push(Dummy::of_enemy(e)))
        } else {
            (alive.push(e), wrecks)
        }
    }
}

/// The marks one frame older: each that had frames left loses one and
/// stays, in order; the others go.
pub open spec fn aged_all(ds: Seq<Dummy>) -> Seq<Dummy>
    decreases ds.len(),
{
    if ds.len() == 0 {
        Seq::empty()
    } else {
        let rest = aged_all(ds.drop_last());
        let d = ds.last();
        if d.frames > 0 {
            rest.push(d.aged())
        } else {
            rest
        }
    }
}

/// The round one frame later: bullets fly, the player makes a queued move,
/// each enemy takes its turn, wrecked enemies are cleared away leaving marks,
/// and every mark ages.
pub open spec fn next_frame(
    w: AppView,
    i: u32,
    max_x: u16,
    max_y: u16,
    borders: Seq<Rect>,
    is_hard: bool,
) -> AppView {
    let w1 = after_bullets(w, max_x, max_y);
    let obstacles = obstacles_of(w1, borders);
    let p = player_turn(w1.player, obstacles);
    let (es, shots) = enemies_turns(w1.enemies, p.position, i, is_hard, obstacles);
    let (alive, wrecks) = cull(es);
    AppView {
        player: p,
        enemies: alive,
        bullets: w1.bullets + shots,
        dummies: aged_all(w1.dummies + wrecks),
        ..w1
    }
}

/// A frame can be played without leaving the numbers a `u16` or a `usize`
/// holds: every damage rectangle exists, the player's move settles on the
/// board, and every living enemy is ready for its turn.
pub open spec fn frame_ready(w: AppView, borders: Seq<Rect>) -> bool {
    let obstacles = obstacles_of(w, borders);
    &&& w.player.damage_rect_defined()
    &&& w.player.up_fits(obstacles)
    &&& forall|j: int|
        0 <= j < w.enemies.len() ==> {
            &&& (#[trigger] w.enemies[j]).tank.damage_rect_defined()
            &&& enemy_turn_ready(w.enemies[j], obstacles)
        }
}

/// The four one-cell borders of an arena of `width` by `height` cells: left,
/// top, bottom, right.
pub open spec fn borders_of(width: u16, height: u16) -> Seq<Rect> {
    seq![
        Rect::clamped(0, 0, 1, height),
        Rect::clamped(0, 0, width, 1),
        Rect::clamped(0, (height - 1) as u16, width, 1),
        Rect::clamped((width - 1) as u16, 0, 1, height),
    ]
}

/// What the frames of one round share: the size of the arena, its borders,
/// and whether the round was started as a hard one.
pub struct Arena {
    pub max_x: u16,
    pub max_y: u16,
    pub borders: Vec<Rect>,
    pub is_hard: bool,
}

/// How far apart two coordinates are.
fn abs_diff(a: u16, b: u16) -> (d: u16)
    ensures
        d == (if a >= b { a - b } else { b - a }),
{
    if a >= b {
        a - b
    } else {
        b - a
    }
}

/// One enemy's turn, as `enemy_turn` states; returns what it fired.
fn enemy_act(e: &mut Enemy, player_pos: (u16, u16), i: u32, is_hard: bool, obstacles: &Vec<Rect>) -> (shot: Option<Bullet>)
    requires
        enemy_turn_ready(*old(e), obstacles@),
    ensures
        (*final(e), shot) == enemy_turn(*old(e), player_pos, i, is_hard, obstacles@),
{
    if e.is_destroyed() {
        return None;
    }
    let looks_vertical = abs_diff(e.tank.position.0, player_pos.0) <= 1;
    let looks_horizontal = abs_diff(e.tank.position.1, player_pos.1) <= 1;
    if i.is_multiple_of(ENEMY_SHOOT_INTERVAL) {
        e.tank.ammo = 1;
    };
    if looks_vertical || looks_horizontal {
        if looks_vertical {
            if player_pos.1 > e.tank.position.1 {
                e.tank.rotate_down();
            } else {
                e.tank.rotate_up();
            }
        }
        if looks_horizontal {
            if player_pos.0 > e.tank.position.0 {
                e.tank.rotate_right();
            } else {
                e.tank.rotate_left();
            }
        }
        let fired = if is_hard || i.is_multiple_of(ENEMY_SHOOT_INTERVAL) {
            e.shoot()
        } else {
            None
        };
        match fired {
            Some(bullet) => {
                return Some(bullet);
            },
            None => {
                if i.is_multiple_of(ENEMY_ROTATION_INTERVAL) {
                    e.tank.move_forward_steps += 1;
                    e.tank.move_forward(obstacles);
                }
            },
        }
    } else if e.tank.shall_move_forward() {
        e.tank.move_forward(obstacles);
    } else if i.is_multiple_of(ENEMY_ROTATION_INTERVAL) || e.needs_rotation {
        e.rotate();
        e.tank.move_forward_steps = 5
    }
    None
}

impl App {
    /// Gets a round ready to be played on an arena of `width` by `height`
    /// cells: the player is moved at least two cells in from the top left
    /// corner, and the arena's borders are laid.
    pub fn start_run(&mut self, width: u16, height: u16) -> (arena: Arena)
        requires
            width >= 1,
            height >= 1,
        ensures
            final(self)@ == (AppView {
                player: Tank {
                    position: (
                        if old(self).player.position.0 < 2 { 2 } else { old(self).player.position.0 },
                        if old(self).player.position.1 < 2 { 2 } else { old(self).player.position.1 },
                    ),
                    ..old(self).player
                },
                ..old(self)@
            }),
            arena.max_x == width,
            arena.max_y == height,
            arena.borders@ == borders_of(width, height),
            arena.is_hard == (old(self).difficulty == Difficulty::Hard),
    {
        let (min_x, min_y): (u16, u16) = (2, 2);
        self.player.position.0 = self.player.position.0.max(min_x);
        self.player.position.1 = self.player.position.1.max(min_y);
        let (max_x, max_y) = (width, height);
        let mut borders: Vec<Rect> = Vec::new();
        borders.push(Rect::new(0, 0, 1, max_y));
        borders.push(Rect::new(0, 0, max_x, 1));
        borders.push(Rect::new(0, max_y - 1, max_x, 1));
        borders.push(Rect::new(max_x - 1, 0, 1, max_y));
        assert(borders@ =~= borders_of(width, height));
        let is_hard = self.is_hard();
        Arena { max_x, max_y, borders, is_hard }
    }
}

/// Bullets do not move tanks or walls, so the obstacles stay the same.
proof fn lemma_same_obstacles(a: AppView, b: AppView, borders: Seq<Rect>)
    requires
        same_ground(a, b),
    ensures
        obstacles_of(b, borders) == obstacles_of(a, borders),
{
    let ea = a.enemies.map_values(|e: Enemy| e.tank.rect());
    let eb = b.enemies.map_values(|e: Enemy| e.tank.rect());
    assert(eb =~= ea) by {
        assert forall|j: int| 0 <= j < ea.len() implies eb[j] == ea[j] by {
            assert(b.enemies[j].tank.position == a.enemies[j].tank.position);
        }
    }
    assert(obstacles_of(b, borders) =~= obstacles_of(a, borders));
}

impl App {
    /// Everything tanks cannot drive through this frame, as `obstacles_of`
    /// lists it.
    fn obstacles(&self, borders: &Vec<Rect>) -> (obs: Vec<Rect>)
        ensures
            obs@ == obstacles_of(self@, borders@),
    {
        let mut obs: Vec<Rect> = Vec::new();
        let mut k: usize = 0;
        while k < self.walls.len()
            invariant
                k <= self.walls.len(),
                obs@ =~= self.walls@.take(k as int).map_values(|wl: Wall| wl.rect),
            decreases self.walls.len() - k,
        {
            obs.push(self.walls[k].get_rect());
            proof {
                assert(self.walls@.take(k + 1).map_values(|wl: Wall| wl.rect) =~= self.walls@.take(
                    k as int,
                ).map_values(|wl: Wall| wl.rect).push(self.walls@[k as int].rect));
            }
            k += 1;
        }
        let ghost wall_part = obs@;
        assert(self.walls@.take(self.walls.len() as int) =~= self.walls@);
        let mut k: usize = 0;
        while k < self.enemies.len()
            invariant
                k <= self.enemies.len(),
                wall_part == self.walls@.map_values(|wl: Wall| wl.rect),
                obs@ =~= wall_part + self.enemies@.take(k as int).map_values(|e: Enemy| e.tank.rect()),
            decreases self.enemies.len() - k,
        {
            obs.push(self.enemies[k].get_rect());
            proof {
                assert(self.enemies@.take(k + 1).map_values(|e: Enemy| e.tank.rect()) =~= self.enemies@.take(
                    k as int,
                ).map_values(|e: Enemy| e.tank.rect()).push(self.enemies@[k as int].tank.rect()));
            }
            k += 1;
        }
        assert(self.enemies@.take(self.enemies.len() as int) =~= self.enemies@);
        obs.push(self.player.get_rect());
        let ghost tank_part = obs@;
        let mut k: usize = 0;
        while k < borders.len()
            invariant
                k <= borders.len(),
                obs@ =~= tank_part + borders@.take(k as int),
            decreases borders.len() - k,
        {
            obs.push(borders[k]);
            proof {
                assert(borders@.take(k + 1) =~= borders@.take(k as int).push(borders@[k as int]));
            }
            k += 1;
        }
        assert(borders@.take(borders.len() as int) =~= borders@);
        obs
    }

    /// Every enemy takes its turn, in order; what they fire joins the
    /// bullets in flight, in that order.
    fn enemies_act(&mut self, i: u32, is_hard: bool, obstacles: &Vec<Rect>)
        requires
            forall|j: int|
                0 <= j < old(self).enemies@.len() ==> enemy_turn_ready(
                    #[trigger] old(self).enemies@[j],
                    obstacles@,
                ),
        ensures
            ({
                let (es, shots) = enemies_turns(
                    old(self).enemies@,
                    old(self).player.position,
                    i,
                    is_hard,
                    obstacles@,
                );
                final(self)@ == (AppView {
                    enemies: es,
                    bullets: old(self).bullets@ + shots,
                    ..old(self)@
                })
            }),
    {
        let player_pos = self.player.position;
        let ghost es0 = self.enemies@;
        let ghost bs0 = self.bullets@;
        assert(es0.take(0) =~= Seq::<Enemy>::empty());
        let mut j: usize = 0;
        while j < self.enemies.len()
            invariant
                j <= self.enemies.len(),
                es0 == old(self).enemies@,
                bs0 == old(self).bullets@,
                player_pos == old(self).player.position,
                self.enemies@.len() == es0.len(),
                forall|k: int| j <= k < es0.len() ==> #[trigger] self.enemies@[k] == es0[k],
                forall|k: int|
                    0 <= k < es0.len() ==> enemy_turn_ready(#[trigger] es0[k], obstacles@),
                self.enemies@.take(j as int) == enemies_turns(es0.take(j as int), player_pos, i, is_hard, obstacles@).0,
                self.bullets@ == bs0 + enemies_turns(es0.take(j as int), player_pos, i, is_hard, obstacles@).1,
                self.player == old(self).player,
                self.walls@ == old(self).walls@,
                self.dummies@ == old(self).dummies@,
                self.difficulty == old(self).difficulty,
                self.state == old(self).state,
                self.lvl == old(self).lvl,
            decreases self.enemies.len() - j,
        {
            let ghost before = self.enemies@;
            let ghost bullets_before = self.bullets@;
            let mut e = self.enemies[j];
            let shot = enemy_act(&mut e, player_pos, i, is_hard, obstacles);
            self.enemies.set(j, e);
            match shot {
                Some(b) => self.bullets.push(b),
                None => {},
            }
            proof {
                assert(es0.take(j + 1).drop_last() =~= es0.take(j as int));
                assert(es0.take(j + 1).last() == es0[j as int]);
                assert(self.enemies@.take(j + 1) =~= before.take(j as int).push(e));
                let (done, shots) = enemies_turns(es0.take(j as int), player_pos, i, is_hard, obstacles@);
                match shot {
                    Some(b) => {
                        assert(self.bullets@ =~= bs0 + shots.push(b));
                    },
                    None => {},
                }
            }
            j += 1;
        }
        proof {
            assert(es0.take(es0.len() as int) =~= es0);
            assert(self.enemies@.take(es0.len() as int) =~= self.enemies@);
        }
    }

    /// Destroyed enemies are cleared away, each leaving a wreck mark.
    fn clear_wrecks(&mut self)
        ensures
            final(self)@ == (AppView {
                enemies: cull(old(self).enemies@).0,
                dummies: old(self).dummies@ + cull(old(self).enemies@).1,
                ..old(self)@
            }),
    {
        let mut kept: Vec<Enemy> = Vec::new();
        let ghost d0 = self.dummies@;
        assert(self.enemies@.take(0) =~= Seq::<Enemy>::empty());
        let mut k: usize = 0;
        while k < self.enemies.len()
            invariant
                k <= self.enemies.len(),
                d0 == old(self).dummies@,
                self.enemies@ == old(self).enemies@,
                kept@ == cull(self.enemies@.take(k as int)).0,
                self.dummies@ == d0 + cull(self.enemies@.take(k as int)).1,
                self.player == old(self).player,
                self.walls@ == old(self).walls@,
                self.bullets@ == old(self).bullets@,
                self.difficulty == old(self).difficulty,
                self.state == old(self).state,
                self.lvl == old(self).lvl,
            decreases self.enemies.len() - k,
        {
            let e = self.enemies[k];
            proof {
                assert(self.enemies@.take(k + 1).drop_last() =~= self.enemies@.take(k as int));
                assert(self.enemies@.take(k + 1).last() == e);
            }
            if e.is_destroyed() {
                self.dummies.push(Dummy::from_enemy(&e));
                proof {
                    let wrecks = cull(self.enemies@.take(k as int)).1;
                    assert(self.dummies@ =~= d0 + wrecks.push(Dummy::of_enemy(e)));
                }
            } else {
                kept.push(e);
            }
            k += 1;
        }
        assert(self.enemies@.take(self.enemies.len() as int) =~= self.enemies@);
        self.enemies = kept;
    }

    /// Every mark ages by a frame; those that had no frame left go.
    fn age_dummies(&mut self)
        ensures
            final(self)@ == (AppView { dummies: aged_all(old(self).dummies@), ..old(self)@ }),
    {
        let mut marks: Vec<Dummy> = Vec::new();
        std::mem::swap(&mut marks, &mut self.dummies);
        assert(marks@.take(0) =~= Seq::<Dummy>::empty());
        let mut k: usize = 0;
        while k < marks.len()
            invariant
                k <= marks.len(),
                marks@ == old(self).dummies@,
                self.dummies@ == aged_all(marks@.take(k as int)),
                self.player == old(self).player,
                self.walls@ == old(self).walls@,
                self.enemies@ == old(self).enemies@,
                self.bullets@ == old(self).bullets@,
                self.difficulty == old(self).difficulty,
                self.state == old(self).state,
                self.lvl == old(self).lvl,
            decreases marks.len() - k,
        {
            let mut d = marks[k];
            proof {
                assert(marks@.take(k + 1).drop_last() =~= marks@.take(k as int));
                assert(marks@.take(k + 1).last() == d);
            }
            if d.decrease_frames() {
                self.dummies.push(d);
            }
            k += 1;
        }
        assert(marks@.take(marks.len() as int) =~= marks@);
    }

    /// Plays frame `i` of a round: `next_frame` states what changes.
    pub fn frame(&mut self, i: u32, arena: &Arena)
        requires
            arena.max_x >= 1,
            arena.max_y >= 1,
            frame_ready(old(self)@, arena.borders@),
        ensures
            final(self)@ == next_frame(
                old(self)@,
                i,
                arena.max_x,
                arena.max_y,
                arena.borders@,
                arena.is_hard,
            ),
    {
        let ghost w0 = self@;
        self.fly_bullets(arena.max_x, arena.max_y);
        let ghost w1 = self@;
        proof {
            lemma_same_obstacles(w0, w1, arena.borders@);
            assert forall|j: int| 0 <= j < w1.enemies.len() implies enemy_turn_ready(
                #[trigger] w1.enemies[j],
                obstacles_of(w1, arena.borders@),
            ) by {
                assert(enemy_turn_ready(w0.enemies[j], obstacles_of(w0, arena.borders@)));
            }
        }
        let obstacles = self.obstacles(&arena.borders);
        if self.player.shall_move_forward() {
            self.player.move_forward(&obstacles);
        }
        self.enemies_act(i, arena.is_hard, &obstacles);
        self.clear_wrecks();
        self.age_dummies();
    }
}

/// Whether a tank at column `x` that steps up to row `y` settles on a row
/// that exists, as `up_settle` states.
fn settles_on_board(x: u16, y: u16, obstacles: &Vec<Rect>) -> (ok: bool)
    ensures
        ok == (up_settle(x, y as int, obstacles@) <= u16::MAX),
{
    let mut cur: u16 = y;
    let mut i: usize = 0;
    assert(obstacles@.skip(0) =~= obstacles@);
    while i < obstacles.len()
        invariant
            i <= obstacles.len(),
            up_settle(x, cur as int, obstacles@.skip(i as int)) == up_settle(x, y as int, obstacles@),
        decreases obstacles.len() - i,
    {
        let ghost rest = obstacles@.skip(i as int);
        proof {
            assert(rest.drop_first() =~= obstacles@.skip(i + 1));
            assert(rest[0] == obstacles@[i as int]);
        }
        let here = Rect { x, y: cur, width: 3, height: 3 };
        if here.intersects(obstacles[i]) {
            if cur == u16::MAX {
                proof {
                    lemma_up_settle_not_above(x, cur + 1, obstacles@.skip(i + 1));
                }
                return false;
            }
            cur += 1;
        }
        i += 1;
    }
    assert(obstacles@.skip(i as int).len() == 0);
    true
}

impl App {
    /// Whether this frame can be played within the numbers a `u16` or a
    /// `usize` holds, as `frame_ready` states.
    pub fn frame_fits(&self, arena: &Arena) -> (ok: bool)
        ensures
            ok == frame_ready(self@, arena.borders@),
    {
        let obstacles = self.obstacles(&arena.borders);
        let p = &self.player;
        let vertical = match p.direction {
            MovementDirection::Up | MovementDirection::Down => true,
            _ => false,
        };
        if vertical && p.position.1 == u16::MAX {
            return false;
        }
        if let MovementDirection::Up = p.direction {
            if !settles_on_board(p.position.0, p.position.1.saturating_sub(1), &obstacles) {
                return false;
            }
        }
        let mut j: usize = 0;
        while j < self.enemies.len()
            invariant
                j <= self.enemies.len(),
                obstacles@ == obstacles_of(self@, arena.borders@),
                forall|k: int|
                    0 <= k < j ==> {
                        &&& (#[trigger] self.enemies@[k]).tank.damage_rect_defined()
                        &&& enemy_turn_ready(self.enemies@[k], obstacles@)
                    },
            decreases self.enemies.len() - j,
        {
            let e = &self.enemies[j];
            let (x, y) = e.tank.position;
            let vertical = match e.tank.direction {
                MovementDirection::Up | MovementDirection::Down => true,
                _ => false,
            };
            if vertical && y == u16::MAX {
                return false;
            }
            if !e.is_destroyed() {
                if x > u16::MAX - 2 || y == u16::MAX || e.tank.move_forward_steps > usize::MAX - 2 {
                    return false;
                }
                if !settles_on_board(x, y.saturating_sub(1), &obstacles) {
                    return false;
                }
            }
            j += 1;
        }
        true
    }
}

} // verus!
