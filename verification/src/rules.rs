use vstd::prelude::*;
use crate::animations::{Dummy, DummyKind};
use crate::app::{AppState, AppView, Difficulty, Key};
use crate::bullet::Bullet;
use crate::enemy::Enemy;
use crate::frame::{after_bullets, aged_all, cull, enemies_turns, enemy_turn, fly_all, fly_one, next_frame, obstacles_of, player_turn};
use crate::player::{Tank, tank_rect};
use crate::levels::plan_of;
use crate::geometry::Rect;
use crate::utils::MovementDirection;
use crate::wall::WallType;

verus! {

/// `(nx, ny)` is the cell one step on from bullet `b` in its direction, and
/// that cell is still inside an arena of `max_x` by `max_y` cells.
pub open spec fn steps_to(b: Bullet, max_x: u16, max_y: u16, nx: u16, ny: u16) -> bool {
    let (x, y) = b.position;
    match b.direction {
        MovementDirection::Left => x > 0 && nx == x - 1 && ny == y,
        MovementDirection::Right => x + 1 < max_x && nx == x + 1 && ny == y,
        MovementDirection::Up => y > 0 && nx == x && ny == y - 1,
        MovementDirection::Down => y + 1 < max_y && nx == x && ny == y + 1,
    }
}

/// The bullet stands on the last cell before the edge it flies towards.
pub open spec fn at_edge(b: Bullet, max_x: u16, max_y: u16) -> bool {
    let (x, y) = b.position;
    match b.direction {
        MovementDirection::Left => x == 0,
        MovementDirection::Right => x + 1 >= max_x,
        MovementDirection::Up => y == 0,
        MovementDirection::Down => y + 1 >= max_y,
    }
}

/// The mark a bullet leaves on cell `(x, y)`: ten frames on that one cell.
pub open spec fn bullet_mark(x: u16, y: u16) -> Dummy {
    Dummy { kind: DummyKind::Bullet, rect: Rect { x, y, width: 1, height: 1 }, frames: 10 }
}

/// Nothing on the board stops a bullet on cell `(x, y)`: no wall other than
/// water, no enemy's and not the player's damage rectangle covers it.
pub open spec fn cell_is_free(w: AppView, x: u16, y: u16) -> bool {
    let cell = Rect { x, y, width: 1, height: 1 };
    &&& forall|k: int|
        0 <= k < w.walls.len() ==> w.walls[k].wall_type == WallType::Water || !cell.overlaps(
            #[trigger] w.walls[k].rect,
        )
    &&& forall|j: int| 0 <= j < w.enemies.len() ==> !cell.overlaps(#[trigger] w.enemies[j].tank.damage_rect())
    &&& !cell.overlaps(w.player.damage_rect())
}

/// A bullet away from the edge always moves exactly one cell in its
/// direction, or stops at the edge; it keeps its direction.
pub proof fn lemma_bullet_moves_one_cell(w: AppView, b: Bullet, max_x: u16, max_y: u16)
    requires
        max_x >= 1,
        max_y >= 1,
    ensures
        at_edge(b, max_x, max_y) ==> fly_one(w, b, max_x, max_y) == (AppView {
            dummies: w.dummies.push(bullet_mark(b.position.0, b.position.1)),
            ..w
        }),
        !at_edge(b, max_x, max_y) ==> exists|nx: u16, ny: u16| steps_to(b, max_x, max_y, nx, ny),
{
    let (x, y) = b.position;
    if !at_edge(b, max_x, max_y) {
        match b.direction {
            MovementDirection::Left => assert(steps_to(b, max_x, max_y, (x - 1) as u16, y)),
            MovementDirection::Right => assert(steps_to(b, max_x, max_y, (x + 1) as u16, y)),
            MovementDirection::Up => assert(steps_to(b, max_x, max_y, x, (y - 1) as u16)),
            MovementDirection::Down => assert(steps_to(b, max_x, max_y, x, (y + 1) as u16)),
        }
    }
}

/// A bullet whose next cell nothing covers flies on: it is appended, one
/// cell on and in the same direction, to the bullets in flight, and nothing
/// else changes.
pub proof fn lemma_free_bullet_flies_on(w: AppView, b: Bullet, max_x: u16, max_y: u16, nx: u16, ny: u16)
    requires
        steps_to(b, max_x, max_y, nx, ny),
        cell_is_free(w, nx, ny),
    ensures
        fly_one(w, b, max_x, max_y) == (AppView {
            bullets: w.bullets.push(Bullet { position: (nx, ny), direction: b.direction }),
            ..w
        }),
{
    let cell = Rect { x: nx, y: ny, width: 1, height: 1 };
    assert(!crate::frame::hits_wall(w.walls, cell));
    assert(!exists|j: int| crate::frame::first_enemy_hit(w.enemies, cell, j));
}

/// A bullet whose next cell a wall other than water covers stops there: it
/// leaves its mark on that cell, and nothing else changes.
pub proof fn lemma_wall_stops_bullet(
    w: AppView,
    b: Bullet,
    max_x: u16,
    max_y: u16,
    nx: u16,
    ny: u16,
    k: int,
)
    requires
        steps_to(b, max_x, max_y, nx, ny),
        0 <= k < w.walls.len(),
        w.walls[k].wall_type != WallType::Water,
        (Rect { x: nx, y: ny, width: 1, height: 1 }).overlaps(w.walls[k].rect),
    ensures
        fly_one(w, b, max_x, max_y) == (AppView { dummies: w.dummies.push(bullet_mark(nx, ny)), ..w }),
{
    assert(crate::frame::hits_wall(w.walls, Rect { x: nx, y: ny, width: 1, height: 1 }));
}

/// A bullet that reaches enemy `j` first (no solid wall on its next cell, no
/// earlier enemy covering it) takes exactly one point of health from that
/// enemy, if it had any, which then drops its queued moves and is told to
/// turn; the bullet leaves its mark and no other enemy, nor the player,
/// changes.
pub proof fn lemma_bullet_hits_first_enemy(
    w: AppView,
    b: Bullet,
    max_x: u16,
    max_y: u16,
    nx: u16,
    ny: u16,
    j: int,
)
    requires
        steps_to(b, max_x, max_y, nx, ny),
        forall|k: int|
            0 <= k < w.walls.len() ==> w.walls[k].wall_type == WallType::Water || !(Rect {
                x: nx,
                y: ny,
                width: 1,
                height: 1,
            }).overlaps(#[trigger] w.walls[k].rect),
        0 <= j < w.enemies.len(),
        (Rect { x: nx, y: ny, width: 1, height: 1 }).overlaps(w.enemies[j].tank.damage_rect()),
        forall|k: int|
            0 <= k < j ==> !(Rect { x: nx, y: ny, width: 1, height: 1 }).overlaps(
                #[trigger] w.enemies[k].tank.damage_rect(),
            ),
    ensures
        ({
            let v = fly_one(w, b, max_x, max_y);
            let e = w.enemies[j];
            &&& v.dummies == w.dummies.push(bullet_mark(nx, ny))
            &&& v.bullets == w.bullets
            &&& v.player == w.player
            &&& v.walls == w.walls
            &&& v.enemies.len() == w.enemies.len()
            &&& forall|k: int| 0 <= k < w.enemies.len() && k != j ==> #[trigger] v.enemies[k] == w.enemies[k]
            &&& v.enemies[j].tank.position == e.tank.position
            &&& v.enemies[j].tank.direction == e.tank.direction
            &&& e.tank.health > 0 ==> {
                &&& v.enemies[j].tank.health == e.tank.health - 1
                &&& v.enemies[j].tank.move_forward_steps == 0
                &&& v.enemies[j].needs_rotation
            }
            &&& e.tank.health == 0 ==> v.enemies[j] == e
        }),
{
    let cell = Rect { x: nx, y: ny, width: 1, height: 1 };
    assert(!crate::frame::hits_wall(w.walls, cell));
    assert(crate::frame::first_enemy_hit(w.enemies, cell, j));
    let c = choose|c: int| crate::frame::first_enemy_hit(w.enemies, cell, c);
    if c < j {
        assert(!cell.overlaps(w.enemies[c].tank.damage_rect()));
    } else if j < c {
        assert(!cell.overlaps(w.enemies[j].tank.damage_rect()));
    }
}

/// A bullet whose next cell only the player's damage rectangle covers takes
/// exactly one point of health from the player (none below zero); nothing
/// else about the player changes. The bullet leaves its mark, and the
/// player's last point of health leaves the player's wreck mark after it.
pub proof fn lemma_bullet_hits_player(w: AppView, b: Bullet, max_x: u16, max_y: u16, nx: u16, ny: u16)
    requires
        steps_to(b, max_x, max_y, nx, ny),
        forall|k: int|
            0 <= k < w.walls.len() ==> w.walls[k].wall_type == WallType::Water || !(Rect {
                x: nx,
                y: ny,
                width: 1,
                height: 1,
            }).overlaps(#[trigger] w.walls[k].rect),
        forall|k: int|
            0 <= k < w.enemies.len() ==> !(Rect { x: nx, y: ny, width: 1, height: 1 }).overlaps(
                #[trigger] w.enemies[k].tank.damage_rect(),
            ),
        (Rect { x: nx, y: ny, width: 1, height: 1 }).overlaps(w.player.damage_rect()),
    ensures
        ({
            let v = fly_one(w, b, max_x, max_y);
            let p = w.player;
            &&& v.player.health == (if p.health > 0 { p.health - 1 } else { 0 })
            &&& v.player.position == p.position
            &&& v.player.direction == p.direction
            &&& v.player.ammo == p.ammo
            &&& v.player.move_forward_steps == p.move_forward_steps
            &&& v.enemies == w.enemies
            &&& v.bullets == w.bullets
            &&& v.walls == w.walls
            &&& p.health != 1 ==> v.dummies == w.dummies.push(bullet_mark(nx, ny))
            &&& p.health == 1 ==> v.dummies == w.dummies.push(bullet_mark(nx, ny)).push(
                Dummy {
                    kind: DummyKind::Player,
                    rect: Rect { x: p.position.0, y: p.position.1, width: 3, height: 3 },
                    frames: 5000,
                },
            )
        }),
{
    let cell = Rect { x: nx, y: ny, width: 1, height: 1 };
    assert(!crate::frame::hits_wall(w.walls, cell));
    assert(!exists|j: int| crate::frame::first_enemy_hit(w.enemies, cell, j));
}

/// The player's own turn in a frame never changes its health.
proof fn lemma_player_turn_keeps_health(w: AppView, borders: Seq<Rect>)
    ensures
        player_turn(w.player, obstacles_of(w, borders)).health == w.player.health,
{
}

/// In a frame with a single bullet in flight that nothing stops, the bullet
/// is, one frame later, the first bullet in flight: one cell on, in the same
/// direction.
pub proof fn lemma_frame_moves_lone_bullet(
    w: AppView,
    b: Bullet,
    i: u32,
    max_x: u16,
    max_y: u16,
    borders: Seq<Rect>,
    is_hard: bool,
    nx: u16,
    ny: u16,
)
    requires
        w.bullets == seq![b],
        steps_to(b, max_x, max_y, nx, ny),
        cell_is_free(w, nx, ny),
    ensures
        next_frame(w, i, max_x, max_y, borders, is_hard).bullets.len() >= 1,
        next_frame(w, i, max_x, max_y, borders, is_hard).bullets[0] == (Bullet {
            position: (nx, ny),
            direction: b.direction,
        }),
{
    let start = AppView { bullets: Seq::empty(), ..w };
    assert(w.bullets.drop_last() =~= Seq::<Bullet>::empty());
    assert(fly_all(start, w.bullets.drop_last(), max_x, max_y) == start);
    lemma_free_bullet_flies_on(start, b, max_x, max_y, nx, ny);
    let w1 = after_bullets(w, max_x, max_y);
    assert(w1.bullets =~= seq![Bullet { position: (nx, ny), direction: b.direction }]);
}

/// In a frame where a single bullet in flight hits only the player, the
/// player ends the frame with exactly one point of health less (never below
/// zero).
pub proof fn lemma_frame_hit_costs_one_point(
    w: AppView,
    b: Bullet,
    i: u32,
    max_x: u16,
    max_y: u16,
    borders: Seq<Rect>,
    is_hard: bool,
    nx: u16,
    ny: u16,
)
    requires
        w.bullets == seq![b],
        steps_to(b, max_x, max_y, nx, ny),
        forall|k: int|
            0 <= k < w.walls.len() ==> w.walls[k].wall_type == WallType::Water || !(Rect {
                x: nx,
                y: ny,
                width: 1,
                height: 1,
            }).overlaps(#[trigger] w.walls[k].rect),
        forall|k: int|
            0 <= k < w.enemies.len() ==> !(Rect { x: nx, y: ny, width: 1, height: 1 }).overlaps(
                #[trigger] w.enemies[k].tank.damage_rect(),
            ),
        (Rect { x: nx, y: ny, width: 1, height: 1 }).overlaps(w.player.damage_rect()),
    ensures
        next_frame(w, i, max_x, max_y, borders, is_hard).player.health == (if w.player.health > 0 {
            w.player.health - 1
        } else {
            0
        }),
{
    let start = AppView { bullets: Seq::empty(), ..w };
    assert(w.bullets.drop_last() =~= Seq::<Bullet>::empty());
    assert(fly_all(start, w.bullets.drop_last(), max_x, max_y) == start);
    lemma_bullet_hits_player(start, b, max_x, max_y, nx, ny);
    let w1 = after_bullets(w, max_x, max_y);
    lemma_player_turn_keeps_health(w1, borders);
}

/// The cell a tank at `(x, y)` facing `d` fires from: the middle of the
/// side it faces.
pub open spec fn muzzle(x: u16, y: u16, d: MovementDirection) -> (u16, u16) {
    match d {
        MovementDirection::Left => (x, (y + 1) as u16),
        MovementDirection::Right => ((x + 2) as u16, (y + 1) as u16),
        MovementDirection::Up => ((x + 1) as u16, y),
        MovementDirection::Down => ((x + 1) as u16, (y + 1) as u16),
    }
}

/// A living enemy's turn, with the player at `p`:
/// - within one column of the player (and out of its rows), it ends facing
///   the player: down when the player's row is below its own, up otherwise;
/// - within one row of the player, it ends facing the player: right when the
///   player's column is right of its own, left otherwise;
/// - in line and firing (hard game, or a reload frame), it fires from its
///   muzzle in the direction it now faces, stays where it is, and drops its
///   queued moves;
/// - out of line it never fires; with no queued move, on a turning frame or
///   after a hit, it turns a quarter counter-clockwise in place and queues
///   five moves;
/// - out of line with a queued move, it uses that move, keeping its
///   direction; with nothing to do it stays as it is;
/// - in line on a frame it does not fire, it fires nothing, and it stays in
///   place unless it is a turning frame;
/// - it keeps its health, and reloads one round on reload frames only.
pub proof fn lemma_enemy_turn(e: Enemy, p: (u16, u16), i: u32, is_hard: bool, obstacles: Seq<Rect>)
    requires
        e.tank.health > 0,
    ensures
        ({
            let (ex, ey) = e.tank.position;
            let (e2, shot) = enemy_turn(e, p, i, is_hard, obstacles);
            let col = -1 <= ex - p.0 <= 1;
            let row = -1 <= ey - p.1 <= 1;
            &&& col && !row ==> e2.tank.direction == (if p.1 > ey {
                MovementDirection::Down
            } else {
                MovementDirection::Up
            })
            &&& row ==> e2.tank.direction == (if p.0 > ex {
                MovementDirection::Right
            } else {
                MovementDirection::Left
            })
            &&& (col || row) && (is_hard || i % 55 == 0) ==> {
                &&& shot == Some(
                    Bullet { position: muzzle(ex, ey, e2.tank.direction), direction: e2.tank.direction },
                )
                &&& e2.tank.position == e.tank.position
                &&& e2.tank.move_forward_steps == 0
            }
            &&& !(col || row) ==> shot is None
            &&& !(col || row) && e.tank.move_forward_steps == 0 && (i % 90 == 0 || e.needs_rotation) ==> {
                &&& e2.tank.direction == match e.tank.direction {
                    MovementDirection::Right => MovementDirection::Up,
                    MovementDirection::Up => MovementDirection::Left,
                    MovementDirection::Left => MovementDirection::Down,
                    MovementDirection::Down => MovementDirection::Right,
                }
                &&& e2.tank.move_forward_steps == 5
                &&& !e2.needs_rotation
                &&& e2.tank.position == e.tank.position
            }
            &&& !(col || row) && e.tank.move_forward_steps > 0 ==> {
                &&& e2.tank.move_forward_steps == e.tank.move_forward_steps - 1
                &&& e2.tank.direction == e.tank.direction
                &&& e2.needs_rotation == e.needs_rotation
            }
            &&& !(col || row) && e.tank.move_forward_steps == 0 && !(i % 90 == 0 || e.needs_rotation) ==> {
                &&& e2.tank.position == e.tank.position
                &&& e2.tank.direction == e.tank.direction
            }
            &&& (col || row) && !(is_hard || i % 55 == 0) ==> shot is None
            &&& (col || row) && !(is_hard || i % 55 == 0) && i % 90 != 0 ==> e2.tank.position
                == e.tank.position
            &&& e2.tank.health == e.tank.health
            &&& i % 55 == 0 ==> e2.tank.ammo == 1
            &&& i % 55 != 0 ==> e2.tank.ammo == e.tank.ammo
        }),
{
}

/// Each enemy's turn is its own: the `k`-th enemy after the turns is the
/// `k`-th enemy after its own turn.
pub proof fn lemma_turns_in_order(
    es: Seq<Enemy>,
    p: (u16, u16),
    i: u32,
    is_hard: bool,
    obstacles: Seq<Rect>,
)
    ensures
        enemies_turns(es, p, i, is_hard, obstacles).0.len() == es.len(),
        forall|k: int|
            0 <= k < es.len() ==> #[trigger] enemies_turns(es, p, i, is_hard, obstacles).0[k]
                == enemy_turn(es[k], p, i, is_hard, obstacles).0,
    decreases es.len(),
{
    if es.len() > 0 {
        lemma_turns_in_order(es.drop_last(), p, i, is_hard, obstacles);
        assert forall|k: int| 0 <= k < es.len() implies #[trigger] enemies_turns(
            es,
            p,
            i,
            is_hard,
            obstacles,
        ).0[k] == enemy_turn(es[k], p, i, is_hard, obstacles).0 by {
            if k < es.len() - 1 {
                assert(es.drop_last()[k] == es[k]);
            }
        }
    }
}

/// In a frame with no bullet in flight, a player with no queued move and a
/// single living enemy within one column of the player (out of its rows),
/// the enemy ends the frame still there and facing the player: down when
/// the player is below it, up otherwise.
pub proof fn lemma_frame_enemy_faces_player(
    w: AppView,
    i: u32,
    max_x: u16,
    max_y: u16,
    borders: Seq<Rect>,
    is_hard: bool,
)
    requires
        w.bullets.len() == 0,
        w.player.move_forward_steps == 0,
        w.enemies.len() == 1,
        w.enemies[0].tank.health > 0,
        -1 <= w.enemies[0].tank.position.0 - w.player.position.0 <= 1,
        !(-1 <= w.enemies[0].tank.position.1 - w.player.position.1 <= 1),
    ensures
        next_frame(w, i, max_x, max_y, borders, is_hard).enemies.len() == 1,
        next_frame(w, i, max_x, max_y, borders, is_hard).enemies[0].tank.direction == (if w.player.position.1
            > w.enemies[0].tank.position.1 {
            MovementDirection::Down
        } else {
            MovementDirection::Up
        }),
{
    let start = AppView { bullets: Seq::empty(), ..w };
    assert(w.bullets =~= Seq::<Bullet>::empty());
    let w1 = after_bullets(w, max_x, max_y);
    assert(w1 == start);
    let obstacles = obstacles_of(w1, borders);
    let pl = player_turn(w1.player, obstacles);
    assert(pl == w.player);
    let e = w.enemies[0];
    lemma_enemy_turn(e, pl.position, i, is_hard, obstacles);
    lemma_turns_in_order(w1.enemies, pl.position, i, is_hard, obstacles);
    let es = enemies_turns(w1.enemies, pl.position, i, is_hard, obstacles).0;
    assert(es.drop_last() =~= Seq::<Enemy>::empty());
    assert(cull(es.drop_last()) == (Seq::<Enemy>::empty(), Seq::<Dummy>::empty()));
}

/// A key that steers towards `d` while the round runs: the player then faces
/// `d` in place; if it already faced `d` one more move is queued, otherwise
/// the queue is cleared; nothing but the player changes.
pub open spec fn steers_to(w: AppView, v: AppView, d: MovementDirection) -> bool {
    &&& v.player.direction == d
    &&& v.player.position == w.player.position
    &&& v.player.health == w.player.health
    &&& v.player.ammo == w.player.ammo
    &&& w.player.direction == d ==> v.player.move_forward_steps == w.player.move_forward_steps + 1
    &&& w.player.direction != d ==> v.player.move_forward_steps == 0
    &&& v.walls == w.walls
    &&& v.enemies == w.enemies
    &&& v.bullets == w.bullets
    &&& v.dummies == w.dummies
    &&& v.state == w.state
    &&& v.difficulty == w.difficulty
}

/// While the round runs, the keys steer, shoot and quit:
/// - H, A and the left arrow all steer left; L, D and the right arrow right;
///   K, W and the up arrow up; J, S and the down arrow down;
/// - r turns the player a quarter counter-clockwise and R a quarter
///   clockwise, in place;
/// - F and space fire one bullet from the player's muzzle in the direction
///   it faces, and clear its queued moves;
/// - q and Esc end the game.
pub proof fn lemma_keys_while_playing(w: AppView)
    requires
        !w.game_over(),
        w.player.move_forward_steps < usize::MAX,
    ensures
        w.after_key(Key::Char('h')) == w.after_key(Key::Left),
        w.after_key(Key::Char('a')) == w.after_key(Key::Left),
        w.after_key(Key::Char('l')) == w.after_key(Key::Right),
        w.after_key(Key::Char('d')) == w.after_key(Key::Right),
        w.after_key(Key::Char('k')) == w.after_key(Key::Up),
        w.after_key(Key::Char('w')) == w.after_key(Key::Up),
        w.after_key(Key::Char('j')) == w.after_key(Key::Down),
        w.after_key(Key::Char('s')) == w.after_key(Key::Down),
        steers_to(w, w.after_key(Key::Left), MovementDirection::Left),
        steers_to(w, w.after_key(Key::Right), MovementDirection::Right),
        steers_to(w, w.after_key(Key::Up), MovementDirection::Up),
        steers_to(w, w.after_key(Key::Down), MovementDirection::Down),
        w.after_key(Key::Char('r')).player.direction == match w.player.direction {
            MovementDirection::Right => MovementDirection::Up,
            MovementDirection::Up => MovementDirection::Left,
            MovementDirection::Left => MovementDirection::Down,
            MovementDirection::Down => MovementDirection::Right,
        },
        w.after_key(Key::Char('R')).player.direction == match w.player.direction {
            MovementDirection::Right => MovementDirection::Down,
            MovementDirection::Down => MovementDirection::Left,
            MovementDirection::Left => MovementDirection::Up,
            MovementDirection::Up => MovementDirection::Right,
        },
        w.after_key(Key::Char('r')).player.position == w.player.position,
        w.after_key(Key::Char('R')).player.position == w.player.position,
        w.after_key(Key::Char('f')) == w.after_key(Key::Char(' ')),
        w.after_key(Key::Char('f')).bullets == w.bullets.push(
            Bullet {
                position: muzzle(w.player.position.0, w.player.position.1, w.player.direction),
                direction: w.player.direction,
            },
        ),
        w.after_key(Key::Char('f')).player.move_forward_steps == 0,
        w.after_key(Key::Char('f')).player.position == w.player.position,
        w.after_key(Key::Char('q')).state == AppState::Exit,
        w.after_key(Key::Esc).state == AppState::Exit,
{
}

/// `(nx, ny)` is the place one cell on from `(x, y)` in direction `d`.
pub open spec fn one_cell_on(x: u16, y: u16, d: MovementDirection, nx: u16, ny: u16) -> bool {
    match d {
        MovementDirection::Left => nx + 1 == x && ny == y,
        MovementDirection::Right => nx == x + 1 && ny == y,
        MovementDirection::Up => nx == x && ny + 1 == y,
        MovementDirection::Down => nx == x && ny == y + 1,
    }
}

/// No obstacle overlaps a tank standing at `(x, y)`.
pub open spec fn room_for_tank(x: u16, y: u16, obstacles: Seq<Rect>) -> bool {
    forall|k: int| 0 <= k < obstacles.len() ==> !(Rect { x, y, width: 3, height: 3 }).overlaps(
        #[trigger] obstacles[k],
    )
}

/// A tank that moves forward into a place no obstacle covers goes there:
/// exactly one cell on in the direction it faces, keeping that direction.
pub proof fn lemma_tank_moves_into_free_place(t: Tank, obstacles: Seq<Rect>, nx: u16, ny: u16)
    requires
        one_cell_on(t.position.0, t.position.1, t.direction, nx, ny),
        room_for_tank(nx, ny, obstacles),
    ensures
        t.moved_forward(obstacles) == (Tank { position: (nx, ny), ..t }),
{
    assert(!crate::player::blocked(nx, ny, obstacles)) by {
        if crate::player::blocked(nx, ny, obstacles) {
            let k = choose|k: int| 0 <= k < obstacles.len() && #[trigger] tank_rect(nx, ny).overlaps(obstacles[k]);
            assert(!(Rect { x: nx, y: ny, width: 3, height: 3 }).overlaps(obstacles[k]));
        }
    }
    if t.direction == MovementDirection::Up {
        let ys = obstacles;
        assert forall|m: int| 0 <= m <= ys.len() implies #[trigger] crate::player::up_settle(
            nx,
            ny as int,
            ys.skip(m),
        ) == ny as int by {
            lemma_settle_free(nx, ny, ys, m);
        }
        assert(ys.skip(0) =~= ys);
    }
}

/// A tank with room everywhere it settles stays where it stepped.
proof fn lemma_settle_free(x: u16, y: u16, obstacles: Seq<Rect>, m: int)
    requires
        room_for_tank(x, y, obstacles),
        0 <= m <= obstacles.len(),
    ensures
        crate::player::up_settle(x, y as int, obstacles.skip(m)) == y as int,
    decreases obstacles.len() - m,
{
    let rest = obstacles.skip(m);
    if rest.len() > 0 {
        assert(rest[0] == obstacles[m]);
        assert(rest.drop_first() =~= obstacles.skip(m + 1));
        lemma_settle_free(x, y, obstacles, m + 1);
    }
}

/// The player's turn uses one queued move, if any, and leaves the player's
/// health, ammo and direction alone; with no queued move the player stays
/// exactly as it was.
pub proof fn lemma_player_turn(p: Tank, obstacles: Seq<Rect>)
    ensures
        p.move_forward_steps == 0 ==> player_turn(p, obstacles) == p,
        p.move_forward_steps > 0 ==> player_turn(p, obstacles).move_forward_steps == p.move_forward_steps - 1,
        player_turn(p, obstacles).health == p.health,
        player_turn(p, obstacles).ammo == p.ammo,
        player_turn(p, obstacles).direction == p.direction,
{
}

/// A shot leaves from the middle of the side the tank faces, in the
/// direction it faces.
pub proof fn lemma_shot_from_muzzle(t: Tank)
    ensures
        t.shot() == (Bullet {
            position: muzzle(t.position.0, t.position.1, t.direction),
            direction: t.direction,
        }),
{
}

/// A tank is hurt on its middle row when it faces up or down, and on all of
/// its 3x3 cells when it faces left or right.
pub proof fn lemma_damage_area(t: Tank)
    requires
        t.damage_rect_defined(),
    ensures
        (t.direction == MovementDirection::Up || t.direction == MovementDirection::Down) ==> t.damage_rect()
            == (Rect { x: t.position.0, y: (t.position.1 + 1) as u16, width: 3, height: 1 }),
        (t.direction == MovementDirection::Left || t.direction == MovementDirection::Right)
            ==> t.damage_rect() == (Rect { x: t.position.0, y: t.position.1, width: 3, height: 3 }),
{
}

/// A fresh tank has three points of health, a thousand rounds, faces right
/// and has nothing queued.
pub proof fn lemma_fresh_tank(position: (u16, u16))
    ensures
        Tank::fresh(position).position == position,
        Tank::fresh(position).health == 3,
        Tank::fresh(position).ammo == 1000,
        Tank::fresh(position).direction == MovementDirection::Right,
        Tank::fresh(position).move_forward_steps == 0,
        Enemy::fresh(position).tank == Tank::fresh(position),
        !Enemy::fresh(position).needs_rotation,
{
}

/// A one-cell rectangle overlaps another rectangle exactly when its cell
/// lies inside it; and overlapping goes both ways.
pub proof fn lemma_overlap_cells(a: u16, b: u16, r: Rect, s: Rect)
    requires
        a < u16::MAX,
        b < u16::MAX,
    ensures
        (Rect { x: a, y: b, width: 1, height: 1 }).overlaps(r) == (r.x <= a && (a as int) < r.x + r.width
            && r.y <= b && (b as int) < r.y + r.height),
        r.overlaps(s) == s.overlaps(r),
{
}

/// After the round, Enter, r, R, n and N ask for a new round, q and Esc end
/// the game, and nothing else changes.
pub proof fn lemma_keys_after_round(w: AppView)
    requires
        w.game_over(),
    ensures
        w.after_key(Key::Enter) == (AppView { state: AppState::Restart, ..w }),
        w.after_key(Key::Char('r')) == (AppView { state: AppState::Restart, ..w }),
        w.after_key(Key::Char('R')) == (AppView { state: AppState::Restart, ..w }),
        w.after_key(Key::Char('n')) == (AppView { state: AppState::Restart, ..w }),
        w.after_key(Key::Char('N')) == (AppView { state: AppState::Restart, ..w }),
        w.after_key(Key::Char('q')) == (AppView { state: AppState::Exit, ..w }),
        w.after_key(Key::Esc) == (AppView { state: AppState::Exit, ..w }),
        w.after_key(Key::Char('f')) == w,
        w.after_key(Key::Left) == w,
        w.after_key(Key::Char('m')).difficulty == (if w.difficulty == Difficulty::Easy {
            Difficulty::Hard
        } else {
            Difficulty::Easy
        }),
        w.after_key(Key::Char('M')) == w.after_key(Key::Char('m')),
        w.after_key(Key::Char('m')) == (AppView { difficulty: w.after_key(Key::Char('m')).difficulty, ..w }),
{
}

/// The round is over exactly when the player has no health left or no
/// enemy is left.
pub proof fn lemma_game_over(w: AppView)
    ensures
        w.game_over() == (w.player.health == 0 || w.enemies.len() == 0),
{
}

/// The obstacles of a frame are, in this order, every wall, every enemy's
/// 3x3 block, the player's 3x3 block and every border.
pub proof fn lemma_obstacles(w: AppView, borders: Seq<Rect>)
    ensures
        ({
            let o = obstacles_of(w, borders);
            let (nw, ne) = (w.walls.len() as int, w.enemies.len() as int);
            &&& o.len() == nw + ne + 1 + borders.len()
            &&& forall|k: int| 0 <= k < nw ==> #[trigger] o[k] == w.walls[k].rect
            &&& forall|k: int|
                0 <= k < ne ==> #[trigger] o[nw + k] == (Rect {
                    x: w.enemies[k].tank.position.0,
                    y: w.enemies[k].tank.position.1,
                    width: 3,
                    height: 3,
                })
            &&& o[nw + ne] == (Rect { x: w.player.position.0, y: w.player.position.1, width: 3, height: 3 })
            &&& forall|k: int| 0 <= k < borders.len() ==> #[trigger] o[nw + ne + 1 + k] == borders[k]
        }),
{
}

/// Levels one to eight have as many enemies as their number, later levels
/// eight, and level zero one; a level has half as many walls again as
/// enemies, rounded down, but at least one and at most nine.
pub proof fn lemma_level_sizes(lvl: u16)
    ensures
        1 <= lvl <= 8 ==> plan_of(lvl).n_enemies == lvl,
        lvl > 8 ==> plan_of(lvl).n_enemies == 8,
        lvl == 0 ==> plan_of(lvl).n_enemies == 1,
        2 <= plan_of(lvl).n_enemies ==> plan_of(lvl).n_walls == (if plan_of(lvl).n_enemies * 3 / 2 > 9 {
            9
        } else {
            plan_of(lvl).n_enemies * 3 / 2
        }),
        plan_of(lvl).n_enemies == 1 ==> plan_of(lvl).n_walls == 1,
        1 <= plan_of(lvl).factor <= 4,
        plan_of(lvl).div_factor < 5,
{
}

/// Clearing wrecks keeps exactly the living enemies, in order, and leaves
/// one fifty-frame wreck mark over each destroyed one, in order.
pub proof fn lemma_clear_wrecks(es: Seq<Enemy>)
    ensures
        cull(es).0 == es.filter(|e: Enemy| e.tank.health > 0),
        cull(es).1 == es.filter(|e: Enemy| e.tank.health == 0).map_values(
            |e: Enemy|
                Dummy {
                    kind: DummyKind::Enemy,
                    rect: Rect { x: e.tank.position.0, y: e.tank.position.1, width: 3, height: 3 },
                    frames: 50,
                },
        ),
    decreases es.len(),
{
    reveal(Seq::filter);
    let alive = |e: Enemy| e.tank.health > 0;
    let dead_p = |e: Enemy| e.tank.health == 0;
    if es.len() == 0 {
        assert(es.filter(alive) =~= Seq::<Enemy>::empty());
        assert(es.filter(dead_p) =~= Seq::<Enemy>::empty());
        assert(es.filter(dead_p).map_values(
            |e: Enemy|
                Dummy {
                    kind: DummyKind::Enemy,
                    rect: Rect { x: e.tank.position.0, y: e.tank.position.1, width: 3, height: 3 },
                    frames: 50,
                },
        ) =~= Seq::<Dummy>::empty());
    } else {
        lemma_clear_wrecks(es.drop_last());
        assert(es.filter(alive) == (if alive(es.last()) {
            es.drop_last().filter(alive).push(es.last())
        } else {
            es.drop_last().filter(alive)
        }));
        assert(es.filter(dead_p) == (if dead_p(es.last()) {
            es.drop_last().filter(dead_p).push(es.last())
        } else {
            es.drop_last().filter(dead_p)
        }));
        let f = |e: Enemy|
            Dummy {
                kind: DummyKind::Enemy,
                rect: Rect { x: e.tank.position.0, y: e.tank.position.1, width: 3, height: 3 },
                frames: 50,
            };
        let dead = es.drop_last().filter(|e: Enemy| e.tank.health == 0);
        assert(dead.push(es.last()).map_values(f) =~= dead.map_values(f).push(f(es.last())));
    }
}

/// Aging keeps exactly the marks that had frames left, in order, each with
/// one frame fewer.
pub proof fn lemma_aging(ds: Seq<Dummy>)
    ensures
        aged_all(ds) == ds.filter(|d: Dummy| d.frames > 0).map_values(
            |d: Dummy| Dummy { kind: d.kind, rect: d.rect, frames: (d.frames - 1) as usize },
        ),
    decreases ds.len(),
{
    reveal(Seq::filter);
    let live_p = |d: Dummy| d.frames > 0;
    if ds.len() == 0 {
        assert(ds.filter(live_p) =~= Seq::<Dummy>::empty());
        assert(ds.filter(live_p).map_values(
            |d: Dummy| Dummy { kind: d.kind, rect: d.rect, frames: (d.frames - 1) as usize },
        ) =~= Seq::<Dummy>::empty());
    } else {
        lemma_aging(ds.drop_last());
        assert(ds.filter(live_p) == (if live_p(ds.last()) {
            ds.drop_last().filter(live_p).push(ds.last())
        } else {
            ds.drop_last().filter(live_p)
        }));
        let f = |d: Dummy| Dummy { kind: d.kind, rect: d.rect, frames: (d.frames - 1) as usize };
        let live = ds.drop_last().filter(|d: Dummy| d.frames > 0);
        assert(live.push(ds.last()).map_values(f) =~= live.map_values(f).push(f(ds.last())));
    }
}

/// Bullets whose next cells nothing covers all fly on, one cell each, in
/// their own directions, keeping their order; nothing else changes.
pub proof fn lemma_free_bullets_fly_in_order(
    w: AppView,
    bs: Seq<Bullet>,
    targets: Seq<(u16, u16)>,
    max_x: u16,
    max_y: u16,
)
    requires
        targets.len() == bs.len(),
        forall|k: int|
            0 <= k < bs.len() ==> steps_to(#[trigger] bs[k], max_x, max_y, targets[k].0, targets[k].1)
                && cell_is_free(w, targets[k].0, targets[k].1),
    ensures
        fly_all(w, bs, max_x, max_y) == (AppView {
            bullets: w.bullets + Seq::new(
                bs.len(),
                |k: int| Bullet { position: targets[k], direction: bs[k].direction },
            ),
            ..w
        }),
    decreases bs.len(),
{
    let flown = Seq::new(bs.len(), |k: int| Bullet { position: targets[k], direction: bs[k].direction });
    if bs.len() == 0 {
        assert(w.bullets + flown =~= w.bullets);
    } else {
        let n = bs.len() - 1;
        let prev = bs.drop_last();
        let pt = targets.drop_last();
        assert forall|k: int| 0 <= k < prev.len() implies steps_to(#[trigger] prev[k], max_x, max_y, pt[k].0, pt[k].1)
            && cell_is_free(w, pt[k].0, pt[k].1) by {
            assert(prev[k] == bs[k]);
            assert(pt[k] == targets[k]);
        }
        lemma_free_bullets_fly_in_order(w, prev, pt, max_x, max_y);
        let before = Seq::new(prev.len(), |k: int| Bullet { position: pt[k], direction: prev[k].direction });
        let v0 = AppView { bullets: w.bullets + before, ..w };
        assert(steps_to(bs[n], max_x, max_y, targets[n].0, targets[n].1));
        assert(cell_is_free(w, targets[n].0, targets[n].1));
        lemma_free_bullet_flies_on(v0, bs.last(), max_x, max_y, targets[n].0, targets[n].1);
        assert((w.bullets + before).push(Bullet { position: targets[n], direction: bs[n].direction })
            =~= w.bullets + flown);
    }
}

/// In a frame where every bullet in flight has a free next cell, each of
/// them is, one frame later and in the same order, one cell on in its own
/// direction; bullets fired during the frame come after them.
pub proof fn lemma_frame_moves_free_bullets(
    w: AppView,
    targets: Seq<(u16, u16)>,
    i: u32,
    max_x: u16,
    max_y: u16,
    borders: Seq<Rect>,
    is_hard: bool,
)
    requires
        targets.len() == w.bullets.len(),
        forall|k: int|
            0 <= k < w.bullets.len() ==> steps_to(#[trigger] w.bullets[k], max_x, max_y, targets[k].0, targets[k].1)
                && cell_is_free(w, targets[k].0, targets[k].1),
    ensures
        next_frame(w, i, max_x, max_y, borders, is_hard).bullets.len() >= w.bullets.len(),
        forall|k: int|
            0 <= k < w.bullets.len() ==> #[trigger] next_frame(w, i, max_x, max_y, borders, is_hard).bullets[k]
                == (Bullet { position: targets[k], direction: w.bullets[k].direction }),
{
    let start = AppView { bullets: Seq::empty(), ..w };
    assert forall|k: int| 0 <= k < w.bullets.len() implies steps_to(#[trigger] w.bullets[k], max_x, max_y, targets[k].0, targets[k].1)
        && cell_is_free(start, targets[k].0, targets[k].1) by {
        let b = w.bullets[k];
        assert(steps_to(b, max_x, max_y, targets[k].0, targets[k].1));
        assert(cell_is_free(w, targets[k].0, targets[k].1));
    }
    lemma_free_bullets_fly_in_order(start, w.bullets, targets, max_x, max_y);
    let flown = Seq::new(w.bullets.len(), |k: int| Bullet { position: targets[k], direction: w.bullets[k].direction });
    assert(Seq::<Bullet>::empty() + flown =~= flown);
}

/// Wrecks take no turn and fire nothing.
proof fn lemma_wrecks_stay(es: Seq<Enemy>, p: (u16, u16), i: u32, is_hard: bool, obstacles: Seq<Rect>)
    requires
        forall|k: int| 0 <= k < es.len() ==> (#[trigger] es[k]).tank.health == 0,
    ensures
        enemies_turns(es, p, i, is_hard, obstacles) == (es, Seq::<Bullet>::empty()),
    decreases es.len(),
{
    if es.len() > 0 {
        assert forall|k: int| 0 <= k < es.drop_last().len() implies (#[trigger] es.drop_last()[k]).tank.health
            == 0 by {
            assert(es.drop_last()[k] == es[k]);
        }
        lemma_wrecks_stay(es.drop_last(), p, i, is_hard, obstacles);
        assert(es.drop_last().push(es.last()) =~= es);
        assert(es[es.len() - 1].tank.health == 0);
    } else {
        assert(es =~= Seq::<Enemy>::empty());
    }
}

/// Filtering by a test that every element passes keeps them all; by one
/// that none passes keeps none.
proof fn lemma_filter_all_or_none<A>(s: Seq<A>, p: spec_fn(A) -> bool)
    ensures
        (forall|k: int| 0 <= k < s.len() ==> p(#[trigger] s[k])) ==> s.filter(p) == s,
        (forall|k: int| 0 <= k < s.len() ==> !p(#[trigger] s[k])) ==> s.filter(p) == Seq::<A>::empty(),
    decreases s.len(),
{
    reveal(Seq::filter);
    if s.len() == 0 {
        assert(s =~= Seq::<A>::empty());
    } else {
        let t = s.drop_last();
        if forall|k: int| 0 <= k < s.len() ==> p(#[trigger] s[k]) {
            assert forall|k: int| 0 <= k < t.len() implies p(#[trigger] t[k]) by {
                assert(t[k] == s[k]);
            }
            assert(p(s[s.len() - 1]));
        }
        if forall|k: int| 0 <= k < s.len() ==> !p(#[trigger] s[k]) {
            assert forall|k: int| 0 <= k < t.len() implies !p(#[trigger] t[k]) by {
                assert(t[k] == s[k]);
            }
            assert(!p(s[s.len() - 1]));
        }
        lemma_filter_all_or_none(t, p);
        assert(t.push(s.last()) =~= s);
    }
}

/// A frame with no bullet in flight and only wrecks among the enemies
/// clears every wreck away, leaving a fifty-frame wreck mark over each; then
/// every mark, old and new, loses a frame, and the marks that had none left
/// go. No bullet is fired, and the player uses a queued move if it has one,
/// keeping its health.
pub proof fn lemma_frame_clears_the_field(
    w: AppView,
    i: u32,
    max_x: u16,
    max_y: u16,
    borders: Seq<Rect>,
    is_hard: bool,
)
    requires
        w.bullets.len() == 0,
        forall|k: int| 0 <= k < w.enemies.len() ==> (#[trigger] w.enemies[k]).tank.health == 0,
    ensures
        ({
            let v = next_frame(w, i, max_x, max_y, borders, is_hard);
            let marks = w.dummies + w.enemies.map_values(
                |e: Enemy|
                    Dummy {
                        kind: DummyKind::Enemy,
                        rect: Rect { x: e.tank.position.0, y: e.tank.position.1, width: 3, height: 3 },
                        frames: 50,
                    },
            );
            &&& v.enemies.len() == 0
            &&& v.bullets.len() == 0
            &&& v.dummies == marks.filter(|d: Dummy| d.frames > 0).map_values(
                |d: Dummy| Dummy { kind: d.kind, rect: d.rect, frames: (d.frames - 1) as usize },
            )
            &&& v.player.health == w.player.health
            &&& w.player.move_forward_steps > 0 ==> v.player.move_forward_steps == w.player.move_forward_steps - 1
            &&& w.player.move_forward_steps == 0 ==> v.player == w.player
            &&& v.walls == w.walls
        }),
{
    let start = AppView { bullets: Seq::empty(), ..w };
    assert(w.bullets =~= Seq::<Bullet>::empty());
    let w1 = after_bullets(w, max_x, max_y);
    assert(w1 == start);
    let obstacles = obstacles_of(w1, borders);
    let pl = player_turn(w1.player, obstacles);
    lemma_player_turn(w1.player, obstacles);
    lemma_wrecks_stay(w1.enemies, pl.position, i, is_hard, obstacles);
    lemma_clear_wrecks(w.enemies);
    lemma_filter_all_or_none(w.enemies, |e: Enemy| e.tank.health > 0);
    lemma_filter_all_or_none(w.enemies, |e: Enemy| e.tank.health == 0);
    let marks = w.dummies + w.enemies.map_values(
        |e: Enemy|
            Dummy {
                kind: DummyKind::Enemy,
                rect: Rect { x: e.tank.position.0, y: e.tank.position.1, width: 3, height: 3 },
                frames: 50,
            },
    );
    lemma_aging(marks);
    assert(w1.bullets + Seq::<Bullet>::empty() =~= Seq::<Bullet>::empty());
}

} // verus!
