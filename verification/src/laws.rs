use vstd::prelude::*;
use crate::animations::Dummy;
use crate::app::{AppState, AppView, Key};
use crate::bullet::Bullet;
use crate::enemy::Enemy;
use crate::frame::{after_bullets, aged_all, cull, enemies_turns, fly_all, fly_one, next_frame, advanced};
use crate::geometry::Rect;
use crate::layout::Grid;
use crate::player::{Tank, blocked};
use crate::utils::MovementDirection;
use crate::wall::WallType;

verus! {

/// A quarter turn back undoes a quarter turn, and the other way round.
pub proof fn lemma_rotate_back_undoes_rotate(d: MovementDirection)
    ensures
        d.turned().turned_back() == d,
        d.turned_back().turned() == d,
{
}

/// Four quarter turns bring a tank back to the direction it started in.
pub proof fn lemma_four_turns(d: MovementDirection)
    ensures
        d.turned().turned().turned().turned() == d,
        d.turned_back().turned_back().turned_back().turned_back() == d,
{
}

/// Turning towards a direction twice faces it and queues exactly one move
/// more than the first turn left.
pub proof fn lemma_face_twice_queues_a_move(t: Tank, d: MovementDirection)
    requires
        t.can_face(d),
        t.faced(d).can_face(d),
    ensures
        t.faced(d).direction == d,
        t.faced(d).faced(d).direction == d,
        t.faced(d).faced(d).move_forward_steps == t.faced(d).move_forward_steps + 1,
        t.faced(d).position == t.position,
{
}

/// A move while facing another way only turns the tank: it stays where it
/// is.
pub proof fn lemma_move_elsewhere_only_turns(t: Tank, obstacles: Seq<Rect>)
    ensures
        t.direction != MovementDirection::Left ==> t.moved_left(obstacles) == (Tank {
            direction: MovementDirection::Left,
            ..t
        }),
        t.direction != MovementDirection::Right ==> t.moved_right(obstacles) == (Tank {
            direction: MovementDirection::Right,
            ..t
        }),
        t.direction != MovementDirection::Up ==> t.moved_up(obstacles) == (Tank {
            direction: MovementDirection::Up,
            ..t
        }),
        t.direction != MovementDirection::Down ==> t.moved_down(obstacles) == (Tank {
            direction: MovementDirection::Down,
            ..t
        }),
{
}

/// Away from the edge of the board, a move left, right or down either
/// leaves the tank where it was or takes it exactly one cell on, to a place
/// free of every obstacle.
pub proof fn lemma_move_one_free_cell(t: Tank, obstacles: Seq<Rect>)
    ensures
        t.direction == MovementDirection::Left && t.position.0 > 0 ==> {
            let m = t.moved_left(obstacles);
            ||| m.position == t.position
            ||| m.position == ((t.position.0 - 1) as u16, t.position.1) && !blocked(
                m.position.0,
                m.position.1,
                obstacles,
            )
        },
        t.direction == MovementDirection::Right && t.position.0 < u16::MAX ==> {
            let m = t.moved_right(obstacles);
            ||| m.position == t.position
            ||| m.position == ((t.position.0 + 1) as u16, t.position.1) && !blocked(
                m.position.0,
                m.position.1,
                obstacles,
            )
        },
        t.direction == MovementDirection::Down && t.position.1 < u16::MAX ==> {
            let m = t.moved_down(obstacles);
            ||| m.position == t.position
            ||| m.position == (t.position.0, (t.position.1 + 1) as u16) && !blocked(
                m.position.0,
                m.position.1,
                obstacles,
            )
        },
{
}

/// A move up never takes a tank more than one row up, and never sideways.
pub proof fn lemma_move_up_at_most_one_row(t: Tank, obstacles: Seq<Rect>)
    requires
        t.direction == MovementDirection::Up,
        t.up_fits(obstacles),
    ensures
        t.moved_up(obstacles).position.0 == t.position.0,
        t.moved_up(obstacles).position.1 >= t.position.1 - 1,
{
    crate::player::lemma_up_settle_not_above(
        t.position.0,
        crate::geometry::sat_sub16(t.position.1, 1) as int,
        obstacles,
    );
}

/// A mark ages one frame at a time.
pub open spec fn aged_times(d: Dummy, k: nat) -> Dummy
    decreases k,
{
    if k == 0 {
        d
    } else {
        aged_times(d, (k - 1) as nat).aged()
    }
}

/// A mark made with `f` frames is shown for exactly `f` more frames: after
/// `k <= f` frames it has `f - k` left, so it survives the `f` frames and
/// goes on the next one.
pub proof fn lemma_mark_lifetime(d: Dummy, k: nat)
    requires
        k <= d.frames,
    ensures
        aged_times(d, k).frames == d.frames - k,
        aged_times(d, k).kind == d.kind,
        aged_times(d, k).rect == d.rect,
    decreases k,
{
    if k > 0 {
        lemma_mark_lifetime(d, (k - 1) as nat);
    }
}

/// Clearing wrecks keeps exactly the living enemies, and marks each wreck.
proof fn lemma_cull(es: Seq<Enemy>)
    ensures
        forall|j: int| 0 <= j < cull(es).0.len() ==> !(#[trigger] cull(es).0[j]).destroyed(),
        cull(es).0.len() + cull(es).1.len() == es.len(),
    decreases es.len(),
{
    if es.len() > 0 {
        lemma_cull(es.drop_last());
    }
}

/// The enemies' turns keep every enemy, in its place in the order.
proof fn lemma_turns_len(es: Seq<Enemy>, p: (u16, u16), i: u32, is_hard: bool, obstacles: Seq<Rect>)
    ensures
        enemies_turns(es, p, i, is_hard, obstacles).0.len() == es.len(),
    decreases es.len(),
{
    if es.len() > 0 {
        lemma_turns_len(es.drop_last(), p, i, is_hard, obstacles);
    }
}

/// After every frame, no wreck is left among the enemies, and there are
/// never more enemies than before.
pub proof fn lemma_frame_clears_wrecks(
    w: AppView,
    i: u32,
    max_x: u16,
    max_y: u16,
    borders: Seq<Rect>,
    is_hard: bool,
)
    ensures
        forall|j: int|
            0 <= j < next_frame(w, i, max_x, max_y, borders, is_hard).enemies.len() ==> !(
            #[trigger] next_frame(w, i, max_x, max_y, borders, is_hard).enemies[j]).destroyed(),
        next_frame(w, i, max_x, max_y, borders, is_hard).enemies.len() <= w.enemies.len(),
{
    let w1 = after_bullets(w, max_x, max_y);
    let obstacles = crate::frame::obstacles_of(w1, borders);
    let p = crate::frame::player_turn(w1.player, obstacles);
    let es = enemies_turns(w1.enemies, p.position, i, is_hard, obstacles).0;
    lemma_cull(es);
    lemma_turns_len(w1.enemies, p.position, i, is_hard, obstacles);
    lemma_fly_all(AppView { bullets: Seq::empty(), ..w }, w.bullets, max_x, max_y);
}

/// Flying bullets never touches the walls, the difficulty, the round's
/// state or its level, keeps every enemy, never adds a bullet, and leaves a
/// mark for every bullet that stops. Every bullet still in flight is one
/// that flew exactly one cell on.
proof fn lemma_fly_all(w: AppView, bullets: Seq<Bullet>, max_x: u16, max_y: u16)
    ensures
        ({
            let v = fly_all(w, bullets, max_x, max_y);
            &&& v.walls == w.walls
            &&& v.difficulty == w.difficulty
            &&& v.state == w.state
            &&& v.lvl == w.lvl
            &&& v.enemies.len() == w.enemies.len()
            &&& v.player.health <= w.player.health
            &&& v.bullets.len() <= w.bullets.len() + bullets.len()
            &&& v.dummies.len() >= w.dummies.len() + (w.bullets.len() + bullets.len()
                - v.bullets.len())
            &&& forall|k: int|
                0 <= k < v.bullets.len() ==> (k < w.bullets.len() && #[trigger] v.bullets[k]
                    == w.bullets[k]) || exists|j: int|
                    0 <= j < bullets.len() && advanced(#[trigger] bullets[j], max_x, max_y) == Some(
                        v.bullets[k],
                    )
        }),
    decreases bullets.len(),
{
    if bullets.len() > 0 {
        let prev = bullets.drop_last();
        lemma_fly_all(w, prev, max_x, max_y);
        let v0 = fly_all(w, prev, max_x, max_y);
        let v = fly_all(w, bullets, max_x, max_y);
        assert(v == fly_one(v0, bullets.last(), max_x, max_y));
        assert forall|k: int| 0 <= k < v.bullets.len() implies (k < w.bullets.len() && #[trigger] v.bullets[k]
            == w.bullets[k]) || exists|j: int|
            0 <= j < bullets.len() && advanced(#[trigger] bullets[j], max_x, max_y) == Some(
                v.bullets[k],
            ) by {
            if k < v0.bullets.len() {
                assert(v.bullets[k] == v0.bullets[k]);
                if !(k < w.bullets.len() && v0.bullets[k] == w.bullets[k]) {
                    let j = choose|j: int|
                        0 <= j < prev.len() && advanced(#[trigger] prev[j], max_x, max_y) == Some(
                            v0.bullets[k],
                        );
                    assert(bullets[j] == prev[j]);
                }
            } else {
                assert(advanced(bullets[bullets.len() - 1], max_x, max_y) == Some(v.bullets[k]));
            }
        }
    }
}

/// A frame never changes the walls, the difficulty, the round's state or its
/// level; every bullet of the flight phase that stays in flight moved exactly
/// one cell; and every bullet that stopped left a mark.
pub proof fn lemma_bullets_fly_one_cell(w: AppView, max_x: u16, max_y: u16)
    ensures
        ({
            let v = after_bullets(w, max_x, max_y);
            &&& v.walls == w.walls
            &&& v.difficulty == w.difficulty
            &&& v.state == w.state
            &&& v.lvl == w.lvl
            &&& v.enemies.len() == w.enemies.len()
            &&& v.bullets.len() <= w.bullets.len()
            &&& v.dummies.len() >= w.dummies.len() + (w.bullets.len() - v.bullets.len())
            &&& forall|k: int|
                0 <= k < v.bullets.len() ==> exists|j: int|
                    0 <= j < w.bullets.len() && advanced(#[trigger] w.bullets[j], max_x, max_y)
                        == Some(#[trigger] v.bullets[k])
        }),
{
    let start = AppView { bullets: Seq::empty(), ..w };
    lemma_fly_all(start, w.bullets, max_x, max_y);
}

/// A frame never changes the walls, the difficulty, the round's state or its
/// level.
pub proof fn lemma_frame_keeps_arena(
    w: AppView,
    i: u32,
    max_x: u16,
    max_y: u16,
    borders: Seq<Rect>,
    is_hard: bool,
)
    ensures
        next_frame(w, i, max_x, max_y, borders, is_hard).walls == w.walls,
        next_frame(w, i, max_x, max_y, borders, is_hard).difficulty == w.difficulty,
        next_frame(w, i, max_x, max_y, borders, is_hard).state == w.state,
        next_frame(w, i, max_x, max_y, borders, is_hard).lvl == w.lvl,
{
    lemma_bullets_fly_one_cell(w, max_x, max_y);
}

/// A frame never heals the player: once destroyed, the player stays
/// destroyed.
pub proof fn lemma_frame_never_heals(
    w: AppView,
    i: u32,
    max_x: u16,
    max_y: u16,
    borders: Seq<Rect>,
    is_hard: bool,
)
    ensures
        next_frame(w, i, max_x, max_y, borders, is_hard).player.health <= w.player.health,
{
    lemma_fly_all(AppView { bullets: Seq::empty(), ..w }, w.bullets, max_x, max_y);
}

/// Marks only ever go when their frames are used up: aging keeps the marks
/// that had frames left, and only those.
pub proof fn lemma_aging_keeps_live_marks(ds: Seq<Dummy>)
    ensures
        aged_all(ds).len() <= ds.len(),
        (forall|k: int| 0 <= k < ds.len() ==> (#[trigger] ds[k]).frames > 0) ==> aged_all(ds).len()
            == ds.len(),
    decreases ds.len(),
{
    if ds.len() > 0 {
        lemma_aging_keeps_live_marks(ds.drop_last());
        if forall|k: int| 0 <= k < ds.len() ==> (#[trigger] ds[k]).frames > 0 {
            assert forall|k: int| 0 <= k < ds.drop_last().len() implies (
            #[trigger] ds.drop_last()[k]).frames > 0 by {
                assert(ds.drop_last()[k] == ds[k]);
            }
            assert(ds[ds.len() - 1].frames > 0);
        }
    }
}

/// Once a round is over, a key never changes the player, the arena or the
/// things on it; `m` switches the difficulty and a second `m` switches it
/// back; `q` and Esc always end the game.
pub proof fn lemma_keys_after_the_round(w: AppView, key: Key)
    ensures
        w.game_over() ==> w.after_key(key).player == w.player && w.after_key(key).walls == w.walls
            && w.after_key(key).enemies == w.enemies && w.after_key(key).bullets == w.bullets
            && w.after_key(key).dummies == w.dummies,
        w.game_over() ==> w.after_key(Key::Char('m')).after_key(Key::Char('m')) == w,
        w.after_key(Key::Char('q')).state == AppState::Exit,
        w.after_key(Key::Esc).state == AppState::Exit,
{
    if w.game_over() {
        let v = w.after_key(Key::Char('m'));
        assert(v.game_over());
    }
}

/// Laid out on a grid, every fourth wall is water and the others are solid,
/// and every enemy starts alive and unhurt, facing right.
pub proof fn lemma_layout_pattern(g: Grid, i: int)
    ensures
        (g.wall(i).wall_type == WallType::Water) == ((i + 1) % 4 == 0),
        (g.wall(i).wall_type == WallType::Static) == ((i + 1) % 4 != 0),
        g.enemy(i).tank.health == 3,
        !g.enemy(i).destroyed(),
        g.enemy(i).tank.direction == MovementDirection::Right,
        !g.enemy(i).needs_rotation,
{
}

} // verus!
