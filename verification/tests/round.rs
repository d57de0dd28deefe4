use vitanchiki::animations::{Dummy, DummyKind};
use vitanchiki::app::{App, AppState, Difficulty, Key};
use vitanchiki::bullet::Bullet;
use vitanchiki::enemy::Enemy;
use vitanchiki::frame::Arena;
use vitanchiki::geometry::Rect;
use vitanchiki::layout::layout_fits;
use vitanchiki::levels::{level_plan, next_level, LevelPlan};
use vitanchiki::player::Tank;
use vitanchiki::utils::MovementDirection;
use vitanchiki::wall::{Wall, WallType};

fn empty_round() -> App {
    App::new_random(80, 24, 1, 0, 0, 1, 0, 1, false)
}

fn arena() -> Arena {
    let mut app = empty_round();
    app.start_run(80, 24)
}

#[test]
fn new_random_lays_out_the_grid() {
    let app = App::new_random(90, 30, 2, 4, 2, 2, 2, 2, false);
    let walls: Vec<(Rect, WallType)> = app.walls.iter().map(|w| (w.rect, w.wall_type)).collect();
    assert_eq!(
        walls,
        vec![
            (Rect { x: 0, y: 7, width: 30, height: 2 }, WallType::Static),
            (Rect { x: 45, y: 0, width: 6, height: 10 }, WallType::Static),
            (Rect { x: 0, y: 22, width: 30, height: 2 }, WallType::Static),
            (Rect { x: 45, y: 15, width: 6, height: 10 }, WallType::Water),
        ]
    );
    let enemies: Vec<(u16, u16)> = app.enemies.iter().map(|e| e.get_pos()).collect();
    assert_eq!(enemies, vec![(75, 25), (30, 25)]);
    assert_eq!(app.player.position, (2, 2));
    assert_eq!(app.player.health, 3);
    assert!(app.bullets.is_empty());
    assert!(app.dummies.is_empty());
    assert!(!app.is_hard());
    assert!(app.is_playing());
    assert_eq!(app.lvl, 2);
    let hard = App::new_random(90, 30, 2, 4, 2, 2, 2, 2, true);
    assert!(hard.is_hard());
    assert_eq!(hard.difficulty, Difficulty::Hard);
}

#[test]
fn new_random_with_zero_div_factor() {
    let app = App::new_random(60, 30, 3, 3, 0, 1, 0, 1, false);
    // Only wall 0 is a multiple of zero.
    assert_eq!(app.walls[0].rect, Rect { x: 0, y: 5, width: 10, height: 2 });
    assert_eq!(app.walls[1].rect, Rect { x: 20, y: 0, width: 6, height: 5 });
    assert_eq!(app.walls[2].rect, Rect { x: 40, y: 0, width: 6, height: 5 });
    assert!(app.enemies.is_empty());
}

#[test]
fn start_run_keeps_the_player_off_the_border() {
    let mut app = empty_round();
    app.player.position = (0, 7);
    let arena = app.start_run(80, 24);
    assert_eq!(app.player.position, (2, 7));
    assert_eq!(arena.max_x, 80);
    assert_eq!(arena.max_y, 24);
    assert!(!arena.is_hard);
    assert_eq!(
        arena.borders,
        vec![
            Rect { x: 0, y: 0, width: 1, height: 24 },
            Rect { x: 0, y: 0, width: 80, height: 1 },
            Rect { x: 0, y: 23, width: 80, height: 1 },
            Rect { x: 79, y: 0, width: 1, height: 24 },
        ]
    );
}

#[test]
fn a_bullet_flies_one_cell() {
    let mut app = empty_round();
    app.bullets.push(Bullet::new((10, 10), MovementDirection::Right));
    app.bullets.push(Bullet::new((10, 12), MovementDirection::Up));
    app.frame(1, &arena());
    assert_eq!(
        app.bullets,
        vec![Bullet::new((11, 10), MovementDirection::Right), Bullet::new((10, 11), MovementDirection::Up)]
    );
    assert!(app.dummies.is_empty());
}

#[test]
fn a_bullet_at_the_edge_leaves_a_mark() {
    let mut app = empty_round();
    app.bullets.push(Bullet::new((79, 10), MovementDirection::Right));
    app.bullets.push(Bullet::new((10, 0), MovementDirection::Up));
    app.frame(1, &arena());
    assert!(app.bullets.is_empty());
    assert_eq!(
        app.dummies,
        vec![
            Dummy { kind: DummyKind::Bullet, rect: Rect { x: 79, y: 10, width: 1, height: 1 }, frames: 9 },
            Dummy { kind: DummyKind::Bullet, rect: Rect { x: 10, y: 0, width: 1, height: 1 }, frames: 9 },
        ]
    );
}

#[test]
fn walls_stop_bullets_but_water_does_not() {
    let mut app = empty_round();
    app.walls.push(Wall::new_water((20, 5), (2, 2)));
    app.walls.push(Wall::new((20, 15), (2, 2)));
    app.bullets.push(Bullet::new((19, 5), MovementDirection::Right));
    app.bullets.push(Bullet::new((19, 15), MovementDirection::Right));
    app.frame(1, &arena());
    assert_eq!(app.bullets, vec![Bullet::new((20, 5), MovementDirection::Right)]);
    assert_eq!(app.dummies.len(), 1);
    assert_eq!(app.dummies[0].rect, Rect { x: 20, y: 15, width: 1, height: 1 });
}

#[test]
fn a_hit_enemy_turns_away() {
    let mut app = empty_round();
    app.enemies.push(Enemy::new((20, 10)));
    app.bullets.push(Bullet::new((19, 11), MovementDirection::Right));
    app.frame(1, &arena());
    assert!(app.bullets.is_empty());
    let e = app.enemies[0];
    assert_eq!(e.tank.health, 2);
    assert_eq!(e.tank.direction, MovementDirection::Up);
    assert_eq!(e.tank.move_forward_steps, 5);
    assert!(!e.needs_rotation);
    assert_eq!(app.dummies.len(), 1);
}

#[test]
fn a_destroyed_enemy_leaves_a_wreck() {
    let mut app = empty_round();
    let mut e = Enemy::new((20, 10));
    e.tank.health = 1;
    app.enemies.push(e);
    app.bullets.push(Bullet::new((19, 11), MovementDirection::Right));
    assert!(!app.is_game_end());
    app.frame(1, &arena());
    assert!(app.enemies.is_empty());
    assert_eq!(
        app.dummies,
        vec![
            Dummy { kind: DummyKind::Bullet, rect: Rect { x: 20, y: 11, width: 1, height: 1 }, frames: 9 },
            Dummy { kind: DummyKind::Enemy, rect: Rect { x: 20, y: 10, width: 3, height: 3 }, frames: 49 },
        ]
    );
    assert!(app.is_game_end());
    assert!(!app.is_lost());
}

#[test]
fn the_first_enemy_in_line_takes_the_hit() {
    let mut app = empty_round();
    app.enemies.push(Enemy::new((20, 10)));
    app.enemies.push(Enemy::new((20, 10)));
    app.bullets.push(Bullet::new((19, 11), MovementDirection::Right));
    app.frame(1, &arena());
    assert_eq!(app.enemies[0].tank.health, 2);
    assert_eq!(app.enemies[1].tank.health, 3);
}

#[test]
fn the_player_dies_on_the_last_hit() {
    let mut app = empty_round();
    app.enemies.push(Enemy::new((60, 20)));
    app.player.position = (10, 10);
    app.player.health = 1;
    app.bullets.push(Bullet::new((9, 11), MovementDirection::Right));
    app.frame(1, &arena());
    assert_eq!(app.player.health, 0);
    assert!(app.is_lost());
    assert!(app.is_game_end());
    assert_eq!(
        app.dummies,
        vec![
            Dummy { kind: DummyKind::Bullet, rect: Rect { x: 10, y: 11, width: 1, height: 1 }, frames: 9 },
            Dummy { kind: DummyKind::Player, rect: Rect { x: 10, y: 10, width: 3, height: 3 }, frames: 4999 },
        ]
    );
}

#[test]
fn a_hard_enemy_in_line_fires() {
    let mut app = App::new_random(80, 24, 1, 0, 0, 1, 0, 1, true);
    let arena = app.start_run(80, 24);
    app.enemies.push(Enemy::new((30, 2)));
    app.frame(1, &arena);
    let e = app.enemies[0];
    assert_eq!(e.tank.direction, MovementDirection::Left);
    assert_eq!(e.tank.move_forward_steps, 0);
    assert_eq!(app.bullets, vec![Bullet::new((30, 3), MovementDirection::Left)]);
}

#[test]
fn an_easy_enemy_in_line_waits_for_its_frame() {
    let mut app = empty_round();
    app.enemies.push(Enemy::new((30, 2)));
    app.frame(1, &arena());
    assert!(app.bullets.is_empty());
    assert_eq!(app.enemies[0].tank.direction, MovementDirection::Left);
    app.frame(55, &arena());
    assert_eq!(app.bullets, vec![Bullet::new((30, 3), MovementDirection::Left)]);
    assert_eq!(app.enemies[0].tank.ammo, 1);
}

#[test]
fn an_idle_enemy_turns_on_its_frame() {
    let mut app = empty_round();
    app.enemies.push(Enemy::new((40, 12)));
    app.frame(1, &arena());
    assert_eq!(app.enemies[0].tank.direction, MovementDirection::Right);
    app.frame(90, &arena());
    assert_eq!(app.enemies[0].tank.direction, MovementDirection::Up);
    assert_eq!(app.enemies[0].tank.move_forward_steps, 5);
}

#[test]
fn a_tank_is_its_own_obstacle() {
    // The obstacles hold the tank's own place, so a queued move is spent
    // without moving.
    let mut app = empty_round();
    app.enemies.push(Enemy::new((60, 20)));
    app.player.position = (10, 10);
    app.player.move_forward_steps = 1;
    app.frame(1, &arena());
    assert_eq!(app.player.position, (10, 10));
    assert_eq!(app.player.move_forward_steps, 0);
}

#[test]
fn keys_steer_and_shoot() {
    let mut app = empty_round();
    app.enemies.push(Enemy::new((60, 20)));
    app.player.position = (10, 10);
    app.handle_key_event(Key::Char('f'));
    assert_eq!(app.bullets, vec![Bullet::new((12, 11), MovementDirection::Right)]);
    app.handle_key_event(Key::Char('a'));
    assert_eq!(app.player.direction, MovementDirection::Left);
    app.handle_key_event(Key::Left);
    assert_eq!(app.player.move_forward_steps, 1);
    app.handle_key_event(Key::Char('k'));
    assert_eq!(app.player.direction, MovementDirection::Up);
    app.handle_key_event(Key::Down);
    assert_eq!(app.player.direction, MovementDirection::Down);
    app.handle_key_event(Key::Char('l'));
    assert_eq!(app.player.direction, MovementDirection::Right);
    app.handle_key_event(Key::Char('r'));
    assert_eq!(app.player.direction, MovementDirection::Up);
    app.handle_key_event(Key::Char('R'));
    assert_eq!(app.player.direction, MovementDirection::Right);
    app.handle_key_event(Key::Char('m'));
    assert!(!app.is_hard());
    app.handle_key_event(Key::Enter);
    assert!(app.is_playing());
    app.handle_key_event(Key::Esc);
    assert_eq!(app.state, AppState::Exit);
    assert!(!app.is_playing());
}

#[test]
fn keys_after_the_round() {
    let mut app = empty_round();
    assert!(app.is_game_end());
    app.handle_key_event(Key::Char('f'));
    assert!(app.bullets.is_empty());
    app.handle_key_event(Key::Char('a'));
    assert_eq!(app.player.direction, MovementDirection::Right);
    app.handle_key_event(Key::Char('m'));
    assert!(app.is_hard());
    app.handle_key_event(Key::Char('M'));
    assert!(!app.is_hard());
    app.handle_key_event(Key::Char('n'));
    assert!(app.is_restarting());
    app.handle_key_event(Key::Char('q'));
    assert_eq!(app.state, AppState::Exit);
}

#[test]
fn level_plans() {
    assert_eq!(level_plan(1), LevelPlan { n_walls: 1, n_enemies: 1, factor: 1, div_factor: 4 });
    assert_eq!(level_plan(2), LevelPlan { n_walls: 3, n_enemies: 2, factor: 2, div_factor: 0 });
    assert_eq!(level_plan(5), LevelPlan { n_walls: 7, n_enemies: 5, factor: 1, div_factor: 3 });
    assert_eq!(level_plan(20), LevelPlan { n_walls: 9, n_enemies: 8, factor: 1, div_factor: 3 });
    assert_eq!(level_plan(65535), LevelPlan { n_walls: 9, n_enemies: 8, factor: 1, div_factor: 0 });
    assert_eq!(level_plan(0), LevelPlan { n_walls: 1, n_enemies: 1, factor: 1, div_factor: 3 });
}

#[test]
fn levels_follow_won_rounds() {
    assert_eq!(next_level(3, false, true, false), None);
    assert_eq!(next_level(3, true, false, false), None);
    assert_eq!(next_level(3, true, true, true), Some(3));
    assert_eq!(next_level(3, true, true, false), Some(4));
    assert_eq!(next_level(65535, true, true, false), Some(65535));
}

#[test]
fn a_fresh_tank_is_a_fresh_enemy() {
    let e = Enemy::new((1, 1));
    let t = Tank::new((1, 1));
    assert_eq!((e.tank.position, e.tank.health, e.tank.ammo), (t.position, t.health, t.ammo));
}

#[test]
fn a_dead_player_stays_dead() {
    let mut app = empty_round();
    app.enemies.push(Enemy::new((60, 20)));
    app.player.position = (10, 10);
    app.player.health = 0;
    app.bullets.push(Bullet::new((9, 11), MovementDirection::Right));
    app.frame(1, &arena());
    assert_eq!(app.player.health, 0);
    assert_eq!(app.dummies.len(), 1);
    assert_eq!(app.dummies[0].kind, DummyKind::Bullet);
}

#[test]
fn layout_limits() {
    assert!(layout_fits(90, 30, 2, 4, 2, 2, 2));
    assert!(!layout_fits(90, 30, 0, 4, 2, 2, 2));
    assert!(!layout_fits(65535, 30, 1, 1, 0, 2, 0));
    assert!(layout_fits(65535, 30, 1, 0, 0, 2, 0));
    assert!(!layout_fits(60000, 60000, 1, 3, 0, 1, 0));
    assert!(!layout_fits(80, 30, 1, 0, 2, 1, 0));
    assert!(layout_fits(80, 30, 2, 0, 2, 1, 0));
}

#[test]
fn frame_limits() {
    let arena = arena();
    let mut app = empty_round();
    assert!(app.frame_fits(&arena));
    app.player.direction = MovementDirection::Up;
    app.player.position = (10, 65535);
    assert!(!app.frame_fits(&arena));
    let mut app = empty_round();
    app.enemies.push(Enemy::new((65534, 10)));
    assert!(!app.frame_fits(&arena));
    app.enemies[0].tank.health = 0;
    assert!(app.frame_fits(&arena));
}

#[test]
fn key_limits() {
    let mut app = empty_round();
    app.enemies.push(Enemy::new((60, 20)));
    assert!(app.key_fits(Key::Char('f')));
    app.player.position = (65534, 3);
    assert!(!app.key_fits(Key::Char('f')));
    assert!(app.key_fits(Key::Char('a')));
    app.player.move_forward_steps = usize::MAX;
    assert!(!app.key_fits(Key::Right));
    assert!(app.key_fits(Key::Left));
}
