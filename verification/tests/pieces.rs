use vitanchiki::animations::{Dummy, DummyKind};
use vitanchiki::bullet::Bullet;
use vitanchiki::enemy::Enemy;
use vitanchiki::geometry::Rect;
use vitanchiki::player::Tank;
use vitanchiki::utils::MovementDirection;
use vitanchiki::wall::{Wall, WallType};

#[test]
fn enemy_new_and_getters() {
    let e = Enemy::new((10, 4));
    assert_eq!(e.get_pos(), (10, 4));
    assert_eq!(e.tank.health, 3);
    assert!(!e.needs_rotation);
    assert!(!e.is_destroyed());
    assert_eq!(e.get_rect(), Rect { x: 10, y: 4, width: 3, height: 3 });
    assert_eq!(e.get_damage_rect(), Rect { x: 10, y: 4, width: 3, height: 3 });
}

#[test]
fn enemy_takes_damage_until_destroyed() {
    let mut e = Enemy::new((10, 4));
    e.tank.move_forward_steps = 5;
    e.receive_damage();
    assert_eq!(e.tank.health, 2);
    assert_eq!(e.tank.move_forward_steps, 0);
    assert!(e.needs_rotation);
    e.receive_damage();
    e.receive_damage();
    assert!(e.is_destroyed());
    e.needs_rotation = false;
    e.tank.move_forward_steps = 2;
    e.receive_damage();
    assert_eq!(e.tank.health, 0);
    assert!(!e.needs_rotation);
    assert_eq!(e.tank.move_forward_steps, 2);
}

#[test]
fn enemy_shoots_only_while_alive() {
    let mut e = Enemy::new((10, 4));
    e.tank.move_forward_steps = 3;
    assert_eq!(e.shoot(), Some(Bullet::new((12, 5), MovementDirection::Right)));
    assert_eq!(e.tank.move_forward_steps, 0);
    e.tank.health = 0;
    e.tank.move_forward_steps = 3;
    assert_eq!(e.shoot(), None);
    assert_eq!(e.tank.move_forward_steps, 3);
}

#[test]
fn enemy_rotate_settles_the_pending_turn() {
    let mut e = Enemy::new((10, 4));
    e.needs_rotation = true;
    e.rotate();
    assert_eq!(e.tank.direction, MovementDirection::Up);
    assert!(!e.needs_rotation);
}

#[test]
fn walls_of_each_kind() {
    let w = Wall::new((1, 2), (3, 4));
    assert_eq!(w.get_rect(), Rect { x: 1, y: 2, width: 3, height: 4 });
    assert_eq!(w.wall_type, WallType::Static);
    assert!(!w.is_water());
    let w = Wall::new_water((5, 6), (7, 8));
    assert_eq!(w.get_rect(), Rect { x: 5, y: 6, width: 7, height: 8 });
    assert!(w.is_water());
    let w = Wall::new_destroyable((0, 0), (2, 2), 4);
    assert_eq!(w.wall_type, WallType::Breakable(4));
    assert!(!w.is_water());
}

#[test]
fn marks_of_each_kind() {
    let b = Bullet::new((3, 4), MovementDirection::Left);
    let d = Dummy::from_bullet(&b);
    assert_eq!((d.kind, d.rect, d.frames), (DummyKind::Bullet, Rect { x: 3, y: 4, width: 1, height: 1 }, 10));
    let e = Enemy::new((7, 8));
    let d = Dummy::from_enemy(&e);
    assert_eq!((d.kind, d.rect, d.frames), (DummyKind::Enemy, Rect { x: 7, y: 8, width: 3, height: 3 }, 50));
    let t = Tank::new((1, 2));
    let d = Dummy::from_player(&t);
    assert_eq!((d.kind, d.rect, d.frames), (DummyKind::Player, Rect { x: 1, y: 2, width: 3, height: 3 }, 5000));
}

#[test]
fn a_mark_lives_for_its_frames() {
    let mut d = Dummy::from_bullet(&Bullet::new((0, 0), MovementDirection::Up));
    for left in (0..10).rev() {
        assert!(d.decrease_frames());
        assert_eq!(d.frames, left);
    }
    assert!(!d.decrease_frames());
    assert_eq!(d.frames, 0);
}
