use vitanchiki::bullet::Bullet;
use vitanchiki::geometry::Rect;
use vitanchiki::player::Tank;
use vitanchiki::utils::MovementDirection;

fn tank_at(x: u16, y: u16, direction: MovementDirection) -> Tank {
    let mut t = Tank::new((x, y));
    t.direction = direction;
    t
}

#[test]
fn new_tank_starts_fresh() {
    let t = Tank::new((4, 7));
    assert_eq!(t.position, (4, 7));
    assert_eq!(t.direction, MovementDirection::Right);
    assert_eq!(t.health, 3);
    assert_eq!(t.ammo, 1000);
    assert_eq!(t.move_forward_steps, 0);
}

#[test]
fn default_tank_is_empty() {
    let t = Tank::default();
    assert_eq!(t.position, (0, 0));
    assert_eq!(t.direction, MovementDirection::Right);
    assert_eq!(t.health, 0);
    assert_eq!(t.ammo, 0);
    assert_eq!(t.move_forward_steps, 0);
    assert_eq!(MovementDirection::default(), MovementDirection::Right);
}

#[test]
fn shall_move_forward_uses_one_queued_move() {
    let mut t = Tank::new((1, 1));
    assert!(!t.shall_move_forward());
    assert_eq!(t.move_forward_steps, 0);
    t.move_forward_steps = 2;
    assert!(t.shall_move_forward());
    assert_eq!(t.move_forward_steps, 1);
    assert!(t.shall_move_forward());
    assert!(!t.shall_move_forward());
    assert_eq!(t.move_forward_steps, 0);
}

#[test]
fn rotate_towards_turns_then_queues() {
    let mut t = Tank::new((1, 1));
    t.move_forward_steps = 4;
    t.rotate_left();
    assert_eq!(t.direction, MovementDirection::Left);
    assert_eq!(t.move_forward_steps, 0);
    t.rotate_left();
    t.rotate_left();
    assert_eq!(t.move_forward_steps, 2);
    t.rotate_up();
    assert_eq!(t.direction, MovementDirection::Up);
    assert_eq!(t.move_forward_steps, 0);
    t.rotate_up();
    assert_eq!(t.move_forward_steps, 1);
    t.rotate_down();
    assert_eq!(t.direction, MovementDirection::Down);
    assert_eq!(t.move_forward_steps, 0);
    t.rotate_down();
    assert_eq!(t.move_forward_steps, 1);
    t.rotate_right();
    assert_eq!(t.direction, MovementDirection::Right);
    assert_eq!(t.move_forward_steps, 0);
    t.rotate_right();
    assert_eq!(t.move_forward_steps, 1);
    assert_eq!(t.position, (1, 1));
}

#[test]
fn rotate_goes_counter_clockwise() {
    let mut t = Tank::new((0, 0));
    t.rotate();
    assert_eq!(t.direction, MovementDirection::Up);
    t.rotate();
    assert_eq!(t.direction, MovementDirection::Left);
    t.rotate();
    assert_eq!(t.direction, MovementDirection::Down);
    t.rotate();
    assert_eq!(t.direction, MovementDirection::Right);
}

#[test]
fn rotate_back_goes_clockwise() {
    let mut t = Tank::new((0, 0));
    t.rotate_back();
    assert_eq!(t.direction, MovementDirection::Down);
    t.rotate_back();
    assert_eq!(t.direction, MovementDirection::Left);
    t.rotate_back();
    assert_eq!(t.direction, MovementDirection::Up);
    t.rotate_back();
    assert_eq!(t.direction, MovementDirection::Right);
}

#[test]
fn rotate_back_undoes_rotate() {
    for d in [MovementDirection::Left, MovementDirection::Up, MovementDirection::Down, MovementDirection::Right] {
        let mut t = tank_at(3, 3, d);
        t.rotate();
        t.rotate_back();
        assert_eq!(t.direction, d);
        t.rotate_back();
        t.rotate();
        assert_eq!(t.direction, d);
    }
}

#[test]
fn shoot_fires_from_the_muzzle() {
    let cases = [
        (MovementDirection::Left, (5, 6)),
        (MovementDirection::Right, (7, 6)),
        (MovementDirection::Up, (6, 5)),
        (MovementDirection::Down, (6, 6)),
    ];
    for (d, muzzle) in cases {
        let mut t = tank_at(5, 5, d);
        t.move_forward_steps = 3;
        let b = t.shoot();
        assert_eq!(b, Bullet::new(muzzle, d));
        assert_eq!(t.move_forward_steps, 0);
        assert_eq!(t.position, (5, 5));
    }
}

#[test]
fn rects_of_a_tank() {
    let t = tank_at(5, 9, MovementDirection::Right);
    assert_eq!(t.get_rect(), Rect { x: 5, y: 9, width: 3, height: 3 });
    assert_eq!(t.get_damage_rect(), Rect { x: 5, y: 9, width: 3, height: 3 });
    let t = tank_at(5, 9, MovementDirection::Up);
    assert_eq!(t.get_damage_rect(), Rect { x: 5, y: 10, width: 3, height: 1 });
    let t = tank_at(5, 9, MovementDirection::Down);
    assert_eq!(t.get_damage_rect(), Rect { x: 5, y: 10, width: 3, height: 1 });
}

#[test]
fn health_saturates() {
    let mut t = Tank::new((0, 0));
    t.receive_damage();
    assert_eq!(t.health, 2);
    t.receive_damage();
    t.receive_damage();
    assert_eq!(t.health, 0);
    t.receive_damage();
    assert_eq!(t.health, 0);
    t.receive_hp();
    assert_eq!(t.health, 1);
    t.health = usize::MAX;
    t.receive_hp();
    assert_eq!(t.health, usize::MAX);
}

#[test]
fn move_left_free_and_blocked() {
    let mut t = tank_at(5, 5, MovementDirection::Left);
    t.move_left(vec![Rect { x: 0, y: 5, width: 4, height: 1 }]);
    assert_eq!(t.position, (4, 5));
    let mut t = tank_at(5, 5, MovementDirection::Left);
    t.move_left(vec![Rect { x: 20, y: 0, width: 1, height: 1 }, Rect { x: 0, y: 5, width: 5, height: 1 }]);
    assert_eq!(t.position, (5, 5));
}

#[test]
fn move_left_at_the_edge_steps_right_when_blocked() {
    let mut t = tank_at(0, 5, MovementDirection::Left);
    t.move_left(vec![Rect { x: 0, y: 0, width: 1, height: 30 }]);
    assert_eq!(t.position, (1, 5));
}

#[test]
fn move_right_free_and_blocked() {
    let mut t = tank_at(5, 5, MovementDirection::Right);
    t.move_right(vec![Rect { x: 9, y: 5, width: 1, height: 1 }]);
    assert_eq!(t.position, (6, 5));
    let mut t = tank_at(5, 5, MovementDirection::Right);
    t.move_right(vec![Rect { x: 8, y: 5, width: 1, height: 1 }]);
    assert_eq!(t.position, (5, 5));
}

#[test]
fn move_down_free_and_blocked() {
    let mut t = tank_at(5, 5, MovementDirection::Down);
    t.move_down(vec![Rect { x: 5, y: 9, width: 3, height: 1 }]);
    assert_eq!(t.position, (5, 6));
    let mut t = tank_at(5, 5, MovementDirection::Down);
    t.move_down(vec![Rect { x: 5, y: 8, width: 3, height: 1 }]);
    assert_eq!(t.position, (5, 5));
}

#[test]
fn move_up_free_and_blocked() {
    let mut t = tank_at(5, 5, MovementDirection::Up);
    t.move_up(vec![Rect { x: 5, y: 3, width: 3, height: 1 }]);
    assert_eq!(t.position, (5, 4));
    let mut t = tank_at(5, 5, MovementDirection::Up);
    t.move_up(vec![Rect { x: 5, y: 4, width: 3, height: 1 }]);
    assert_eq!(t.position, (5, 5));
}

#[test]
fn move_up_pushes_back_once_per_obstacle() {
    // Stepping up hits the first bar; standing back, the tank meets the
    // second bar and is pushed a row further down, onto it.
    let mut t = tank_at(5, 5, MovementDirection::Up);
    t.move_up(vec![Rect { x: 5, y: 4, width: 3, height: 1 }, Rect { x: 5, y: 7, width: 3, height: 1 }]);
    assert_eq!(t.position, (5, 6));
}

#[test]
fn move_facing_elsewhere_only_turns() {
    let mut t = tank_at(5, 5, MovementDirection::Right);
    t.move_up(vec![]);
    assert_eq!((t.position, t.direction), ((5, 5), MovementDirection::Up));
    t.move_left(vec![]);
    assert_eq!((t.position, t.direction), ((5, 5), MovementDirection::Left));
    t.move_down(vec![]);
    assert_eq!((t.position, t.direction), ((5, 5), MovementDirection::Down));
    t.move_right(vec![]);
    assert_eq!((t.position, t.direction), ((5, 5), MovementDirection::Right));
}

#[test]
fn move_forward_follows_the_direction() {
    let obstacles = vec![Rect { x: 100, y: 100, width: 1, height: 1 }];
    for (d, after) in [
        (MovementDirection::Left, (4, 5)),
        (MovementDirection::Right, (6, 5)),
        (MovementDirection::Up, (5, 4)),
        (MovementDirection::Down, (5, 6)),
    ] {
        let mut t = tank_at(5, 5, d);
        t.move_forward(&obstacles);
        assert_eq!(t.position, after);
        assert_eq!(t.direction, d);
    }
}

#[test]
fn bullet_new_and_rect() {
    let b = Bullet::new((3, 4), MovementDirection::Up);
    assert_eq!(b.position, (3, 4));
    assert_eq!(b.direction, MovementDirection::Up);
    assert_eq!(b.get_rect(), Rect { x: 3, y: 4, width: 1, height: 1 });
}
