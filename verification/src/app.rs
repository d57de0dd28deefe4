use vstd::prelude::*;
use crate::animations::Dummy;
use crate::bullet::Bullet;
use crate::enemy::Enemy;
use crate::player::Tank;
use crate::utils::MovementDirection;
use crate::wall::Wall;

verus! {

/// Whether a round goes on, is to be started again, or the game is to end.
#[derive(Debug, Clone, Copy, PartialEq, Eq)]
pub enum AppState {
    Playing,
    Restart,
    Exit,
}

/// In a hard game, enemies that see the player shoot on every frame.
#[derive(Debug, Clone, Copy, PartialEq, Eq)]
pub enum Difficulty {
    Easy,
    Hard,
}

/// A key press, as far as the game tells keys apart.
#[derive(Debug, Clone, Copy, PartialEq, Eq)]
pub enum Key {
    Char(char),
    Esc,
    Enter,
    Left,
    Right,
    Up,
    Down,
    Other,
}

/// One round of the game: the player, the arena and everything on it.
pub struct App {
    pub player: Tank,
    pub walls: Vec<Wall>,
    pub enemies: Vec<Enemy>,
    pub bullets: Vec<Bullet>,
    pub dummies: Vec<Dummy>,
    pub difficulty: Difficulty,
    pub state: AppState,
    pub lvl: u16,
}

/// A round as a mathematical value: the collections as sequences.
#[verifier::ext_equal]
pub struct AppView {
    pub player: Tank,
    pub walls: Seq<Wall>,
    pub enemies: Seq<Enemy>,
    pub bullets: Seq<Bullet>,
    pub dummies: Seq<Dummy>,
    pub difficulty: Difficulty,
    pub state: AppState,
    pub lvl: u16,
}

impl View for App {
    type V = AppView;

    open spec fn view(&self) -> AppView {
        AppView {
            player: self.player,
            walls: self.walls@,
            enemies: self.enemies@,
            bullets: self.bullets@,
            dummies: self.dummies@,
            difficulty: self.difficulty,
            state: self.state,
            lvl: self.lvl,
        }
    }
}

impl AppView {
    /// The round is over once the player is dead or no enemy is left.
    pub open spec fn game_over(self) -> bool {
        self.player.health == 0 || self.enemies.len() == 0
    }

    /// The round after a key press. While the round runs, keys quit, shoot
    /// and steer; once it is over, keys quit, restart and switch difficulty.
    pub open spec fn after_key(self, key: Key) -> AppView {
        if !self.game_over() {
            match key {
                Key::Char('q') | Key::Esc => AppView { state: AppState::Exit, ..self },
                Key::Char(' ') | Key::Char('f') => AppView {
                    bullets: self.bullets.push(self.player.shot()),
                    player: Tank { move_forward_steps: 0, ..self.player },
                    ..self
                },
                Key::Left | Key::Char('h') | Key::Char('a') => AppView {
                    player: self.player.faced(MovementDirection::Left),
                    ..self
                },
                Key::Right | Key::Char('l') | Key::Char('d') => AppView {
                    player: self.player.faced(MovementDirection::Right),
                    ..self
                },
                Key::Up | Key::Char('k') | Key::Char('w') => AppView {
                    player: self.player.faced(MovementDirection::Up),
                    ..self
                },
                Key::Down | Key::Char('j') | Key::Char('s') => AppView {
                    player: self.player.faced(MovementDirection::Down),
                    ..self
                },
                Key::Char('r') => AppView {
                    player: Tank { direction: self.player.direction.turned(), ..self.player },
                    ..self
                },
                Key::Char('R') => AppView {
                    player: Tank { direction: self.player.direction.turned_back(), ..self.player },
                    ..self
                },
                _ => self,
            }
        } else {
            match key {
                Key::Char('q') | Key::Esc => AppView { state: AppState::Exit, ..self },
                Key::Enter | Key::Char('r') | Key::Char('R') | Key::Char('N') | Key::Char('n') => {
                    AppView { state: AppState::Restart, ..self }
                },
                Key::Char('m') | Key::Char('M') => AppView {
                    difficulty: match self.difficulty {
                        Difficulty::Easy => Difficulty::Hard,
                        Difficulty::Hard => Difficulty::Easy,
                    },
                    ..self
                },
                _ => self,
            }
        }
    }

    /// The key can be handled without leaving the board or overflowing the
    /// player's queue of moves.
    pub open spec fn key_allowed(self, key: Key) -> bool {
        !self.game_over() ==> match key {
            Key::Char(' ') | Key::Char('f') => self.player.shot_defined(),
            Key::Left | Key::Char('h') | Key::Char('a') => self.player.can_face(MovementDirection::Left),
            Key::Right | Key::Char('l') | Key::Char('d') => self.player.can_face(MovementDirection::Right),
            Key::Up | Key::Char('k') | Key::Char('w') => self.player.can_face(MovementDirection::Up),
            Key::Down | Key::Char('j') | Key::Char('s') => self.player.can_face(MovementDirection::Down),
            _ => true,
        }
    }
}

impl App {
    /// Answers one key press.
    pub fn handle_key_event(&mut self, key: Key)
        requires
            old(self)@.key_allowed(key),
        ensures
            final(self)@ == old(self)@.after_key(key),
    {
        if !self.is_game_end() {
            match key {
                Key::Char('q') | Key::Esc => self.exit(),
                Key::Char(' ') | Key::Char('f') => {
                    let bullet = self.player.shoot();
                    self.bullets.push(bullet);
                },
                Key::Left | Key::Char('h') | Key::Char('a') => self.player.rotate_left(),
                Key::Right | Key::Char('l') | Key::Char('d') => self.player.rotate_right(),
                Key::Up | Key::Char('k') | Key::Char('w') => self.player.rotate_up(),
                Key::Down | Key::Char('j') | Key::Char('s') => self.player.rotate_down(),
                Key::Char('r') => self.player.rotate(),
                Key::Char('R') => self.player.rotate_back(),
                _ => {},
            }
        } else {
            match key {
                Key::Char('q') | Key::Esc => self.exit(),
                Key::Enter | Key::Char('r') | Key::Char('R') | Key::Char('N') | Key::Char('n') => {
                    self.restart()
                },
                Key::Char('m') | Key::Char('M') => match self.difficulty {
                    Difficulty::Easy => self.difficulty = Difficulty::Hard,
                    Difficulty::Hard => self.difficulty = Difficulty::Easy,
                },
                _ => {},
            }
        }
    }

    /// Whether this key can be handled within the numbers a `u16` or a
    /// `usize` holds, as `AppView::key_allowed` states.
    pub fn key_fits(&self, key: Key) -> (ok: bool)
        ensures
            ok == self@.key_allowed(key),
    {
        if self.is_game_end() {
            return true;
        }
        let p = &self.player;
        let (x, y) = p.position;
        let queue_room = p.move_forward_steps < usize::MAX;
        match key {
            Key::Char(' ') | Key::Char('f') => match p.direction {
                MovementDirection::Left => y < u16::MAX,
                MovementDirection::Right => x <= u16::MAX - 2 && y < u16::MAX,
                MovementDirection::Up => x < u16::MAX,
                MovementDirection::Down => x < u16::MAX && y < u16::MAX,
            },
            Key::Left | Key::Char('h') | Key::Char('a') => match p.direction {
                MovementDirection::Left => queue_room,
                _ => true,
            },
            Key::Right | Key::Char('l') | Key::Char('d') => match p.direction {
                MovementDirection::Right => queue_room,
                _ => true,
            },
            Key::Up | Key::Char('k') | Key::Char('w') => match p.direction {
                MovementDirection::Up => queue_room,
                _ => true,
            },
            Key::Down | Key::Char('j') | Key::Char('s') => match p.direction {
                MovementDirection::Down => queue_room,
                _ => true,
            },
            _ => true,
        }
    }

    /// The player has been destroyed.
    pub fn is_lost(&self) -> (b: bool)
        ensures
            b == (self.player.health == 0),
    {
        self.player.health == 0
    }

    /// The round is over: the player is destroyed, or every enemy is.
    pub fn is_game_end(&self) -> (b: bool)
        ensures
            b == self@.game_over(),
    {
        self.player.health == 0 || self.enemies.len() == 0
    }

    fn exit(&mut self)
        ensures
            final(self)@ == (AppView { state: AppState::Exit, ..old(self)@ }),
    {
        self.state = AppState::Exit
    }

    fn restart(&mut self)
        ensures
            final(self)@ == (AppView { state: AppState::Restart, ..old(self)@ }),
    {
        self.state = AppState::Restart
    }

    pub fn is_restarting(&self) -> (b: bool)
        ensures
            b == (self.state == AppState::Restart),
    {
        match self.state {
            AppState::Restart => true,
            _ => false,
        }
    }

    /// The round goes on: nobody asked to quit or to restart.
    pub fn is_playing(&self) -> (b: bool)
        ensures
            b == (self.state == AppState::Playing),
    {
        match self.state {
            AppState::Playing => true,
            _ => false,
        }
    }

    pub fn is_hard(&self) -> (b: bool)
        ensures
            b == (self.difficulty == Difficulty::Hard),
    {
        match self.difficulty {
            Difficulty::Hard => true,
            _ => false,
        }
    }
}

} // verus!
