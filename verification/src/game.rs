use vstd::prelude::*;

use crate::geometry::{can_step, Dir, Pos};
use crate::map::GameMap;
use crate::snake::{moved, on_field, Snake};

verus! {

/// A key as the game and the frame demo see it.
#[derive(Clone, Copy, Debug, PartialEq, Eq, Structural)]
pub enum Key {
    Esc,
    Enter,
    Char(char),
    Up,
    Down,
    Left,
    Right,
    /// Any other key.
    Other,
}

/// What the game does on a key.
#[derive(Clone, Copy, Debug, PartialEq, Eq, Structural)]
pub enum Command {
    /// Leave the game.
    Quit,
    /// Set the snake's direction.
    Turn(Dir),
    /// Nothing.
    Ignore,
}

/// The game's key bindings: `Esc` quits, `w` `a` `s` `d` turn the snake up,
/// left, down and right; every other key is ignored.
pub open spec fn key_command(key: Key) -> Command {
    match key {
        Key::Esc => Command::Quit,
        Key::Char('w') => Command::Turn(Dir::Up),
        Key::Char('a') => Command::Turn(Dir::Left),
        Key::Char('s') => Command::Turn(Dir::Down),
        Key::Char('d') => Command::Turn(Dir::Right),
        _ => Command::Ignore,
    }
}

/// `w` `a` `s` `d` turn the snake up, left, down and right, `Esc` quits, and
/// no other key changes anything.
pub proof fn lemma_key_bindings()
    ensures
        key_command(Key::Char('w')) == Command::Turn(Dir::Up),
        key_command(Key::Char('a')) == Command::Turn(Dir::Left),
        key_command(Key::Char('s')) == Command::Turn(Dir::Down),
        key_command(Key::Char('d')) == Command::Turn(Dir::Right),
        key_command(Key::Esc) == Command::Quit,
        forall|key: Key|
            key != Key::Esc && key != Key::Char('w') && key != Key::Char('a') && key != Key::Char(
                's',
            ) && key != Key::Char('d') ==> #[trigger] key_command(key) == Command::Ignore,
{
}

/// The command that the game carries out for `key`.
pub fn command_for(key: Key) -> (c: Command)
    ensures
        c == key_command(key),
{
    match key {
        Key::Esc => Command::Quit,
        Key::Char('w') => Command::Turn(Dir::Up),
        Key::Char('a') => Command::Turn(Dir::Left),
        Key::Char('s') => Command::Turn(Dir::Down),
        Key::Char('d') => Command::Turn(Dir::Right),
        _ => Command::Ignore,
    }
}

/// The game: the snake, the field it moves on, and the number of moves per
/// second.
pub struct Game {
    pub snake: Snake,
    pub map: GameMap,
    pub speed: u16,
}

impl Game {
    pub open spec fn wf(&self) -> bool {
        self.snake.wf()
    }

    /// A field of `width` by `height` cells with a snake on cells 1 to 3 of
    /// row 1, moving right, at one move per second.
    pub fn new(width: u16, height: u16) -> (g: Game)
        ensures
            g.wf(),
            g.snake.segs() == seq![Pos { x: 1, y: 1 }, Pos { x: 2, y: 1 }, Pos { x: 3, y: 1 }],
            g.snake.heading() == Dir::Right,
            g.map.width == width,
            g.map.height == height,
            g.speed == 1,
    {
        Game { snake: Snake::new(3, 1), map: GameMap::new(width, height), speed: 1 }
    }

    /// Carries out `command` on the snake; returns whether the game should end.
    pub fn apply(&mut self, command: Command) -> (quit: bool)
        requires
            old(self).wf(),
        ensures
            final(self).wf(),
            quit == (command == Command::Quit),
            final(self).snake.segs() == old(self).snake.segs(),
            final(self).snake.heading() == match command {
                Command::Turn(d) => d,
                _ => old(self).snake.heading(),
            },
            final(self).map == old(self).map,
            final(self).speed == old(self).speed,
    {
        match command {
            Command::Quit => true,
            Command::Turn(d) => {
                self.snake.set_dir(d);
                false
            },
            Command::Ignore => false,
        }
    }

    /// One move of the snake on the field: returns the cell the tail left and
    /// whether the head is now off the field.
    pub fn step(&mut self) -> (res: (Pos, bool))
        requires
            old(self).wf(),
            can_step(old(self).snake.segs().last(), old(self).snake.heading()),
        ensures
            final(self).wf(),
            final(self).snake.segs() == moved(old(self).snake.segs(), old(self).snake.heading()),
            final(self).snake.heading() == old(self).snake.heading(),
            final(self).map == old(self).map,
            final(self).speed == old(self).speed,
            res.0 == old(self).snake.segs()[0],
            res.1 == !on_field(final(self).snake.segs().last(), old(self).map.width, old(self).map.height),
    {
        self.snake.step(&self.map)
    }
}

} // verus!
