//! What the driver of a session decides between frames: how a key press
//! changes the game, and when the next tick is due.

use vstd::prelude::*;
use crate::direction::Direction;
use crate::game::Game;
use crate::snake::turned;

verus! {

/// Width of the board of a standard session.
pub const BOARD_WIDTH: u16 = 40;

/// Height of the board of a standard session.
pub const BOARD_HEIGHT: u16 = 20;

/// Time between two ticks of the simulation, in milliseconds.
pub const TICK_MILLIS: u64 = 75;

/// Longest wait for a key press in one pass of the driver's loop, in
/// milliseconds.
pub const POLL_MILLIS: u64 = 50;

/// A key press, as far as the game tells keys apart.
#[derive(Clone, Copy, Debug, PartialEq, Eq)]
pub enum Key {
    Up,
    Down,
    Left,
    Right,
    /// A key that types a character.
    Char(char),
    Esc,
    /// Any other key.
    Other,
}

impl Key {
    /// The turn that this key asks for, if it is an arrow key.
    pub open spec fn turn(self) -> Option<Direction> {
        match self {
            Key::Up => Some(Direction::Up),
            Key::Down => Some(Direction::Down),
            Key::Left => Some(Direction::Left),
            Key::Right => Some(Direction::Right),
            _ => None,
        }
    }

    /// Whether this key ends the session: escape, or the letter `q`.
    pub open spec fn quits(self) -> bool {
        self == Key::Esc || self == Key::Char('q')
    }
}

/// Tells whether the simulation is due for a tick, `elapsed_millis` after the
/// last one.
pub fn tick_due(elapsed_millis: u64) -> (due: bool)
    ensures
        due == (elapsed_millis >= TICK_MILLIS),
{
    elapsed_millis >= TICK_MILLIS
}

impl Game {
    /// Applies one key press. An arrow key asks the snake to turn, and the
    /// request is dropped if it would reverse the snake. Escape and `q` end
    /// the game. Every other key is ignored.
    pub fn handle_key(&mut self, key: Key)
        ensures
            final(self).snake.direction == match key.turn() {
                Some(requested) => turned(old(self).snake.direction, requested),
                None => old(self).snake.direction,
            },
            final(self).game_over == (old(self).game_over || key.quits()),
            old(self).game_over ==> final(self).game_over,
            final(self).snake.body == old(self).snake.body,
            final(self).food == old(self).food,
            final(self).score == old(self).score,
            final(self).width == old(self).width,
            final(self).height == old(self).height,
    {
        match key {
            Key::Up => self.snake.change_direction(Direction::Up),
            Key::Down => self.snake.change_direction(Direction::Down),
            Key::Left => self.snake.change_direction(Direction::Left),
            Key::Right => self.snake.change_direction(Direction::Right),
            Key::Char(c) => {
                if c == 'q' {
                    self.game_over = true;
                }
            },
            Key::Esc => {
                self.game_over = true;
            },
            Key::Other => {},
        }
    }
}

} // verus!
