//! The simulation core of a terminal snake game.
//!
//! The crate holds the rules of the game and nothing that touches a terminal:
//! the movement model of the snake, collision detection, food placement, the
//! per-tick update, the reaction to key presses, and the list of cell writes
//! that brings a terminal from one frame to the next. Every function carries
//! a contract over the mathematical model of the game state.

pub mod direction;
pub mod food;
pub mod game;
pub mod input;
mod random;
pub mod render;
pub mod snake;

pub use direction::Direction;
pub use game::Game;
pub use input::Key;
pub use render::{CellWrite, Glyph};
pub use snake::{Position, Snake};
