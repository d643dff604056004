//! A falling-block puzzle game core: the grid, the active tetromino and its
//! movement, rotation and collision rules, line clearing, and the decisions
//! of the game loop.
//!
//! Everything here is plain data and pure state transitions. Rendering,
//! audio and input devices live outside this library and talk to it through
//! plain values.

pub mod board;
pub mod driver;
pub mod game;
pub mod geometry;
pub mod random;

pub use crate::board::Board;
pub use crate::driver::{starting_lines, Action, Input};
pub use crate::game::{GameContext, State};
pub use crate::geometry::{Coords, NUM_TETROMINOS, ROTATIONS, STARTING_POSITIONS};
