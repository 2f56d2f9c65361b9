//! Core rules of a terminal snake game.
//!
//! A snake moves over a bounded rectangular grid, eating food to grow;
//! the game ends when the snake leaves the grid, runs into its own body,
//! or fills the whole board.  This crate holds the verified game state
//! machine: grid contents, snake movement and growth, food placement,
//! the direction-lock input policy, and the per-tick update.  Terminal
//! rendering and key polling live outside the library; they only feed
//! plain input events in and take grid snapshots out.

pub mod cell;
pub mod direction;
pub mod game;
pub mod game_hardness;
pub mod game_status;
pub mod grid;
pub mod position;

pub use cell::Cell;
pub use direction::{locked_direction, Direction, InputEvent};
pub use game::{Game, TickOutcome};
pub use game_hardness::GameHardness;
pub use game_status::GameStatus;
pub use position::{Position, StepError};
