//! A terminal snake game engine: a bordered grid, a segmented player body,
//! and a tick-based state machine that moves the body, grows it on food,
//! and ends the run with a win or a loss.
//!
//! The surrounding program supplies only the injected capabilities the
//! engine cannot own: polling the currently held keys, printing a rendered
//! frame, and the process entry point.

mod engine;
mod grid;
mod player;
mod rng;

pub use engine::{key_direction, Direction, End, GameState, Tick};
pub use grid::{new_game, refresh, Area, Cell, Coordinates, Dimensions, Game};
pub use player::{new_player, Player};
pub use rng::randint;
