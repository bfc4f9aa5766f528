//! The rule engine of a snake game on a fixed grid: movement, collisions,
//! growth and food placement, advanced one tick at a time.
pub mod game;
pub mod laws;
pub mod random;

pub use game::{Direction, Position, SnakeGame, DEFAULT_SEED};
pub use random::random_range;
