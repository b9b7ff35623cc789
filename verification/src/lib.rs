//! Simulation core of a grid-based snake game.
//!
//! The [`world::World`] aggregate owns the authoritative game state: the
//! snake's body and heading, the reward cell, the score, and the win/loss
//! status.  A presentation layer drives it by calling
//! [`world::World::change_direction`] on input events and
//! [`world::World::step`] once per tick, and reads the state back through the
//! accessors.  Randomness is injected through the [`world::RandomSource`]
//! capability; the core owns no generator of its own.

pub mod grid;
pub mod snake;
pub mod world;

pub use grid::Direction;
pub use grid::next_index;
pub use snake::SnakeCell;
pub use world::GameStatus;
pub use world::RandomSource;
pub use world::World;
