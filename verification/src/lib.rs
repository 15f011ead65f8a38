//! Core simulation of a grid-based snake game.
//!
//! The crate holds the game's rules as a deterministic, time-stepped state
//! machine: a snake that crawls over a walled arena, a single piece of food,
//! and the transitions between playing and game over. Every function carries
//! a contract over a mathematical model of the state, and every contract is
//! proved.
//!
//! * [`snake`]: headings and the snake's body.
//! * [`scene`]: the shapes a frame is made of.
//! * [`game`]: the arena, the food and the rules that tie them together.
//! * [`random`]: the random draw that places the food.

pub mod game;
pub mod random;
pub mod scene;
pub mod snake;
