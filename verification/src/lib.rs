//! Fixed-timestep simulation core of a brick-breaker game.
//!
//! A paddle slides along the bottom of a rectangular field, balls bounce off
//! the walls, the paddle and a set of bricks, and every brick loses health when
//! a ball touches it. The crate holds the state model and the rules of one
//! simulation step; drawing, key polling and timing belong to the host.
//!
//! All lengths, positions and speeds are integers counted in sub-pixel units
//! ([`geometry::UNITS_PER_PIXEL`] to the pixel), so that every step is exact.
//!
//! - [`geometry`]: rectangles and the contact tests between a ball and a brick.
//! - [`field`], [`paddle`], [`enemy`], [`ball`]: the entities and their rules.
//! - [`input`]: the player's request for one step.
//! - [`metrics`]: the frame-rate indicator.
//! - [`state`]: the world as a mathematical value, and one step as a function on it.
//! - [`world`]: the world that the host holds, its step and its snapshot.
//! - [`laws`]: what holds of every step.

pub mod ball;
pub mod enemy;
pub mod field;
pub mod geometry;
pub mod input;
pub mod laws;
pub mod metrics;
pub mod paddle;
pub mod state;
pub mod world;
