//! A verified fixed-timestep Pong core: paddles, a ball and four walls in a
//! rectangular arena, with axis-aligned bounding-box collision detection and
//! speed-preserving bounce responses, all over integer coordinates.

pub mod math;
pub mod types;
pub mod geometry;
pub mod config;
pub mod world;
pub mod paddle;
pub mod wall;
pub mod ball;
pub mod tick;
