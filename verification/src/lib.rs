//! Core simulation of a snake game on a toroidal grid: movement, growth,
//! self-collision, apple placement and the four-phase game lifecycle.
//! Rendering, input polling and the frame clock live outside this crate.

pub mod cell;
pub mod game;
pub mod rng;
pub mod snake;
