//! Core of a two-paddle pong simulation: fixed-point geometry, ball physics,
//! the per-tick update rule, and the key-to-paddle input mapping.
//!
//! All coordinates and speeds are integers counted in milliunits (one
//! playfield unit is 1000 milliunits), so every step of the simulation has an
//! exact contract. Windowing, rendering and clocks live outside the library;
//! they hand in elapsed milliseconds and key events and read the state back.

pub mod ball;
pub mod game;
pub mod geom;
pub mod intmath;
pub mod units;
