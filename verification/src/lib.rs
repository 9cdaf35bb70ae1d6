//! Frame-stepped game logic for two small arcade games that share one menu:
//! an asteroid shooter and a side-scrolling bird game.
//!
//! Every length is a whole number of thousandths of a screen unit, every time
//! a whole number of milliseconds, so that each rule is stated exactly.

pub mod geometry;
pub mod rng;
pub mod asteroid;
pub mod ship;
pub mod flow;
pub mod collision;
pub mod clearing;
pub mod asteroids;
pub mod bird;
pub mod flappy_bird;
pub mod menu;
