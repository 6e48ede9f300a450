//! The rules of a grid snake game, independent of any engine: coordinates and
//! wraparound, headings and input, the snake's movement and growth, food
//! placement, and the per-tick game loop.

pub mod controller;
pub mod food;
pub mod game;
pub mod grid;
pub mod snake;
