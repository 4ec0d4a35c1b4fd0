//! Game logic of a terminal snake: the field geometry, the snake and its moves,
//! the field map, the drawing plans that a terminal front end executes, and the
//! key bindings.

pub mod geometry;
pub mod map;
pub mod snake;
pub mod draw;
pub mod render;
pub mod game;
pub mod demo;
pub mod ansi;
