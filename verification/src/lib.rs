//! A snake game engine: the snake, its food, collisions, score and speed.
pub mod direction;
pub mod food;
pub mod game;
pub mod grid;
pub mod laws;
pub mod model;
pub mod snake;
