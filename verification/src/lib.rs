//! The rules of a small terminal tank game: tanks that turn, drive and shoot,
//! bullets that fly across an arena of walls, short-lived explosion marks,
//! and the frame-by-frame update that ties them together.
//!
//! Coordinates are terminal cells (`u16`); the screen itself is drawn by the
//! application around this crate.

pub mod geometry;
pub mod utils;
pub mod bullet;
pub mod player;
pub mod enemy;
pub mod wall;
pub mod animations;
pub mod app;
pub mod layout;
pub mod frame;
pub mod levels;
pub mod laws;
pub mod rules;
