//! Movement range, path drawing and turn rules of a grid tactics game.
pub mod util;
pub mod tiles;
pub mod arrows;
pub mod game;
pub mod units;
pub mod input;
pub mod cursor;
