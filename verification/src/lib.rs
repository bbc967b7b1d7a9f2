//! A verified core for a two-player Connect 4 game on a fixed 6x7 grid.
//!
//! The library holds the grid model, the move validator, the win/draw
//! detector, the text renderer and the turn controller, each with a
//! contract that pins down its result. Console input and output live
//! outside the library and hand it plain strings and values.

pub mod board;
pub mod error;
pub mod game;
pub mod input;
pub mod outcome;
pub mod render;
