//! A verified Connect-Four rules engine: a 6 x 7 gravity board backed by two
//! checker pools, a pure four-in-a-row detector, and a game controller that
//! drives turn order, win detection and board resets.

pub mod game;
pub mod grid;
pub mod tiles;
pub mod win;
