//! The rules of a square-board Minesweeper: mine placement, neighbour counts,
//! flood reveal and win/loss detection, with every rule stated as a contract.

pub mod board;
pub mod clock;
pub mod field;
pub mod flood;
pub mod game;
pub mod grid;
pub mod icons;
pub mod laws;
pub mod mines;
pub mod position;
pub mod tile;
