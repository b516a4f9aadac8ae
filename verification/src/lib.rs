//! The logic of an endless minesweeper field: cells of tiles placed on an
//! integer lattice, the layout a new field starts with, and the decisions the
//! game makes on player input.

pub mod position;
pub mod cell;
pub mod tiles;
pub mod world;
pub mod input;
