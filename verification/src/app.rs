//! The grid model, palette data, and the movement resolver's intent logic.

pub mod data;
pub mod graphics;
pub mod detection;
pub mod logic;
pub mod state;
