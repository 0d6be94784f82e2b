//! Core of a level editor for a wave-based tower-defense game: layered
//! terrain grids, building placement rules and the wave timeline.

pub mod editor;
pub mod exchange;
pub mod lemmas;
pub mod models;
pub mod terrain;
pub mod timeline;
pub mod utils;
