//! Data model of a tile-map editor: a rectangular grid of optional icon names
//! and the registry of icons that can be painted onto it.
//!
//! - [`grid`]: the grid, its cells and its resizing.
//! - [`document`]: the saved form of a grid and the rules for loading one.
//! - [`codec`]: saved grids as JSON values and JSON text.
//! - [`registry`]: the loaded icons, the selected one and the default one.
//! - [`listing`]: which entries of a folder the folder dialog offers.
//! - [`json_value`]: what is taken on trust from the `json` crate.

pub mod codec;
pub mod document;
pub mod error;
pub mod grid;
pub mod json_value;
pub mod listing;
pub mod registry;
