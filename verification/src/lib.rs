//! Rendering of a rectangular grid world (terrain, resources, structures,
//! and a per-cell cost field) into an RGBA pixel canvas.
//!
//! The canvas and every painting operation on it are verified: creation and
//! background fill, grid lines, tile compositing, and the heatmap overlay
//! generated from a sparse cost field. Resampling and alpha blending are
//! performed by the `image` crate through trusted wrappers.

pub mod canvas;
pub mod compose;
pub mod heatmap;
pub mod overlay;
pub mod text;
pub mod tiles;
