//! Paint resolution for a vector-graphics renderer.
//!
//! A scene describes how its paths are filled with [`paint::Paint`] values: solid
//! colors and linear gradients. This crate gathers them in a deduplicating
//! [`palette::Palette`], which hands out stable 16-bit identifiers, and lays the
//! finished palette out in a fixed 256 x 256 RGBA texture that a rasterizer
//! samples while drawing.

pub mod color;
pub mod geometry;
pub mod gradient;
pub mod layout;
pub mod paint;
pub mod paint_set;
pub mod palette;
pub mod sorted_vector;
pub mod texture;
