//! Renders an RGBA raster as truecolor ANSI text, two pixel rows per terminal row.
//!
//! `geometry` fits an image into a grid of terminal cells, `raster` holds the
//! pixels and resamples them, `decimal` writes byte values as ASCII digits,
//! `encode` turns pairs of raster rows into colored cells, and `render` runs
//! the three steps in turn.

pub mod decimal;
pub mod encode;
pub mod filter;
pub mod geometry;
pub mod raster;
pub mod render;
