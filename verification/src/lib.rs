//! Conversion of decoded raster images into the packed data formats of a
//! tile-based graphics target with 15-bit colour: palettes, palette-indexed
//! pixel data, 8×8 tile layout, run-length compression and word packing.

pub mod bitmap;
pub mod config;
pub mod convert;
pub mod error;
pub mod fields;
pub mod layout;
pub mod quantize;
pub mod read_image;
pub mod tiled;
pub mod util;
