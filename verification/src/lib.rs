//! A verified core for a desktop image viewer: format classification,
//! decoding of raster, animated, sensor-raw, scientific and next-generation
//! codec payloads into one bitmap representation, fixed-point tone mapping
//! for high-dynamic-range data, a tiled viewport renderer for oversized
//! images, and navigation state over a directory of files.

pub mod bitmap;
pub mod decode;
pub mod errors;
pub mod format;
pub mod model;
pub mod nav;
pub mod scientific;
pub mod tiles;
pub mod tonemap;
pub mod transform;
pub mod viewer;
