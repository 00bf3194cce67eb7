//! Renders a still image as if displayed on a CRT monitor: the source is
//! upsampled 4x in each dimension, with scanline darkening and a tiled RGB
//! phosphor mask applied per sub-pixel.
//!
//! The library works on plain in-memory pixel grids; decoding and encoding
//! image files is left to the caller.

pub mod mask;
pub mod raster;
pub mod render;
