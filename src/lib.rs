//! Turns a raster image into ASCII art: every pixel becomes one 8x16 glyph,
//! picked from a brightness-ordered character ramp and drawn from a packed
//! bitmap font, in monochrome or in the pixel's own colour.

pub mod args;
pub mod font;
pub mod ramp;
pub mod raster;
pub mod render;
pub mod sampler;
