//! Derives a small colour theme (a primary colour, its complement and two
//! text colours) from the pixels of a raster image.

pub mod color;
pub mod reduce;
pub mod theme;
