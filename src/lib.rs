//! A small 2D drawing layer: polygon outlines and scanline fills are turned
//! into line segments, and a `Screen` records the surface commands that a
//! windowing back end carries out.

pub mod geometry;
pub mod raster;
pub mod surface;
pub mod input;
pub mod screen;
