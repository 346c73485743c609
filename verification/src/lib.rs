//! Pixel-level comparison of two decoded raster images.
//!
//! Two images of equal dimensions are compared pixel by pixel on their
//! first three channels (red, green, blue); any alpha channel is ignored.
//! The result is a tightly packed RGB buffer of the same dimensions in
//! which an identical pixel is painted black and a differing pixel green.

pub mod diff;
pub mod image;
