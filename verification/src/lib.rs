//! A verified photographic filter pipeline over RGBA rasters.
//!
//! The pipeline applies a fixed-order chain of per-pixel edits (exposure,
//! whites, blacks, grayscale, color enhancement, sharpening, glow, tinting
//! and grain) to an in-memory raster. All pixel math is carried out in
//! fixed-point integer arithmetic: factors and blend weights are given in
//! thousandths (1000 = 1.0), and the non-linear curves run on a 2^16 scale.

pub mod math;
pub mod raster;
pub mod pointwise;
pub mod whites;
pub mod blacks;
pub mod color;
pub mod tint;
pub mod sharpen;
pub mod glow;
pub mod grain;
pub mod params;
pub mod pipeline;
pub mod laws;
