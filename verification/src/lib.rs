//! Resampling core of a stereographic ("little planet") image remapper.
//!
//! The crate samples a source raster at fractional positions with bilinear
//! interpolation and fills an output canvas from a field of such positions.
//! Fractional positions are fixed-point integers, so every result is an exact
//! function of its inputs.

pub mod error;
pub mod listener;
pub mod projection;
pub mod raster;
pub mod render;
pub mod sampling;
pub mod schedule;
