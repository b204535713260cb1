//! Resolution-aware rasterization sizing and physical-density metadata.
//!
//! Given a vector document's intrinsic size and a requested output density
//! (dots per inch), this library derives the integer pixel canvas size, the
//! exact uniform scale ratio relative to the 96-DPI baseline, and the 9-byte
//! physical-density descriptor that is embedded in the produced raster
//! container. Densities and intrinsic sizes are exact decimals with four
//! fractional digits, held in fixed point, so every contract is exact
//! integer arithmetic.

pub mod chunks;
pub mod container;
pub mod density;
pub mod geometry;
pub mod pipeline;
pub mod resolution;
