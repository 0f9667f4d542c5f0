//! Palette-constrained image quantization with error-diffusion and ordered
//! dithering.
//!
//! The crate reduces an RGB pixel buffer to a small fixed palette. A linear
//! nearest-color search picks each pixel's replacement; the signed residual
//! ("quantization error") is then spread over not-yet-visited neighbors
//! according to a per-method weight grid, or, for ordered (Bayer) methods,
//! each pixel is biased by a positional threshold before matching.

pub mod dither;
pub mod laws;
pub mod palette;
