//! A palette-quantization and error-diffusion dithering engine.
//!
//! The engine restricts an image to a small, user-supplied colour palette,
//! diffusing each pixel's quantization error to not-yet-visited neighbours so
//! that average tone is preserved. The core pieces are the nearest-colour
//! matcher, the named diffusion kernels, the boundary partitioner that lets
//! the hot loop skip bounds checks over most of the frame, and the
//! scan-ordered diffusion pass itself.

pub mod color;
pub mod engine;
pub mod kernel;
pub mod laws;
pub mod luma;
pub mod palette;
pub mod parse;
pub mod partition;
