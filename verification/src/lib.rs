//! A verified core for a single-triangle CPU rasterizer.
//!
//! The crate holds the discrete part of a software rasterization pipeline:
//! viewport validation, the row-major pixel buffer, the bounding box clipped
//! to the viewport, and the per-frame coverage scan that visits every pixel
//! of that box exactly once. A shading stage outside the crate decides, for
//! each sample the scan hands out, whether the pixel is covered and which
//! color it takes; the scan writes the answer back and guarantees that every
//! other pixel keeps the buffer's fill value.

pub mod error;
pub mod grid;
pub mod scan;
pub mod viewport;
