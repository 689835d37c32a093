use vstd::prelude::*;

verus! {

/// Errors reported by the rasterizer core.
///
/// Geometry that merely falls outside the viewport, or a degenerate
/// triangle, is handled locally by the pipeline and is not an error; only an
/// unusable viewport is escalated to the caller.
#[derive(Clone, Copy, Debug, PartialEq, Eq, Structural)]
pub enum RasterError {
    /// The raster target was given a width or height that is not positive.
    /// Such dimensions would be used as divisors during projection.
    InvalidViewport,
}

impl RasterError {
    /// A short human-readable description of the error.
    pub fn message(&self) -> (m: &'static str)
        ensures
            m@ == "invalid viewport dimensions"@,
    {
        match self {
            RasterError::InvalidViewport => "invalid viewport dimensions",
        }
    }
}

} // verus!
