use vstd::prelude::*;

verus! {

use crate::error::RasterError;

/// The dimensions of the raster target, in pixels.
///
/// Both dimensions are strictly positive: the projection divides by the
/// width, the height and the aspect ratio, so a zero dimension is rejected
/// at construction instead of letting undefined values reach the pixel
/// buffer. Values of this type can only be built through [`Viewport::new`],
/// so every one of them is well-formed.
#[derive(Clone, Copy, Debug, PartialEq, Eq, Structural)]
pub struct Viewport {
    width: i32,
    height: i32,
}

impl Viewport {
    /// The width, as a mathematical integer.
    pub closed spec fn spec_width(&self) -> int {
        self.width as int
    }

    /// The height, as a mathematical integer.
    pub closed spec fn spec_height(&self) -> int {
        self.height as int
    }

    /// Well-formedness: both dimensions are strictly positive.
    pub open spec fn wf(&self) -> bool {
        0 < self.spec_width() && 0 < self.spec_height()
    }

    /// The number of pixels of the raster target.
    pub open spec fn spec_pixel_count(&self) -> int {
        self.spec_width() * self.spec_height()
    }

    /// Validates the dimensions of a raster target.
    ///
    /// Succeeds exactly when both dimensions are strictly positive; any
    /// other input is reported as an invalid viewport before any pixel work
    /// can begin.
    pub fn new(width: i32, height: i32) -> (r: Result<Viewport, RasterError>)
        ensures
            (r is Ok) <==> (0 < width && 0 < height),
            r matches Ok(vp) ==> vp.wf() && vp.spec_width() == width && vp.spec_height()
                == height,
            r matches Err(e) ==> e == RasterError::InvalidViewport,
    {
        if width > 0 && height > 0 {
            Ok(Viewport { width, height })
        } else {
            Err(RasterError::InvalidViewport)
        }
    }

    /// The width in pixels.
    pub fn width(&self) -> (w: i32)
        ensures
            w as int == self.spec_width(),
    {
        self.width
    }

    /// The height in pixels.
    pub fn height(&self) -> (h: i32)
        ensures
            h as int == self.spec_height(),
    {
        self.height
    }

    /// The number of pixels of the raster target, `width * height`.
    pub fn pixel_count(&self) -> (n: usize)
        requires
            self.wf(),
            self.spec_pixel_count() <= usize::MAX as int,
        ensures
            n as int == self.spec_pixel_count(),
    {
        (self.width as usize) * (self.height as usize)
    }
}

} // verus!
