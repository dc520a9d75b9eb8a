use vstd::prelude::*;

verus! {

/// The drawable size that the presentation surface is configured with.
#[derive(Clone, Copy, Debug, PartialEq, Eq, Structural)]
pub struct SurfaceSize {
    pub width: u32,
    pub height: u32,
}

impl SurfaceSize {
    pub fn new(width: u32, height: u32) -> (r: SurfaceSize)
        ensures
            r.width == width,
            r.height == height,
    {
        SurfaceSize { width, height }
    }

    /// Takes a new size from a resize notification. A size of zero area is
    /// ignored; the result says whether the surface must be configured again.
    pub fn resize(&mut self, width: u32, height: u32) -> (changed: bool)
        ensures
            changed == (width > 0 && height > 0),
            *final(self) == if changed {
                SurfaceSize { width, height }
            } else {
                *old(self)
            },
    {
        if width > 0 && height > 0 {
            self.width = width;
            self.height = height;
            true
        } else {
            false
        }
    }
}

} // verus!
