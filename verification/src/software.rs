//! The raster-mode drawing-surface adapter: a CPU raster surface whose pixels
//! a native pixel-buffer presenter copies to the window.
//!
//! The drawing library's raster calls and the presenter's buffer copy run on
//! the caller's side; this type tracks the cached dimensions the canvas
//! handed to every paint callback must match exactly.

use vstd::prelude::*;
use crate::window::Canvas;

verus! {

/// A CPU-raster 2D drawing surface. Resizing recreates the surface at the new
/// dimensions: there is no resizable surface primitive underneath.
#[derive(Clone, Copy, PartialEq, Eq, Structural, Debug)]
pub struct SkiaSoftwareRenderer {
    /// Width of the raster surface, in pixels.
    pub width: u32,
    /// Height of the raster surface, in pixels.
    pub height: u32,
}

impl SkiaSoftwareRenderer {
    /// The surface has the nonzero dimensions its creation needs.
    pub open spec fn wf(&self) -> bool {
        self.width > 0 && self.height > 0
    }

    /// Create a raster surface at the window's pixel dimensions. The caller
    /// has already bound the pixel-buffer presenter to the window.
    pub fn new(width: u32, height: u32) -> (r: Self)
        requires
            width > 0,
            height > 0,
        ensures
            r.width == width,
            r.height == height,
            r.wf(),
    {
        SkiaSoftwareRenderer { width, height }
    }

    /// Discard the surface and recreate it at the new dimensions.
    pub fn resize(&mut self, width: u32, height: u32)
        requires
            width > 0,
            height > 0,
        ensures
            final(self).width == width,
            final(self).height == height,
            final(self).wf(),
    {
        self.width = width;
        self.height = height;
    }

    /// Start a frame: the surface is cleared to fully transparent and the
    /// paint callback receives a canvas of exactly the cached dimensions.
    /// After the paint callback, the caller reads the pixels back and hands
    /// them to the presenter.
    pub fn draw(&mut self) -> (c: Canvas)
        ensures
            *final(self) == *old(self),
            c.width == old(self).width,
            c.height == old(self).height,
            c.cleared,
    {
        Canvas::new_frame(self.width, self.height)
    }
}

} // verus!
