//! The GPU-mode drawing-surface adapter: a 2D drawing surface rendered
//! through one window's rendering context.
//!
//! The drawing library's own calls (create surface, clear, flush) run on the
//! caller's side; this type tracks the surface's cached dimensions, which the
//! canvas handed to every paint callback must match exactly.

use vstd::prelude::*;
use crate::gl_manager::{ContextKind, GlConfig, GlWindowManagerState};
use crate::gl_window::GlWindowRenderer;
use crate::window::Canvas;

verus! {

/// A GPU-backed 2D drawing surface. Resizing recreates the surface at the new
/// dimensions: there is no resizable surface primitive underneath.
#[derive(Clone, Copy, PartialEq, Eq, Structural, Debug)]
pub struct SkiaGlSurface {
    /// Width of the drawing surface, in pixels.
    pub width: u32,
    /// Height of the drawing surface, in pixels.
    pub height: u32,
    /// Multisample count the surface was created with, from the shared configuration.
    pub num_samples: u8,
    /// Stencil size the surface was created with, from the shared configuration.
    pub stencil_size: u8,
}

impl SkiaGlSurface {
    /// The surface has the nonzero dimensions its creation needs.
    pub open spec fn wf(&self) -> bool {
        self.width > 0 && self.height > 0
    }

    /// The surface a given configuration yields at given dimensions.
    pub open spec fn spec_new(gl_config: GlConfig, width: u32, height: u32) -> SkiaGlSurface {
        SkiaGlSurface {
            width,
            height,
            num_samples: gl_config.num_samples,
            stencil_size: gl_config.stencil_size,
        }
    }

    /// Create a drawing surface over the window's bound framebuffer, taking
    /// sample count and stencil size from the shared configuration.
    pub fn new(gl_config: &GlConfig, width: u32, height: u32) -> (r: Self)
        requires
            width > 0,
            height > 0,
        ensures
            r == Self::spec_new(*gl_config, width, height),
            r.wf(),
    {
        SkiaGlSurface {
            width,
            height,
            num_samples: gl_config.num_samples,
            stencil_size: gl_config.stencil_size,
        }
    }

    /// Discard the surface and recreate it at the new dimensions.
    pub fn resize(&mut self, gl_config: &GlConfig, width: u32, height: u32)
        requires
            width > 0,
            height > 0,
        ensures
            *final(self) == Self::spec_new(*gl_config, width, height),
            final(self).wf(),
    {
        *self = SkiaGlSurface::new(gl_config, width, height);
    }

    /// Start a frame: the surface is cleared to fully transparent and the
    /// paint callback receives a canvas of exactly the cached dimensions.
    pub fn begin_frame(&mut self) -> (c: Canvas)
        ensures
            *final(self) == *old(self),
            c.width == old(self).width,
            c.height == old(self).height,
            c.cleared,
    {
        Canvas::new_frame(self.width, self.height)
    }
}

/// One GPU-backed window's rendering resources: the context resource and the
/// drawing-surface adapter over it.
#[derive(Clone, Copy, PartialEq, Eq, Structural, Debug)]
pub struct SkiaGlRenderer {
    /// The context and present-surface bound to the window.
    pub gl: GlWindowRenderer,
    /// The drawing surface rendered through that context.
    pub skia: SkiaGlSurface,
}

impl SkiaGlRenderer {
    /// Context and drawing surface agree with each other and are well-formed.
    pub open spec fn wf(&self) -> bool {
        &&& self.gl.wf()
        &&& self.skia.wf()
        &&& self.gl.surface_width == self.skia.width
        &&& self.gl.surface_height == self.skia.height
    }

    /// The renderer a fresh GPU window starts with: context current, surfaces
    /// at the window's dimensions, configuration taken from the shared state.
    pub open spec fn spec_new(
        shared: GlWindowManagerState,
        context_kind: ContextKind,
        width: u32,
        height: u32,
    ) -> SkiaGlRenderer {
        SkiaGlRenderer {
            gl: GlWindowRenderer {
                display_id: shared.display_id,
                context_kind,
                is_current: true,
                surface_width: width,
                surface_height: height,
            },
            skia: SkiaGlSurface::spec_new(shared.gl_config, width, height),
        }
    }

    /// Set up rendering for one window against the process's shared GPU
    /// state: bind a context (the caller performed the native creation at the
    /// tier given) and create the drawing surface at the window's dimensions.
    pub fn new(shared: &GlWindowManagerState, context_kind: ContextKind, width: u32, height: u32) -> (r: Self)
        requires
            width > 0,
            height > 0,
        ensures
            r == Self::spec_new(*shared, context_kind, width, height),
            r.wf(),
    {
        let gl = GlWindowRenderer::new(shared.display_id, context_kind, width, height);
        let skia = SkiaGlSurface::new(&shared.gl_config, width, height);
        SkiaGlRenderer { gl, skia }
    }

    /// Resize both surfaces. A zero dimension is a minimize signal: nothing
    /// changes, neither the present-surface nor the adapter's cached
    /// dimensions. Returns whether a current-binding driver call is to be
    /// performed.
    pub fn resize(&mut self, gl_config: &GlConfig, width: u32, height: u32) -> (performed: bool)
        ensures
            (width == 0 || height == 0) ==> *final(self) == *old(self) && !performed,
            (width > 0 && height > 0) ==> {
                &&& performed == !old(self).gl.is_current
                &&& final(self).gl.is_current
                &&& final(self).gl.display_id == old(self).gl.display_id
                &&& final(self).gl.context_kind == old(self).gl.context_kind
                &&& final(self).gl.surface_width == width
                &&& final(self).gl.surface_height == height
                &&& final(self).skia == SkiaGlSurface::spec_new(*gl_config, width, height)
            },
    {
        if width == 0 || height == 0 {
            return false;
        }
        let performed = self.gl.resize(width, height);
        self.skia.resize(gl_config, width, height);
        performed
    }

    /// Start a frame: make the context current if needed, then clear and hand
    /// out a canvas of the adapter's cached dimensions. After the paint
    /// callback, the caller flushes and swaps buffers; a failing swap is
    /// fatal to the window's session.
    pub fn draw(&mut self) -> (r: (bool, Canvas))
        ensures
            r.0 == !old(self).gl.is_current,
            final(self).gl.is_current,
            final(self).gl.display_id == old(self).gl.display_id,
            final(self).gl.context_kind == old(self).gl.context_kind,
            final(self).gl.surface_width == old(self).gl.surface_width,
            final(self).gl.surface_height == old(self).gl.surface_height,
            final(self).skia == old(self).skia,
            r.1.width == old(self).skia.width,
            r.1.height == old(self).skia.height,
            r.1.cleared,
    {
        let performed = self.gl.make_current_if_needed();
        let canvas = self.skia.begin_frame();
        (performed, canvas)
    }
}

} // verus!
