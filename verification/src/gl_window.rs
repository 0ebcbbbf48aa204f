//! The GPU context resource: one rendering context and one present-surface,
//! bound 1:1 to one native window.
//!
//! The driver calls themselves (create surface, make current, swap) run on
//! the caller's side; this type tracks their state and decides when a
//! current-binding call is needed at all.

use vstd::prelude::*;
use crate::gl_manager::ContextKind;

verus! {

/// State of one window's rendering context and present-surface.
///
/// The context must be released (made not-current) before the native window
/// it is bound to is destroyed; the bundle owning this value drops it first,
/// so the ordering is structural, never caller-managed.
#[derive(Clone, Copy, PartialEq, Eq, Structural, Debug)]
pub struct GlWindowRenderer {
    /// Identity of the shared display the context was created against.
    pub display_id: u64,
    /// The fallback tier whose context creation succeeded for this window.
    pub context_kind: ContextKind,
    /// Whether this context is the calling thread's current one.
    pub is_current: bool,
    /// Width of the present-surface, in pixels.
    pub surface_width: u32,
    /// Height of the present-surface, in pixels.
    pub surface_height: u32,
}

impl GlWindowRenderer {
    /// The present-surface has the nonzero dimensions surface creation needs.
    pub open spec fn wf(&self) -> bool {
        self.surface_width > 0 && self.surface_height > 0
    }

    /// Bind a fresh context to a native window: the present-surface is created
    /// at the window's current pixel dimensions and the context is made
    /// current against it. The caller has already performed both native calls
    /// and hands in the display identity and the tier that succeeded.
    pub fn new(display_id: u64, context_kind: ContextKind, width: u32, height: u32) -> (r: Self)
        requires
            width > 0,
            height > 0,
        ensures
            r.wf(),
            r.display_id == display_id,
            r.context_kind == context_kind,
            r.is_current,
            r.surface_width == width,
            r.surface_height == height,
    {
        GlWindowRenderer { display_id, context_kind, is_current: true, surface_width: width, surface_height: height }
    }

    /// Make the context current only if it is not already: returns whether a
    /// current-binding driver call is to be performed. A context already
    /// current performs no redundant binding call.
    pub fn make_current_if_needed(&mut self) -> (performed: bool)
        ensures
            final(self).is_current,
            performed == !old(self).is_current,
            final(self).display_id == old(self).display_id,
            final(self).context_kind == old(self).context_kind,
            final(self).surface_width == old(self).surface_width,
            final(self).surface_height == old(self).surface_height,
    {
        let performed = !self.is_current;
        self.is_current = true;
        performed
    }

    /// Release the context from the calling thread, ahead of destroying the
    /// native window it is bound to.
    pub fn make_not_current(&mut self)
        ensures
            !final(self).is_current,
            final(self).display_id == old(self).display_id,
            final(self).context_kind == old(self).context_kind,
            final(self).surface_width == old(self).surface_width,
            final(self).surface_height == old(self).surface_height,
    {
        self.is_current = false;
    }

    /// Resize the present-surface. A zero dimension is a no-op: nothing
    /// changes and no driver call is asked for. Otherwise the context is made
    /// current if needed and the surface takes exactly the new dimensions;
    /// the result says whether a current-binding driver call is to be
    /// performed.
    pub fn resize(&mut self, width: u32, height: u32) -> (performed: bool)
        ensures
            (width == 0 || height == 0) ==> *final(self) == *old(self) && !performed,
            (width > 0 && height > 0) ==> {
                &&& final(self).wf()
                &&& final(self).is_current
                &&& performed == !old(self).is_current
                &&& final(self).display_id == old(self).display_id
                &&& final(self).context_kind == old(self).context_kind
                &&& final(self).surface_width == width
                &&& final(self).surface_height == height
            },
    {
        if width == 0 || height == 0 {
            return false;
        }
        let performed = self.make_current_if_needed();
        self.surface_width = width;
        self.surface_height = height;
        performed
    }
}

} // verus!
