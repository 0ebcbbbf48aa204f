//! The window-manager state machine.
//!
//! The process commits exactly once to a rendering backend — GPU-accelerated
//! or CPU raster — on the first window-creation request, and every window
//! lives in a registry as a resource bundle of the committed variant. The
//! native calls (building windows, creating contexts and surfaces, presenting)
//! run on the caller's side; their outcomes come in as plain values and the
//! actions these functions decide on go back out the same way.

use vstd::prelude::*;
use crate::gl_manager::{ContextKind, GlConfig, GlWindowManagerState, ProbeError};
use crate::gl_skia::SkiaGlRenderer;
use crate::software::SkiaSoftwareRenderer;
use crate::window::{ControlFlow, ElementState, MouseButton, MouseScrollDelta, TouchPhase, Window, WindowCx, WindowEvent};

verus! {

/// The process-wide, set-once backend choice. It transitions away from
/// `Uninitialized` exactly once, on the first window-creation request, and
/// never transitions back.
#[derive(Clone, Copy, PartialEq, Eq, Structural, Debug)]
pub enum Commitment {
    /// No window has ever been requested; no backend is chosen yet.
    Uninitialized,
    /// The process renders every window through the CPU-raster path.
    Software,
    /// The process renders every window through the GPU path, sharing the
    /// probed display and configuration.
    Gpu(GlWindowManagerState),
}

/// What the one-time backend probe produced.
#[derive(Clone, Copy, PartialEq, Eq, Structural, Debug)]
pub enum ProbeOutcome {
    /// A display, a configuration, and the first window's context and surface
    /// were all established; `first_context` is the fallback tier that
    /// succeeded for the first window.
    Gpu { shared: GlWindowManagerState, first_context: ContextKind },
    /// The GPU path is unusable; the process falls back to software. Any
    /// native window built eagerly during probing is reused by the caller.
    Failed(ProbeError),
}

/// The native resources the caller provisioned for one window-creation
/// request, matching the backend the process is committed to.
#[derive(Clone, Copy, PartialEq, Eq, Structural, Debug)]
pub enum BackendResources {
    /// First request ever: the outcome of the one-time backend probe.
    Probe(ProbeOutcome),
    /// Committed to the GPU backend: a context was created for this window
    /// against the shared display, at the given fallback tier.
    Gl(ContextKind),
    /// Committed to the software backend: a pixel-buffer presenter was bound
    /// to this window.
    Software,
}

/// The rendering resources backing one window, of the committed variant.
#[derive(Clone, Copy, PartialEq, Eq, Structural, Debug)]
pub enum WindowBundle {
    /// GPU variant: a context and present-surface bound to the window, and a
    /// GPU-backed drawing surface rendered through them.
    Gl(SkiaGlRenderer),
    /// Software variant: a raster drawing surface whose pixels the window's
    /// presenter copies out.
    Software(SkiaSoftwareRenderer),
}

/// What the registry records of one live window: its resource bundle and its
/// visibility.
#[derive(Clone, Copy, PartialEq, Eq, Structural, Debug)]
pub struct WindowRecord {
    /// Whether the window has been made visible (it is, from creation on).
    pub visible: bool,
    /// The rendering resources backing the window.
    pub bundle: WindowBundle,
}

/// One registry entry: a window identifier, its record, and the
/// application-supplied handler that owns the window's behaviour.
pub struct WindowEntry<H> {
    /// The window's identifier, unique among live windows and never reused.
    pub id: u64,
    /// Whether the window has been made visible.
    pub visible: bool,
    /// The rendering resources backing the window.
    pub bundle: WindowBundle,
    /// The application-supplied behaviour bound to the window.
    pub handler: H,
}

impl<H> WindowEntry<H> {
    /// The handler-free part of the entry, as the registry map records it.
    pub open spec fn record(&self) -> WindowRecord {
        WindowRecord { visible: self.visible, bundle: self.bundle }
    }
}

/// What the caller is told after a frame was prepared: whether a
/// current-binding driver call is to be performed, and the exact dimensions
/// of the canvas the paint callback received.
#[derive(Clone, Copy, PartialEq, Eq, Structural, Debug)]
pub struct DrawReport {
    /// Whether the window's context was not current and a binding call is
    /// to be performed. Always false for a software-backed window.
    pub bound_context: bool,
    /// Width of the canvas, in pixels.
    pub width: u32,
    /// Height of the canvas, in pixels.
    pub height: u32,
}

/// Width of the drawing surface a bundle holds.
pub open spec fn bundle_width(b: WindowBundle) -> u32 {
    match b {
        WindowBundle::Gl(r) => r.skia.width,
        WindowBundle::Software(r) => r.width,
    }
}

/// Height of the drawing surface a bundle holds.
pub open spec fn bundle_height(b: WindowBundle) -> u32 {
    match b {
        WindowBundle::Gl(r) => r.skia.height,
        WindowBundle::Software(r) => r.height,
    }
}

/// Whether a bundle's rendering context is the thread's current one. A
/// software bundle has no context and is never current.
pub open spec fn bundle_is_current(b: WindowBundle) -> bool {
    match b {
        WindowBundle::Gl(r) => r.gl.is_current,
        WindowBundle::Software(_) => false,
    }
}

/// The record of a freshly created GPU-backed window: context current,
/// surfaces at the window's dimensions, configuration from the shared state.
pub open spec fn gl_record(
    shared: GlWindowManagerState,
    context_kind: ContextKind,
    width: u32,
    height: u32,
) -> WindowRecord {
    WindowRecord {
        visible: true,
        bundle: WindowBundle::Gl(SkiaGlRenderer::spec_new(shared, context_kind, width, height)),
    }
}

/// The record of a freshly created software-backed window.
pub open spec fn software_record(width: u32, height: u32) -> WindowRecord {
    WindowRecord {
        visible: true,
        bundle: WindowBundle::Software(SkiaSoftwareRenderer { width, height }),
    }
}

/// The same record with its context, if any, no longer current: what a record
/// becomes when another window's context takes over the thread.
pub open spec fn uncurrent_record(r: WindowRecord) -> WindowRecord {
    match r.bundle {
        WindowBundle::Gl(sk) => WindowRecord {
            visible: r.visible,
            bundle: WindowBundle::Gl(SkiaGlRenderer {
                gl: crate::gl_window::GlWindowRenderer {
                    display_id: sk.gl.display_id,
                    context_kind: sk.gl.context_kind,
                    is_current: false,
                    surface_width: sk.gl.surface_width,
                    surface_height: sk.gl.surface_height,
                },
                skia: sk.skia,
            }),
        },
        WindowBundle::Software(_) => r,
    }
}

/// The same record with its context, if any, made current: what a record
/// becomes when its window is drawn.
pub open spec fn drawn_record(r: WindowRecord) -> WindowRecord {
    match r.bundle {
        WindowBundle::Gl(sk) => WindowRecord {
            visible: r.visible,
            bundle: WindowBundle::Gl(SkiaGlRenderer {
                gl: crate::gl_window::GlWindowRenderer {
                    display_id: sk.gl.display_id,
                    context_kind: sk.gl.context_kind,
                    is_current: true,
                    surface_width: sk.gl.surface_width,
                    surface_height: sk.gl.surface_height,
                },
                skia: sk.skia,
            }),
        },
        WindowBundle::Software(_) => r,
    }
}

/// The record after a resize to nonzero dimensions: both surfaces recreated
/// at the new dimensions (from `gl_config` for the GPU variant), the context
/// made current by the resize.
pub open spec fn resized_record(r: WindowRecord, gl_config: GlConfig, width: u32, height: u32) -> WindowRecord {
    match r.bundle {
        WindowBundle::Gl(sk) => WindowRecord {
            visible: r.visible,
            bundle: WindowBundle::Gl(SkiaGlRenderer {
                gl: crate::gl_window::GlWindowRenderer {
                    display_id: sk.gl.display_id,
                    context_kind: sk.gl.context_kind,
                    is_current: true,
                    surface_width: width,
                    surface_height: height,
                },
                skia: crate::gl_skia::SkiaGlSurface::spec_new(gl_config, width, height),
            }),
        },
        WindowBundle::Software(_) => WindowRecord {
            visible: r.visible,
            bundle: WindowBundle::Software(SkiaSoftwareRenderer { width, height }),
        },
    }
}

/// Every record of the map with its context, if any, no longer current.
pub open spec fn uncurrent_all(m: Map<u64, WindowRecord>) -> Map<u64, WindowRecord> {
    Map::new(|id: u64| m.dom().contains(id), |id: u64| uncurrent_record(m[id]))
}

/// The registry map a sequence of entries denotes: each identifier mapped to
/// its record, later entries taking precedence (identifiers are distinct in a
/// well-formed registry, so precedence never matters).
pub open spec fn entries_map<H>(s: Seq<WindowEntry<H>>) -> Map<u64, WindowRecord>
    decreases s.len(),
{
    if s.len() == 0 {
        Map::empty()
    } else {
        entries_map(s.drop_last()).insert(s.last().id, s.last().record())
    }
}

/// Whether some entry of the sequence carries the identifier.
pub open spec fn seq_contains_id<H>(s: Seq<WindowEntry<H>>, id: u64) -> bool {
    exists|i: int| 0 <= i < s.len() && s[i].id == id
}

/// Whether the entries carry pairwise distinct identifiers.
pub open spec fn ids_distinct<H>(s: Seq<WindowEntry<H>>) -> bool {
    forall|i: int, j: int| 0 <= i < j < s.len() ==> s[i].id != s[j].id
}

/// The denoted map's domain is exactly the set of identifiers the entries
/// carry, and it is finite.
pub proof fn lemma_entries_map_dom<H>(s: Seq<WindowEntry<H>>)
    ensures
        entries_map(s).dom() =~= Set::new(|id: u64| seq_contains_id(s, id)),
        entries_map(s).dom().finite(),
    decreases s.len(),
{
    if s.len() == 0 {
        assert(entries_map(s).dom() =~= Set::new(|id: u64| seq_contains_id(s, id)));
    } else {
        lemma_entries_map_dom(s.drop_last());
        assert forall|id: u64| seq_contains_id(s, id) implies
            seq_contains_id(s.drop_last(), id) || id == s.last().id by {
            let i = choose|i: int| 0 <= i < s.len() && s[i].id == id;
            if i < s.len() - 1 {
                assert(s.drop_last()[i].id == id);
            }
        }
        assert forall|id: u64| seq_contains_id(s.drop_last(), id) implies seq_contains_id(s, id) by {
            let i = choose|i: int| 0 <= i < s.drop_last().len() && s.drop_last()[i].id == id;
            assert(s[i].id == id);
        }
        assert(seq_contains_id(s, s.last().id)) by {
            assert(s[s.len() - 1].id == s.last().id);
        }
        assert(entries_map(s).dom() =~= Set::new(|id: u64| seq_contains_id(s, id)));
    }
}

/// With distinct identifiers, each entry's identifier maps to that entry's
/// record.
pub proof fn lemma_entries_map_index<H>(s: Seq<WindowEntry<H>>, i: int)
    requires
        ids_distinct(s),
        0 <= i < s.len(),
    ensures
        entries_map(s).dom().contains(s[i].id),
        entries_map(s)[s[i].id] == s[i].record(),
    decreases s.len(),
{
    if i == s.len() - 1 {
    } else {
        assert(ids_distinct(s.drop_last()));
        assert(s.drop_last()[i] == s[i]);
        lemma_entries_map_index(s.drop_last(), i);
        assert(s[i].id != s.last().id);
    }
}

/// With distinct identifiers, the denoted map has exactly one key per entry.
pub proof fn lemma_entries_map_len<H>(s: Seq<WindowEntry<H>>)
    requires
        ids_distinct(s),
    ensures
        entries_map(s).dom().finite(),
        entries_map(s).dom().len() == s.len(),
    decreases s.len(),
{
    broadcast use vstd::set::group_set_axioms;

    lemma_entries_map_dom(s);
    if s.len() == 0 {
    } else {
        assert(ids_distinct(s.drop_last()));
        lemma_entries_map_len(s.drop_last());
        assert(!entries_map(s.drop_last()).dom().contains(s.last().id)) by {
            lemma_entries_map_dom(s.drop_last());
            if seq_contains_id(s.drop_last(), s.last().id) {
                let i = choose|i: int| 0 <= i < s.drop_last().len() && s.drop_last()[i].id == s.last().id;
                assert(s[i].id == s[s.len() - 1].id);
            }
        }
    }
}

/// With distinct identifiers, removing the entry at one index removes exactly
/// its identifier from the denoted map.
pub proof fn lemma_entries_map_remove<H>(s: Seq<WindowEntry<H>>, i: int)
    requires
        ids_distinct(s),
        0 <= i < s.len(),
    ensures
        entries_map(s.remove(i)) =~= entries_map(s).remove(s[i].id),
        ids_distinct(s.remove(i)),
    decreases s.len(),
{
    assert(ids_distinct(s.remove(i))) by {
        assert forall|x: int, y: int| 0 <= x < y < s.remove(i).len() implies
            s.remove(i)[x].id != s.remove(i)[y].id by {
            assert(s.remove(i)[x] == if x < i { s[x] } else { s[x + 1] });
            assert(s.remove(i)[y] == if y < i { s[y] } else { s[y + 1] });
        }
    }
    if i == s.len() - 1 {
        assert(s.remove(i) =~= s.drop_last());
        assert(!entries_map(s.drop_last()).dom().contains(s.last().id)) by {
            lemma_entries_map_dom(s.drop_last());
            if seq_contains_id(s.drop_last(), s.last().id) {
                let k = choose|k: int| 0 <= k < s.drop_last().len() && s.drop_last()[k].id == s.last().id;
                assert(s[k].id == s[s.len() - 1].id);
            }
        }
        assert(entries_map(s.remove(i)) =~= entries_map(s).remove(s[i].id));
    } else {
        assert(ids_distinct(s.drop_last()));
        assert(s.drop_last()[i] == s[i]);
        lemma_entries_map_remove(s.drop_last(), i);
        assert(s.remove(i).drop_last() =~= s.drop_last().remove(i));
        assert(s.remove(i).last() == s.last());
        assert(s[i].id != s.last().id);
        assert(entries_map(s.remove(i)) =~= entries_map(s).remove(s[i].id));
    }
}

/// With distinct identifiers, replacing the entry at one index by one with
/// the same identifier updates exactly that identifier's record.
pub proof fn lemma_entries_map_update<H>(s: Seq<WindowEntry<H>>, i: int, e: WindowEntry<H>)
    requires
        ids_distinct(s),
        0 <= i < s.len(),
        e.id == s[i].id,
    ensures
        entries_map(s.update(i, e)) =~= entries_map(s).insert(e.id, e.record()),
        ids_distinct(s.update(i, e)),
    decreases s.len(),
{
    assert(ids_distinct(s.update(i, e))) by {
        assert forall|x: int, y: int| 0 <= x < y < s.update(i, e).len() implies
            s.update(i, e)[x].id != s.update(i, e)[y].id by {
            assert(s.update(i, e)[x].id == s[x].id);
            assert(s.update(i, e)[y].id == s[y].id);
        }
    }
    if i == s.len() - 1 {
        assert(s.update(i, e).drop_last() =~= s.drop_last());
        assert(entries_map(s.update(i, e)) =~= entries_map(s).insert(e.id, e.record()));
    } else {
        assert(ids_distinct(s.drop_last()));
        assert(s.drop_last()[i] == s[i]);
        lemma_entries_map_update(s.drop_last(), i, e);
        assert(s.update(i, e).drop_last() =~= s.drop_last().update(i, e));
        assert(s.update(i, e).last() == s.last());
        assert(s[i].id != s.last().id);
        assert(entries_map(s.update(i, e)) =~= entries_map(s).insert(e.id, e.record()));
    }
}

/// Two entry sequences with pointwise equal identifiers and records denote
/// the same map.
pub proof fn lemma_entries_map_pointwise<G, H>(s1: Seq<WindowEntry<G>>, s2: Seq<WindowEntry<H>>)
    requires
        s1.len() == s2.len(),
        forall|j: int| 0 <= j < s1.len() ==> s1[j].id == s2[j].id && s1[j].record() == s2[j].record(),
    ensures
        entries_map(s1) == entries_map(s2),
    decreases s1.len(),
{
    if s1.len() == 0 {
    } else {
        assert(forall|j: int| 0 <= j < s1.drop_last().len() ==>
            s1.drop_last()[j].id == s2.drop_last()[j].id
            && s1.drop_last()[j].record() == s2.drop_last()[j].record());
        lemma_entries_map_pointwise(s1.drop_last(), s2.drop_last());
        assert(s1[s1.len() - 1].id == s2[s2.len() - 1].id);
        assert(s1[s1.len() - 1].record() == s2[s2.len() - 1].record());
    }
}

/// A sequence whose records are pointwise the uncurrent form of another's
/// denotes the uncurrent form of the other's map.
pub proof fn lemma_entries_map_uncurrent<G, H>(s1: Seq<WindowEntry<G>>, s2: Seq<WindowEntry<H>>)
    requires
        s1.len() == s2.len(),
        forall|j: int| 0 <= j < s1.len() ==> s1[j].id == s2[j].id
            && s2[j].record() == uncurrent_record(s1[j].record()),
    ensures
        entries_map(s2) =~= uncurrent_all(entries_map(s1)),
    decreases s1.len(),
{
    lemma_entries_map_dom(s1);
    lemma_entries_map_dom(s2);
    if s1.len() == 0 {
    } else {
        assert(forall|j: int| 0 <= j < s1.drop_last().len() ==>
            s1.drop_last()[j].id == s2.drop_last()[j].id
            && s2.drop_last()[j].record() == uncurrent_record(s1.drop_last()[j].record()));
        lemma_entries_map_uncurrent(s1.drop_last(), s2.drop_last());
        lemma_entries_map_dom(s1.drop_last());
        assert(s1[s1.len() - 1].id == s2[s2.len() - 1].id);
        assert(s2[s2.len() - 1].record() == uncurrent_record(s1[s1.len() - 1].record()));
        assert(entries_map(s2) =~= uncurrent_all(entries_map(s1)));
    }
}

} // verus!

verus! {

/// The window manager: the backend commitment, the registry of live windows,
/// and the next identifier to hand out.
///
/// Identifiers are never reused: every identifier ever returned is below
/// `id_bound()`, and `create_window` always returns `id_bound()` itself.
pub struct WindowManager<H: Window> {
    state: Commitment,
    windows: Vec<WindowEntry<H>>,
    next_id: u64,
}

impl<H: Window> WindowManager<H> {
    /// The process-wide backend commitment.
    pub closed spec fn commitment(&self) -> Commitment {
        self.state
    }

    /// The registry: each live window's identifier mapped to its record.
    pub closed spec fn windows_map(&self) -> Map<u64, WindowRecord> {
        entries_map(self.windows@)
    }

    /// A strict upper bound on every identifier ever handed out.
    pub closed spec fn id_bound(&self) -> u64 {
        self.next_id
    }

    /// One registry entry is consistent with the commitment: its bundle is of
    /// the committed variant (borrowing the shared display when GPU-backed),
    /// its surfaces are well-formed, and the window is visible.
    spec fn entry_ok(state: Commitment, e: WindowEntry<H>) -> bool {
        &&& e.visible
        &&& match e.bundle {
            WindowBundle::Gl(r) => {
                &&& r.wf()
                &&& state matches Commitment::Gpu(shared) && r.gl.display_id == shared.display_id
            },
            WindowBundle::Software(r) => r.wf() && state is Software,
        }
    }

    /// The manager's invariant: identifiers are distinct and below the bound,
    /// no window exists while uncommitted, every bundle is of the committed
    /// variant, and at most one context is current on the thread.
    pub closed spec fn wf(&self) -> bool {
        &&& ids_distinct(self.windows@)
        &&& forall|i: int| 0 <= i < self.windows@.len() ==> (#[trigger] self.windows@[i]).id < self.next_id
        &&& self.state is Uninitialized ==> self.windows@.len() == 0
        &&& forall|i: int| 0 <= i < self.windows@.len() ==> Self::entry_ok(self.state, #[trigger] self.windows@[i])
        &&& forall|i: int, j: int| 0 <= i < j < self.windows@.len() ==>
            !(bundle_is_current((#[trigger] self.windows@[i]).bundle)
                && bundle_is_current((#[trigger] self.windows@[j]).bundle))
    }

    /// A fresh manager: no commitment, no windows, identifiers from zero.
    pub fn new() -> (m: Self)
        ensures
            m.wf(),
            m.commitment() is Uninitialized,
            m.windows_map() == Map::<u64, WindowRecord>::empty(),
            m.id_bound() == 0,
    {
        WindowManager { state: Commitment::Uninitialized, windows: Vec::new(), next_id: 0 }
    }

    /// Index of the entry carrying `id`, if the registry holds it.
    fn find_index(&self, id: u64) -> (r: Option<usize>)
        requires
            self.wf(),
        ensures
            r matches Some(i) ==> i < self.windows@.len() && self.windows@[i as int].id == id
                && self.windows_map().dom().contains(id)
                && self.windows_map()[id] == self.windows@[i as int].record(),
            r is None ==> !self.windows_map().dom().contains(id),
    {
        let mut i: usize = 0;
        while i < self.windows.len()
            invariant
                self.wf(),
                i <= self.windows@.len(),
                forall|k: int| 0 <= k < i ==> (#[trigger] self.windows@[k]).id != id,
            decreases self.windows@.len() - i,
        {
            if self.windows[i].id == id {
                proof {
                    lemma_entries_map_index(self.windows@, i as int);
                }
                return Some(i);
            }
            i = i + 1;
        }
        proof {
            lemma_entries_map_dom(self.windows@);
            if seq_contains_id(self.windows@, id) {
                let k = choose|k: int| 0 <= k < self.windows@.len() && self.windows@[k].id == id;
                assert(self.windows@[k].id != id);
            }
        }
        None
    }

    /// Whether the registry holds a window with this identifier.
    pub fn has_window(&self, id: u64) -> (r: bool)
        requires
            self.wf(),
        ensures
            r == self.windows_map().dom().contains(id),
    {
        self.find_index(id).is_some()
    }

    /// Release every context from the thread, ahead of another context taking
    /// over.
    fn clear_current(&mut self)
        requires
            old(self).wf(),
        ensures
            final(self).wf(),
            final(self).commitment() == old(self).commitment(),
            final(self).id_bound() == old(self).id_bound(),
            final(self).windows_map() == uncurrent_all(old(self).windows_map()),
            final(self).windows@.len() == old(self).windows@.len(),
            forall|j: int| 0 <= j < old(self).windows@.len() ==>
                (#[trigger] final(self).windows@[j]).id == old(self).windows@[j].id
                && final(self).windows@[j].record() == uncurrent_record(old(self).windows@[j].record()),
    {
        let ghost s0 = self.windows@;
        let mut i: usize = 0;
        while i < self.windows.len()
            invariant
                old(self).wf(),
                self.state == old(self).state,
                self.next_id == old(self).next_id,
                i <= self.windows@.len(),
                self.windows@.len() == s0.len(),
                forall|j: int| 0 <= j < s0.len() ==> (#[trigger] self.windows@[j]).id == s0[j].id,
                forall|j: int| 0 <= j < i ==>
                    (#[trigger] self.windows@[j]).record() == uncurrent_record(s0[j].record()),
                forall|j: int| i <= j < s0.len() ==> #[trigger] self.windows@[j] == s0[j],
                s0 == old(self).windows@,
            decreases self.windows@.len() - i,
        {
            let ghost s_before = self.windows@;
            let mut e = self.windows.remove(i);
            match &mut e.bundle {
                WindowBundle::Gl(r) => {
                    r.gl.make_not_current();
                },
                WindowBundle::Software(_) => {},
            }
            self.windows.insert(i, e);
            proof {
                assert(self.windows@ =~= s_before.update(i as int, self.windows@[i as int]));
                assert(self.windows@[i as int].record() == uncurrent_record(s0[i as int].record()));
            }
            i = i + 1;
        }
        proof {
            lemma_entries_map_uncurrent(s0, self.windows@);
            assert forall|j: int| 0 <= j < self.windows@.len() implies
                Self::entry_ok(self.state, #[trigger] self.windows@[j]) by {
                assert(Self::entry_ok(old(self).state, s0[j]));
                assert(self.windows@[j].record() == uncurrent_record(s0[j].record()));
            }
            assert(ids_distinct(self.windows@)) by {
                assert forall|x: int, y: int| 0 <= x < y < self.windows@.len() implies
                    self.windows@[x].id != self.windows@[y].id by {
                    assert(s0[x].id != s0[y].id);
                }
            }
        }
    }
}

} // verus!

verus! {

/// The configuration a committed-GPU process shares; immaterial for any other
/// commitment.
pub open spec fn commitment_config(c: Commitment) -> GlConfig {
    match c {
        Commitment::Gpu(s) => s.gl_config,
        _ => GlConfig { num_samples: 0, stencil_size: 0, supports_transparency: false },
    }
}

impl<H: Window> WindowManager<H> {
    /// Create a window and insert it into the registry.
    ///
    /// On the first request ever the process commits to a backend from the
    /// probe's outcome — GPU if the probe succeeded, software if it failed —
    /// and never re-probes: on every later request the caller provisions
    /// resources of the committed variant (`BackendResources` must match the
    /// commitment, so a probe outcome is consumed exactly once per process).
    ///
    /// The handler sees `open`, then `resize` to the actual dimensions, and
    /// the window is visible from here on. The returned identifier is fresh:
    /// it was never handed out before and never will be again.
    pub fn create_window(&mut self, width: u32, height: u32, resources: BackendResources, handler: H) -> (id: u64)
        requires
            old(self).wf(),
            width > 0,
            height > 0,
            old(self).id_bound() < u64::MAX,
            old(self).commitment() is Uninitialized <==> resources is Probe,
            old(self).commitment() is Gpu ==> resources is Gl,
            old(self).commitment() is Software ==> resources is Software,
        ensures
            final(self).wf(),
            id == old(self).id_bound(),
            final(self).id_bound() == old(self).id_bound() + 1,
            !old(self).windows_map().dom().contains(id),
            final(self).windows_map().dom().contains(id),
            !(final(self).commitment() is Uninitialized),
            !(old(self).commitment() is Uninitialized) ==> final(self).commitment() == old(self).commitment(),
            match resources {
                BackendResources::Probe(outcome) => match outcome {
                    ProbeOutcome::Gpu { shared, first_context } => {
                        &&& final(self).commitment() == Commitment::Gpu(shared)
                        &&& final(self).windows_map() == Map::<u64, WindowRecord>::empty()
                            .insert(id, gl_record(shared, first_context, width, height))
                    },
                    ProbeOutcome::Failed(_) => {
                        &&& final(self).commitment() is Software
                        &&& final(self).windows_map() == Map::<u64, WindowRecord>::empty()
                            .insert(id, software_record(width, height))
                    },
                },
                BackendResources::Gl(kind) => {
                    old(self).commitment() matches Commitment::Gpu(shared) ==>
                        final(self).windows_map() == uncurrent_all(old(self).windows_map())
                            .insert(id, gl_record(shared, kind, width, height))
                },
                BackendResources::Software => final(self).windows_map()
                    == old(self).windows_map().insert(id, software_record(width, height)),
            },
    {
        let id = self.next_id;
        self.next_id = self.next_id + 1;
        proof {
            // The identifier is fresh: every live identifier sits below it.
            lemma_entries_map_dom(self.windows@);
            if seq_contains_id(self.windows@, id) {
                let k = choose|k: int| 0 <= k < self.windows@.len() && self.windows@[k].id == id;
                assert(old(self).windows@[k].id < old(self).id_bound());
            }
        }
        let bundle: WindowBundle = match resources {
            BackendResources::Probe(outcome) => match outcome {
                ProbeOutcome::Gpu { shared, first_context } => {
                    self.state = Commitment::Gpu(shared);
                    WindowBundle::Gl(SkiaGlRenderer::new(&shared, first_context, width, height))
                },
                ProbeOutcome::Failed(_) => {
                    self.state = Commitment::Software;
                    WindowBundle::Software(SkiaSoftwareRenderer::new(width, height))
                },
            },
            BackendResources::Gl(kind) => {
                let shared = match &self.state {
                    Commitment::Gpu(s) => *s,
                    _ => GlWindowManagerState {
                        display_id: 0,
                        gl_config: GlConfig { num_samples: 0, stencil_size: 0, supports_transparency: false },
                    },
                };
                // The fresh context becomes current; release every other one.
                self.clear_current();
                WindowBundle::Gl(SkiaGlRenderer::new(&shared, kind, width, height))
            },
            BackendResources::Software => WindowBundle::Software(SkiaSoftwareRenderer::new(width, height)),
        };
        let ghost s_mid = self.windows@;
        let cx = WindowCx { id, width, height };
        let mut handler = handler;
        handler.open(&cx);
        handler.resize(width, height, &cx);
        let entry = WindowEntry { id, visible: true, bundle, handler };
        self.windows.push(entry);
        proof {
            assert(self.windows@.drop_last() =~= s_mid);
            assert(ids_distinct(self.windows@)) by {
                assert forall|x: int, y: int| 0 <= x < y < self.windows@.len() implies
                    self.windows@[x].id != self.windows@[y].id by {
                    if y == self.windows@.len() - 1 {
                        assert(s_mid[x].id < id);
                    } else {
                        assert(s_mid[x].id != s_mid[y].id);
                    }
                }
            }
            assert forall|j: int| 0 <= j < self.windows@.len() implies
                Self::entry_ok(self.state, #[trigger] self.windows@[j]) by {
                if j < self.windows@.len() - 1 {
                    assert(self.windows@[j] == s_mid[j]);
                    assert(Self::entry_ok(old(self).state, old(self).windows@[j])
                        || self.windows@[j].record() == uncurrent_record(old(self).windows@[j].record()));
                }
            }
            assert forall|x: int, y: int| 0 <= x < y < self.windows@.len() implies
                !(bundle_is_current(self.windows@[x].bundle)
                    && bundle_is_current(self.windows@[y].bundle)) by {
                if y < self.windows@.len() - 1 {
                    assert(self.windows@[x] == s_mid[x]);
                    assert(self.windows@[y] == s_mid[y]);
                }
            }
        }
        id
    }

    /// Resize a window. A zero dimension is a minimize signal: the call is
    /// ignored entirely — no surface is touched, the handler is not told, no
    /// redraw is requested. Otherwise both the present-surface and the
    /// drawing surface take exactly the new dimensions, the handler is told,
    /// and the caller is asked to request a redraw.
    pub fn resize(&mut self, id: u64, width: u32, height: u32) -> (redraw: bool)
        requires
            old(self).wf(),
            !(old(self).commitment() is Uninitialized),
            old(self).windows_map().dom().contains(id),
        ensures
            final(self).wf(),
            final(self).commitment() == old(self).commitment(),
            final(self).id_bound() == old(self).id_bound(),
            redraw == (width > 0 && height > 0),
            (width == 0 || height == 0) ==> *final(self) == *old(self),
            (width > 0 && height > 0) ==> final(self).windows_map()
                == uncurrent_all(old(self).windows_map()).insert(
                    id,
                    resized_record(
                        old(self).windows_map()[id],
                        commitment_config(old(self).commitment()),
                        width,
                        height,
                    ),
                ),
    {
        if width == 0 || height == 0 {
            return false;
        }
        let cfg = match &self.state {
            Commitment::Gpu(s) => s.gl_config,
            _ => GlConfig { num_samples: 0, stencil_size: 0, supports_transparency: false },
        };
        let ghost orig_record = old(self).windows_map()[id];
        self.clear_current();
        let i = match self.find_index(id) {
            Some(i) => i,
            None => {
                proof {
                    assert(false);
                }
                0
            },
        };
        let ghost s_mid = self.windows@;
        let mut e = self.windows.remove(i);
        match &mut e.bundle {
            WindowBundle::Gl(r) => {
                let _performed = r.resize(&cfg, width, height);
            },
            WindowBundle::Software(r) => {
                r.resize(width, height);
            },
        }
        let cx = WindowCx { id, width, height };
        e.handler.resize(width, height, &cx);
        self.windows.insert(i, e);
        proof {
            assert(self.windows@ =~= s_mid.update(i as int, self.windows@[i as int]));
            lemma_entries_map_update(s_mid, i as int, self.windows@[i as int]);
            assert(s_mid[i as int].record() == uncurrent_record(orig_record));
            assert(self.windows@[i as int].record() == resized_record(orig_record, cfg, width, height));
            assert forall|j: int| 0 <= j < self.windows@.len() implies
                Self::entry_ok(self.state, #[trigger] self.windows@[j]) by {
                if j != i {
                    assert(self.windows@[j] == s_mid[j]);
                }
            }
            assert forall|x: int, y: int| 0 <= x < y < self.windows@.len() implies
                !(bundle_is_current(self.windows@[x].bundle)
                    && bundle_is_current(self.windows@[y].bundle)) by {
                if x != i {
                    assert(self.windows@[x] == s_mid[x]);
                    assert(s_mid[x].record() == uncurrent_record(old(self).windows@[x].record()));
                }
                if y != i {
                    assert(self.windows@[y] == s_mid[y]);
                    assert(s_mid[y].record() == uncurrent_record(old(self).windows@[y].record()));
                }
            }
        }
        true
    }
}

} // verus!

verus! {

impl<H: Window> WindowManager<H> {
    /// Index of the entry carrying `id`, which the registry is known to hold.
    fn unwrap_index(&self, id: u64) -> (i: usize)
        requires
            self.wf(),
            self.windows_map().dom().contains(id),
        ensures
            i < self.windows@.len(),
            self.windows@[i as int].id == id,
            self.windows@[i as int].record() == self.windows_map()[id],
    {
        match self.find_index(id) {
            Some(i) => i,
            None => {
                proof {
                    assert(false);
                }
                0
            },
        }
    }

    /// Draw one frame of a window: make its context current if it is not
    /// already (a context already current performs no redundant binding
    /// call), then clear the surface to transparent and invoke the handler's
    /// paint callback with a canvas of exactly the surface's cached
    /// dimensions. The caller then finalizes the frame natively — flush and
    /// buffer swap for a GPU window, pixel read-back and present for a
    /// software one; a failing present is fatal to that window's session.
    pub fn draw(&mut self, id: u64) -> (report: DrawReport)
        requires
            old(self).wf(),
            !(old(self).commitment() is Uninitialized),
            old(self).windows_map().dom().contains(id),
        ensures
            final(self).wf(),
            final(self).commitment() == old(self).commitment(),
            final(self).id_bound() == old(self).id_bound(),
            report.width == bundle_width(old(self).windows_map()[id].bundle),
            report.height == bundle_height(old(self).windows_map()[id].bundle),
            report.bound_context == (old(self).windows_map()[id].bundle is Gl
                && !bundle_is_current(old(self).windows_map()[id].bundle)),
            final(self).windows_map() == uncurrent_all(old(self).windows_map())
                .insert(id, drawn_record(old(self).windows_map()[id])),
    {
        let ghost orig_record = old(self).windows_map()[id];
        let i0 = self.unwrap_index(id);
        let (is_gl, was_current) = match &self.windows[i0].bundle {
            WindowBundle::Gl(r) => (true, r.gl.is_current),
            WindowBundle::Software(_) => (false, false),
        };
        self.clear_current();
        let i = self.unwrap_index(id);
        let ghost s_mid = self.windows@;
        let mut e = self.windows.remove(i);
        let mut canvas = match &mut e.bundle {
            WindowBundle::Gl(r) => {
                let (_performed, canvas) = r.draw();
                canvas
            },
            WindowBundle::Software(r) => r.draw(),
        };
        let report = DrawReport {
            bound_context: is_gl && !was_current,
            width: canvas.width,
            height: canvas.height,
        };
        let cx = WindowCx { id, width: canvas.width, height: canvas.height };
        e.handler.draw(&mut canvas, &cx);
        self.windows.insert(i, e);
        proof {
            assert(self.windows@ =~= s_mid.update(i as int, self.windows@[i as int]));
            lemma_entries_map_update(s_mid, i as int, self.windows@[i as int]);
            assert(s_mid[i as int].record() == uncurrent_record(orig_record));
            assert(self.windows@[i as int].record() == drawn_record(orig_record));
            assert forall|j: int| 0 <= j < self.windows@.len() implies
                Self::entry_ok(self.state, #[trigger] self.windows@[j]) by {
                if j != i {
                    assert(self.windows@[j] == s_mid[j]);
                }
            }
            assert forall|x: int, y: int| 0 <= x < y < self.windows@.len() implies
                !(bundle_is_current(self.windows@[x].bundle)
                    && bundle_is_current(self.windows@[y].bundle)) by {
                if x != i {
                    assert(self.windows@[x] == s_mid[x]);
                    assert(s_mid[x].record() == uncurrent_record(old(self).windows@[x].record()));
                }
                if y != i {
                    assert(self.windows@[y] == s_mid[y]);
                    assert(s_mid[y].record() == uncurrent_record(old(self).windows@[y].record()));
                }
            }
        }
        report
    }

    /// Remove a window from the registry, releasing its context from the
    /// thread before the caller destroys the native window (the context must
    /// never outlive that order). An identifier the registry does not hold
    /// removes nothing. Returns whether the registry is now empty — the
    /// caller's signal that the last window closed; the policy that the
    /// process then exits lives in the caller.
    pub fn close_window(&mut self, id: u64) -> (last: bool)
        requires
            old(self).wf(),
            !(old(self).commitment() is Uninitialized),
        ensures
            final(self).wf(),
            final(self).commitment() == old(self).commitment(),
            final(self).id_bound() == old(self).id_bound(),
            final(self).windows_map() == old(self).windows_map().remove(id),
            last <==> final(self).windows_map().dom() =~= Set::<u64>::empty(),
            old(self).windows_map().dom().contains(id) ==>
                final(self).windows_map().dom().len() == old(self).windows_map().dom().len() - 1,
            !old(self).windows_map().dom().contains(id) ==>
                final(self).windows_map() == old(self).windows_map(),
    {
        proof {
            lemma_entries_map_len(self.windows@);
        }
        match self.find_index(id) {
            Some(i) => {
                let ghost s0 = self.windows@;
                let mut e = self.windows.remove(i);
                match &mut e.bundle {
                    WindowBundle::Gl(r) => {
                        // Released before the caller drops the native window.
                        r.gl.make_not_current();
                    },
                    WindowBundle::Software(_) => {},
                }
                proof {
                    lemma_entries_map_remove(s0, i as int);
                    lemma_entries_map_len(self.windows@);
                    assert forall|j: int| 0 <= j < self.windows@.len() implies
                        Self::entry_ok(self.state, #[trigger] self.windows@[j]) by {
                        assert(self.windows@[j] == if j < i { s0[j] } else { s0[j + 1] });
                    }
                    assert forall|x: int, y: int| 0 <= x < y < self.windows@.len() implies
                        !(bundle_is_current(self.windows@[x].bundle)
                            && bundle_is_current(self.windows@[y].bundle)) by {
                        assert(self.windows@[x] == if x < i { s0[x] } else { s0[x + 1] });
                        assert(self.windows@[y] == if y < i { s0[y] } else { s0[y + 1] });
                    }
                    assert forall|j: int| 0 <= j < self.windows@.len() implies
                        (#[trigger] self.windows@[j]).id < self.next_id by {
                        assert(self.windows@[j] == if j < i { s0[j] } else { s0[j + 1] });
                    }
                }
                self.windows.is_empty()
            },
            None => {
                proof {
                    assert(self.windows_map().remove(id) =~= self.windows_map());
                }
                self.windows.is_empty()
            },
        }
    }
}

} // verus!

verus! {

impl<H: Window> WindowManager<H> {
    /// Reinsert an entry whose record is unchanged (only its handler may have
    /// moved on) and conclude that the registry map is unchanged.
    proof fn lemma_record_preserved(&self, s0: Seq<WindowEntry<H>>, i: int, state: Commitment, next_id: u64)
        requires
            ids_distinct(s0),
            0 <= i < s0.len(),
            self.windows@ == s0.update(i, self.windows@[i]),
            self.windows@[i].id == s0[i].id,
            self.windows@[i].record() == s0[i].record(),
            entries_map(s0).dom().contains(s0[i].id),
            entries_map(s0)[s0[i].id] == s0[i].record(),
            forall|j: int| 0 <= j < s0.len() ==> Self::entry_ok(state, #[trigger] s0[j]),
            forall|j: int| 0 <= j < s0.len() ==> (#[trigger] s0[j]).id < next_id,
            forall|x: int, y: int| 0 <= x < y < s0.len() ==>
                !(bundle_is_current((#[trigger] s0[x]).bundle)
                    && bundle_is_current((#[trigger] s0[y]).bundle)),
        ensures
            entries_map(self.windows@) == entries_map(s0),
            ids_distinct(self.windows@),
            forall|j: int| 0 <= j < self.windows@.len() ==>
                Self::entry_ok(state, #[trigger] self.windows@[j]),
            forall|j: int| 0 <= j < self.windows@.len() ==> (#[trigger] self.windows@[j]).id < next_id,
            forall|x: int, y: int| 0 <= x < y < self.windows@.len() ==>
                !(bundle_is_current((#[trigger] self.windows@[x]).bundle)
                    && bundle_is_current((#[trigger] self.windows@[y]).bundle)),
    {
        lemma_entries_map_update(s0, i, self.windows@[i]);
        assert(entries_map(self.windows@) =~= entries_map(s0));
        assert forall|j: int| 0 <= j < self.windows@.len() implies
            Self::entry_ok(state, #[trigger] self.windows@[j])
            && (#[trigger] self.windows@[j]).id < next_id by {
            if j != i {
                assert(self.windows@[j] == s0[j]);
            }
        }
        assert forall|x: int, y: int| 0 <= x < y < self.windows@.len() implies
            !(bundle_is_current((#[trigger] self.windows@[x]).bundle)
                && bundle_is_current((#[trigger] self.windows@[y]).bundle)) by {
            if x != i {
                assert(self.windows@[x] == s0[x]);
            }
            if y != i {
                assert(self.windows@[y] == s0[y]);
            }
        }
    }

    /// The read-only context for handler calls on the window at index `i`.
    fn window_cx(&self, i: usize) -> (cx: WindowCx)
        requires
            i < self.windows@.len(),
        ensures
            cx.id == self.windows@[i as int].id,
            cx.width == bundle_width(self.windows@[i as int].bundle),
            cx.height == bundle_height(self.windows@[i as int].bundle),
    {
        let e = &self.windows[i];
        let (width, height) = match &e.bundle {
            WindowBundle::Gl(r) => (r.skia.width, r.skia.height),
            WindowBundle::Software(r) => (r.width, r.height),
        };
        WindowCx { id: e.id, width, height }
    }

    /// Tell a window's handler the cursor entered it.
    pub fn cursor_enter(&mut self, id: u64)
        requires
            old(self).wf(),
            !(old(self).commitment() is Uninitialized),
            old(self).windows_map().dom().contains(id),
        ensures
            final(self).wf(),
            final(self).commitment() == old(self).commitment(),
            final(self).id_bound() == old(self).id_bound(),
            final(self).windows_map() == old(self).windows_map(),
    {
        let i = self.unwrap_index(id);
        let cx = self.window_cx(i);
        let ghost s0 = self.windows@;
        let mut e = self.windows.remove(i);
        e.handler.cursor_enter(&cx);
        self.windows.insert(i, e);
        proof {
            assert(self.windows@ =~= s0.update(i as int, self.windows@[i as int]));
            lemma_entries_map_index(s0, i as int);
            self.lemma_record_preserved(s0, i as int, self.state, self.next_id);
        }
    }

    /// Tell a window's handler the cursor left it.
    pub fn cursor_leave(&mut self, id: u64)
        requires
            old(self).wf(),
            !(old(self).commitment() is Uninitialized),
            old(self).windows_map().dom().contains(id),
        ensures
            final(self).wf(),
            final(self).commitment() == old(self).commitment(),
            final(self).id_bound() == old(self).id_bound(),
            final(self).windows_map() == old(self).windows_map(),
    {
        let i = self.unwrap_index(id);
        let cx = self.window_cx(i);
        let ghost s0 = self.windows@;
        let mut e = self.windows.remove(i);
        e.handler.cursor_leave(&cx);
        self.windows.insert(i, e);
        proof {
            assert(self.windows@ =~= s0.update(i as int, self.windows@[i as int]));
            lemma_entries_map_index(s0, i as int);
            self.lemma_record_preserved(s0, i as int, self.state, self.next_id);
        }
    }

    /// Tell a window's handler the cursor moved, in pixels.
    pub fn cursor_move(&mut self, id: u64, x: i64, y: i64)
        requires
            old(self).wf(),
            !(old(self).commitment() is Uninitialized),
            old(self).windows_map().dom().contains(id),
        ensures
            final(self).wf(),
            final(self).commitment() == old(self).commitment(),
            final(self).id_bound() == old(self).id_bound(),
            final(self).windows_map() == old(self).windows_map(),
    {
        let i = self.unwrap_index(id);
        let cx = self.window_cx(i);
        let ghost s0 = self.windows@;
        let mut e = self.windows.remove(i);
        e.handler.cursor_move(x, y, &cx);
        self.windows.insert(i, e);
        proof {
            assert(self.windows@ =~= s0.update(i as int, self.windows@[i as int]));
            lemma_entries_map_index(s0, i as int);
            self.lemma_record_preserved(s0, i as int, self.state, self.next_id);
        }
    }

    /// Tell a window's handler a mouse button changed state.
    pub fn mouse_input(&mut self, id: u64, button_state: ElementState, button: MouseButton)
        requires
            old(self).wf(),
            !(old(self).commitment() is Uninitialized),
            old(self).windows_map().dom().contains(id),
        ensures
            final(self).wf(),
            final(self).commitment() == old(self).commitment(),
            final(self).id_bound() == old(self).id_bound(),
            final(self).windows_map() == old(self).windows_map(),
    {
        let i = self.unwrap_index(id);
        let cx = self.window_cx(i);
        let ghost s0 = self.windows@;
        let mut e = self.windows.remove(i);
        e.handler.mouse_input(button_state, button, &cx);
        self.windows.insert(i, e);
        proof {
            assert(self.windows@ =~= s0.update(i as int, self.windows@[i as int]));
            lemma_entries_map_index(s0, i as int);
            self.lemma_record_preserved(s0, i as int, self.state, self.next_id);
        }
    }

    /// Tell a window's handler the mouse wheel was scrolled.
    pub fn mouse_wheel(&mut self, id: u64, delta: MouseScrollDelta, phase: TouchPhase)
        requires
            old(self).wf(),
            !(old(self).commitment() is Uninitialized),
            old(self).windows_map().dom().contains(id),
        ensures
            final(self).wf(),
            final(self).commitment() == old(self).commitment(),
            final(self).id_bound() == old(self).id_bound(),
            final(self).windows_map() == old(self).windows_map(),
    {
        let i = self.unwrap_index(id);
        let cx = self.window_cx(i);
        let ghost s0 = self.windows@;
        let mut e = self.windows.remove(i);
        e.handler.mouse_wheel(delta, phase, &cx);
        self.windows.insert(i, e);
        proof {
            assert(self.windows@ =~= s0.update(i as int, self.windows@[i as int]));
            lemma_entries_map_index(s0, i as int);
            self.lemma_record_preserved(s0, i as int, self.state, self.next_id);
        }
    }

    /// After all pending redraws: give every window's handler its turn, with
    /// leave to set the control flow. No window's resources change.
    pub fn redraw_events_cleared(&mut self, control_flow: &mut ControlFlow)
        requires
            old(self).wf(),
        ensures
            final(self).wf(),
            final(self).commitment() == old(self).commitment(),
            final(self).id_bound() == old(self).id_bound(),
            final(self).windows_map() == old(self).windows_map(),
    {
        let ghost s0 = self.windows@;
        let mut i: usize = 0;
        while i < self.windows.len()
            invariant
                old(self).wf(),
                self.state == old(self).state,
                self.next_id == old(self).next_id,
                i <= self.windows@.len(),
                self.windows@.len() == s0.len(),
                forall|j: int| 0 <= j < s0.len() ==> (#[trigger] self.windows@[j]).id == s0[j].id
                    && self.windows@[j].record() == s0[j].record(),
                s0 == old(self).windows@,
            decreases self.windows@.len() - i,
        {
            let cx = self.window_cx(i);
            let ghost s_before = self.windows@;
            let mut e = self.windows.remove(i);
            e.handler.after_draw(&cx, control_flow);
            self.windows.insert(i, e);
            proof {
                assert(self.windows@ =~= s_before.update(i as int, self.windows@[i as int]));
            }
            i = i + 1;
        }
        proof {
            lemma_entries_map_pointwise(s0, self.windows@);
            assert forall|j: int| 0 <= j < self.windows@.len() implies
                Self::entry_ok(self.state, #[trigger] self.windows@[j])
                && (#[trigger] self.windows@[j]).id < self.next_id by {
                assert(s0[j].record() == self.windows@[j].record());
                assert(Self::entry_ok(old(self).state, s0[j]));
            }
            assert(ids_distinct(self.windows@)) by {
                assert forall|x: int, y: int| 0 <= x < y < self.windows@.len() implies
                    self.windows@[x].id != self.windows@[y].id by {
                    assert(s0[x].id != s0[y].id);
                }
            }
            assert forall|x: int, y: int| 0 <= x < y < self.windows@.len() implies
                !(bundle_is_current(self.windows@[x].bundle)
                    && bundle_is_current(self.windows@[y].bundle)) by {
                assert(s0[x].record() == self.windows@[x].record());
                assert(s0[y].record() == self.windows@[y].record());
            }
        }
    }

    /// Route one raw window event: resizes and close requests go to the state
    /// machine, cursor and mouse events go to the window's handler unchanged.
    /// When the close of the last window empties the registry, the control
    /// flow is set to exit. Returns whether the caller should request a
    /// redraw of the window (exactly after a resize to nonzero dimensions).
    pub fn handle_window_event(&mut self, id: u64, event: WindowEvent, control_flow: &mut ControlFlow) -> (redraw: bool)
        requires
            old(self).wf(),
            !(old(self).commitment() is Uninitialized),
            match event {
                WindowEvent::CloseRequested | WindowEvent::Other => true,
                _ => old(self).windows_map().dom().contains(id),
            },
        ensures
            final(self).wf(),
            final(self).commitment() == old(self).commitment(),
            final(self).id_bound() == old(self).id_bound(),
            match event {
                WindowEvent::Resized(w, h) => {
                    &&& redraw == (w > 0 && h > 0)
                    &&& (w == 0 || h == 0) ==> final(self).windows_map() == old(self).windows_map()
                    &&& (w > 0 && h > 0) ==> final(self).windows_map()
                        == uncurrent_all(old(self).windows_map()).insert(
                            id,
                            resized_record(
                                old(self).windows_map()[id],
                                commitment_config(old(self).commitment()),
                                w,
                                h,
                            ),
                        )
                    &&& *final(control_flow) == *old(control_flow)
                },
                WindowEvent::CloseRequested => {
                    &&& !redraw
                    &&& final(self).windows_map() == old(self).windows_map().remove(id)
                    &&& *final(control_flow) == (if final(self).windows_map().dom() =~= Set::<u64>::empty() {
                        ControlFlow::Exit
                    } else {
                        *old(control_flow)
                    })
                },
                WindowEvent::Other => {
                    &&& !redraw
                    &&& final(self).windows_map() == old(self).windows_map()
                    &&& *final(control_flow) == *old(control_flow)
                },
                _ => {
                    &&& !redraw
                    &&& final(self).windows_map() == old(self).windows_map()
                    &&& *final(control_flow) == *old(control_flow)
                },
            },
    {
        match event {
            WindowEvent::Resized(w, h) => self.resize(id, w, h),
            WindowEvent::CloseRequested => {
                if self.close_window(id) {
                    *control_flow = ControlFlow::Exit;
                }
                false
            },
            WindowEvent::CursorEntered => {
                self.cursor_enter(id);
                false
            },
            WindowEvent::CursorLeft => {
                self.cursor_leave(id);
                false
            },
            WindowEvent::CursorMoved { x, y } => {
                self.cursor_move(id, x, y);
                false
            },
            WindowEvent::MouseInput { state, button } => {
                self.mouse_input(id, state, button);
                false
            },
            WindowEvent::MouseWheel { delta, phase } => {
                self.mouse_wheel(id, delta, phase);
                false
            },
            WindowEvent::Other => false,
        }
    }
}

} // verus!

verus! {

impl<H: Window> WindowManager<H> {
    /// Every live identifier is strictly below `id_bound()`, and
    /// `create_window` returns `id_bound()` itself and raises the bound: an
    /// identifier whose window closed is never handed out again.
    pub proof fn lemma_live_ids_bounded(&self, id: u64)
        requires
            self.wf(),
            self.windows_map().dom().contains(id),
        ensures
            id < self.id_bound(),
    {
        lemma_entries_map_dom(self.windows@);
        let i = choose|i: int| 0 <= i < self.windows@.len() && self.windows@[i].id == id;
        assert(self.windows@[i].id < self.next_id);
    }

    /// Every window's bundle is of the variant the process committed to, and
    /// a GPU-backed window borrows the commitment's shared display: all
    /// windows of one process share one backend and one display identity.
    pub proof fn lemma_backend_homogeneous(&self, id: u64)
        requires
            self.wf(),
            self.windows_map().dom().contains(id),
        ensures
            self.windows_map()[id].bundle is Gl <==> self.commitment() is Gpu,
            self.windows_map()[id].bundle is Software <==> self.commitment() is Software,
            self.commitment() matches Commitment::Gpu(shared) ==>
                bundle_display_id(self.windows_map()[id].bundle) == Some(shared.display_id),
            self.windows_map()[id].visible,
    {
        lemma_entries_map_dom(self.windows@);
        let i = choose|i: int| 0 <= i < self.windows@.len() && self.windows@[i].id == id;
        lemma_entries_map_index(self.windows@, i);
        assert(Self::entry_ok(self.state, self.windows@[i]));
    }

    /// No window may exist while the commitment is `Uninitialized`.
    pub proof fn lemma_uninitialized_has_no_windows(&self)
        requires
            self.wf(),
            self.commitment() is Uninitialized,
        ensures
            self.windows_map() == Map::<u64, WindowRecord>::empty(),
    {
        assert(self.windows@.len() == 0);
    }

    /// At most one context is current on the thread: two distinct live
    /// windows are never both current.
    pub proof fn lemma_single_current(&self, id1: u64, id2: u64)
        requires
            self.wf(),
            self.windows_map().dom().contains(id1),
            self.windows_map().dom().contains(id2),
            id1 != id2,
        ensures
            !(bundle_is_current(self.windows_map()[id1].bundle)
                && bundle_is_current(self.windows_map()[id2].bundle)),
    {
        lemma_entries_map_dom(self.windows@);
        let i = choose|i: int| 0 <= i < self.windows@.len() && self.windows@[i].id == id1;
        let j = choose|j: int| 0 <= j < self.windows@.len() && self.windows@[j].id == id2;
        lemma_entries_map_index(self.windows@, i);
        lemma_entries_map_index(self.windows@, j);
    }
}

/// The display identity a bundle's context was created against, if it has one.
pub open spec fn bundle_display_id(b: WindowBundle) -> Option<u64> {
    match b {
        WindowBundle::Gl(r) => Some(r.gl.display_id),
        WindowBundle::Software(_) => None,
    }
}

/// Closing a window empties the registry exactly when that window was the
/// only one left — so over any order of closures, only the last close
/// signals emptiness.
pub proof fn lemma_close_signals_last(m: Map<u64, WindowRecord>, id: u64)
    requires
        m.dom().finite(),
        m.dom().contains(id),
    ensures
        (m.remove(id).dom() =~= Set::<u64>::empty()) <==> m.dom().len() == 1,
{
    broadcast use vstd::set::group_set_axioms;

    assert(m.remove(id).dom() =~= m.dom().remove(id));
    if m.dom().len() == 1 {
        assert forall|x: u64| !(#[trigger] m.dom().remove(id).contains(x)) by {
            if m.dom().remove(id).contains(x) {
                assert(m.dom().remove(x).contains(id));
                vstd::set::axiom_set_remove_len(m.dom(), x);
                vstd::set::axiom_set_remove_len(m.dom().remove(x), id);
                assert(m.dom().remove(x).len() == 0);
                assert(m.dom().remove(x).remove(id).len() + 1 == 0);
            }
        }
    }
    if m.dom().remove(id).len() == 0 {
        vstd::set::axiom_set_remove_len(m.dom(), id);
    }
}

} // verus!

verus! {

impl<H: Window> WindowManager<H> {
    /// The process-wide backend commitment, as committed so far.
    pub fn committed_backend(&self) -> (c: Commitment)
        ensures
            c == self.commitment(),
    {
        self.state
    }

    /// Whether the next `create_window` call is the first ever, so the caller
    /// must run the one-time backend probe and hand its outcome in. False as
    /// soon as the process is committed: the probe runs at most once.
    pub fn needs_probe(&self) -> (r: bool)
        ensures
            r == (self.commitment() is Uninitialized),
    {
        match self.state {
            Commitment::Uninitialized => true,
            _ => false,
        }
    }

    /// The shared GPU state the process committed to, if the backend is GPU.
    pub fn shared_state(&self) -> (r: Option<GlWindowManagerState>)
        ensures
            match self.commitment() {
                Commitment::Gpu(s) => r == Some(s),
                _ => r is None,
            },
    {
        match &self.state {
            Commitment::Gpu(s) => Some(*s),
            _ => None,
        }
    }

    /// How many windows are live.
    pub fn window_count(&self) -> (n: usize)
        requires
            self.wf(),
        ensures
            n == self.windows_map().dom().len(),
    {
        proof {
            lemma_entries_map_len(self.windows@);
        }
        self.windows.len()
    }

    /// The cached dimensions of a window's drawing surface.
    pub fn surface_size(&self, id: u64) -> (r: (u32, u32))
        requires
            self.wf(),
            self.windows_map().dom().contains(id),
        ensures
            r.0 == bundle_width(self.windows_map()[id].bundle),
            r.1 == bundle_height(self.windows_map()[id].bundle),
    {
        let i = self.unwrap_index(id);
        match &self.windows[i].bundle {
            WindowBundle::Gl(r) => (r.skia.width, r.skia.height),
            WindowBundle::Software(r) => (r.width, r.height),
        }
    }

    /// Whether a window's context is the thread's current one. Always false
    /// for a software-backed window.
    pub fn is_context_current(&self, id: u64) -> (r: bool)
        requires
            self.wf(),
            self.windows_map().dom().contains(id),
        ensures
            r == bundle_is_current(self.windows_map()[id].bundle),
    {
        let i = self.unwrap_index(id);
        match &self.windows[i].bundle {
            WindowBundle::Gl(r) => r.gl.is_current,
            WindowBundle::Software(_) => false,
        }
    }

    /// The fallback tier a window's context was created at, if it has one.
    pub fn context_kind_of(&self, id: u64) -> (r: Option<ContextKind>)
        requires
            self.wf(),
            self.windows_map().dom().contains(id),
        ensures
            match self.windows_map()[id].bundle {
                WindowBundle::Gl(sk) => r == Some(sk.gl.context_kind),
                WindowBundle::Software(_) => r is None,
            },
    {
        let i = self.unwrap_index(id);
        match &self.windows[i].bundle {
            WindowBundle::Gl(r) => Some(r.gl.context_kind),
            WindowBundle::Software(_) => None,
        }
    }

    /// The display identity a window's context was created against, if it has
    /// one: every GPU-backed window of the process reports the committed
    /// display.
    pub fn window_display_id(&self, id: u64) -> (r: Option<u64>)
        requires
            self.wf(),
            self.windows_map().dom().contains(id),
        ensures
            r == bundle_display_id(self.windows_map()[id].bundle),
    {
        let i = self.unwrap_index(id);
        match &self.windows[i].bundle {
            WindowBundle::Gl(r) => Some(r.gl.display_id),
            WindowBundle::Software(_) => None,
        }
    }
}

} // verus!
