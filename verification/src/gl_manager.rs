//! Process-wide GPU state: the display/configuration pair the backend probe
//! selects, and the deterministic fallback order for context creation.
//!
//! The probe itself talks to the native GPU binding, so it runs on the
//! caller's side; the choices it has to make are functions here.

use vstd::prelude::*;

verus! {

/// What the probe reads of one enumerated GPU configuration.
#[derive(Clone, Copy, PartialEq, Eq, Structural, Debug)]
pub struct GlConfig {
    /// Multisample count of the configuration.
    pub num_samples: u8,
    /// Stencil buffer size of the configuration, in bits.
    pub stencil_size: u8,
    /// Whether the configuration supports window transparency.
    pub supports_transparency: bool,
}

/// The tier of rendering-context creation attempted against the display.
///
/// Context creation tries the tiers in order `Modern`, `Gles`, `Legacy` and
/// keeps the first that succeeds.
#[derive(Clone, Copy, PartialEq, Eq, Structural, Debug)]
pub enum ContextKind {
    /// The platform's current API, as the driver prefers it.
    Modern,
    /// The embedded-profile compatibility fallback.
    Gles,
    /// The legacy fallback for devices that support neither.
    Legacy,
}

/// Why the one-time backend probe failed.
#[derive(Clone, Copy, PartialEq, Eq, Structural, Debug)]
pub enum ProbeError {
    /// No rendering-capable display could be established.
    DisplayUnavailable,
    /// The display offered no window-rendering configuration.
    NoSuitableConfig,
    /// No context could be created through any fallback tier.
    ContextCreationFailed,
    /// The first window's present-surface could not be created.
    SurfaceCreationFailed,
}

/// The process-wide GPU state owned by the backend commitment: a display
/// identity and the configuration selected on it. Made once per process,
/// never recreated; every GPU-backed window borrows it.
#[derive(Clone, Copy, PartialEq, Eq, Structural, Debug)]
pub struct GlWindowManagerState {
    /// Identity of the rendering-capable display the probe established.
    pub display_id: u64,
    /// The configuration selected among those the display enumerated.
    pub gl_config: GlConfig,
}

/// Whether index `i` is the configuration to select from `cfgs`: the first
/// that supports transparency if any does, else the first with the highest
/// multisample count.
pub open spec fn is_selected_config(cfgs: Seq<GlConfig>, i: int) -> bool {
    &&& 0 <= i < cfgs.len()
    &&& if exists|k: int| 0 <= k < cfgs.len() && cfgs[k].supports_transparency {
        &&& cfgs[i].supports_transparency
        &&& forall|k: int| 0 <= k < i ==> !cfgs[k].supports_transparency
    } else {
        &&& forall|k: int| 0 <= k < cfgs.len() ==> cfgs[k].num_samples <= cfgs[i].num_samples
        &&& forall|k: int| 0 <= k < i ==> cfgs[k].num_samples < cfgs[i].num_samples
    }
}

/// Select the configuration the process commits to, among those the display
/// enumerated: the one supporting transparency if any does, else the one with
/// the highest multisample count, ties broken by first-found.
pub fn select_config(cfgs: &Vec<GlConfig>) -> (r: Option<usize>)
    ensures
        r is Some <==> cfgs@.len() > 0,
        r matches Some(i) ==> is_selected_config(cfgs@, i as int),
{
    if cfgs.len() == 0 {
        return None;
    }
    let mut transparent: Option<usize> = if cfgs[0].supports_transparency {
        Some(0)
    } else {
        None
    };
    let mut best: usize = 0;
    let mut j: usize = 1;
    while j < cfgs.len()
        invariant
            0 < cfgs@.len(),
            1 <= j <= cfgs@.len(),
            best < j,
            forall|k: int| 0 <= k < j ==> cfgs@[k].num_samples <= cfgs@[best as int].num_samples,
            forall|k: int| 0 <= k < best ==> cfgs@[k].num_samples < cfgs@[best as int].num_samples,
            transparent matches Some(t) ==> t < j && cfgs@[t as int].supports_transparency
                && forall|k: int| 0 <= k < t ==> !cfgs@[k].supports_transparency,
            transparent is None ==> forall|k: int| 0 <= k < j ==> !cfgs@[k].supports_transparency,
        decreases cfgs@.len() - j,
    {
        if transparent.is_none() && cfgs[j].supports_transparency {
            transparent = Some(j);
        }
        if cfgs[j].num_samples > cfgs[best].num_samples {
            best = j;
        }
        j = j + 1;
    }
    match transparent {
        Some(t) => Some(t),
        None => Some(best),
    }
}

/// The fallback tier to try next: `Modern` first, then `Gles`, then `Legacy`,
/// then give up. `failed` is the tier that was tried last, `None` before the
/// first attempt.
pub fn next_context_attempt(failed: Option<ContextKind>) -> (r: Option<ContextKind>)
    ensures
        r == spec_next_context_attempt(failed),
{
    match failed {
        None => Some(ContextKind::Modern),
        Some(ContextKind::Modern) => Some(ContextKind::Gles),
        Some(ContextKind::Gles) => Some(ContextKind::Legacy),
        Some(ContextKind::Legacy) => None,
    }
}

/// The deterministic preference order of context creation.
pub open spec fn spec_next_context_attempt(failed: Option<ContextKind>) -> Option<ContextKind> {
    match failed {
        None => Some(ContextKind::Modern),
        Some(ContextKind::Modern) => Some(ContextKind::Gles),
        Some(ContextKind::Gles) => Some(ContextKind::Legacy),
        Some(ContextKind::Legacy) => None,
    }
}

} // verus!
