use multiwin::gl_manager::{ContextKind, GlConfig, GlWindowManagerState};
use multiwin::gl_skia::SkiaGlRenderer;
use multiwin::gl_window::GlWindowRenderer;
use multiwin::software::SkiaSoftwareRenderer;

fn shared() -> GlWindowManagerState {
    GlWindowManagerState {
        display_id: 3,
        gl_config: GlConfig { num_samples: 2, stencil_size: 8, supports_transparency: false },
    }
}

#[test]
fn binding_is_skipped_while_current_and_performed_after_release() {
    let mut r = GlWindowRenderer::new(3, ContextKind::Modern, 640, 480);
    // Creation binds the context.
    assert!(r.is_current);
    let mut driver_calls: u64 = 0;
    for _ in 0..5 {
        if r.make_current_if_needed() {
            driver_calls += 1;
        }
    }
    assert_eq!(driver_calls, 0);
    r.make_not_current();
    assert!(!r.is_current);
    if r.make_current_if_needed() {
        driver_calls += 1;
    }
    if r.make_current_if_needed() {
        driver_calls += 1;
    }
    assert_eq!(driver_calls, 1);
    assert!(r.is_current);
}

#[test]
fn present_surface_resize_is_exact_and_makes_current() {
    let mut r = GlWindowRenderer::new(3, ContextKind::Gles, 640, 480);
    r.make_not_current();
    // A zero dimension is a no-op at the context resource too.
    assert!(!r.resize(0, 240));
    assert_eq!((r.surface_width, r.surface_height), (640, 480));
    assert!(!r.is_current);
    let performed = r.resize(320, 240);
    assert!(performed);
    assert!(r.is_current);
    assert_eq!((r.surface_width, r.surface_height), (320, 240));
    assert_eq!(r.context_kind, ContextKind::Gles);
    assert_eq!(r.display_id, 3);
}

#[test]
fn gl_renderer_zero_resize_changes_nothing() {
    let s = shared();
    let mut r = SkiaGlRenderer::new(&s, ContextKind::Modern, 800, 600);
    r.gl.make_not_current();
    assert!(!r.resize(&s.gl_config, 0, 600));
    assert_eq!((r.skia.width, r.skia.height), (800, 600));
    assert_eq!((r.gl.surface_width, r.gl.surface_height), (800, 600));
    assert!(!r.gl.is_current);
    assert!(r.resize(&s.gl_config, 300, 200));
    assert_eq!((r.skia.width, r.skia.height), (300, 200));
    assert_eq!((r.gl.surface_width, r.gl.surface_height), (300, 200));
    assert!(r.gl.is_current);
}

#[test]
fn gl_renderer_takes_sampling_from_the_shared_configuration() {
    let s = shared();
    let r = SkiaGlRenderer::new(&s, ContextKind::Legacy, 100, 100);
    assert_eq!(r.skia.num_samples, 2);
    assert_eq!(r.skia.stencil_size, 8);
    assert_eq!(r.gl.display_id, 3);
    assert_eq!(r.gl.context_kind, ContextKind::Legacy);
}

#[test]
fn gl_frame_is_cleared_at_cached_dimensions_and_binds_at_most_once() {
    let s = shared();
    let mut r = SkiaGlRenderer::new(&s, ContextKind::Modern, 800, 600);
    r.gl.make_not_current();
    let (bound_first, canvas) = r.draw();
    assert!(bound_first);
    assert_eq!((canvas.width, canvas.height), (800, 600));
    assert!(canvas.cleared);
    let (bound_second, _) = r.draw();
    assert!(!bound_second);
}

#[test]
fn raster_surface_is_recreated_at_new_dimensions() {
    let mut r = SkiaSoftwareRenderer::new(640, 480);
    assert_eq!((r.width, r.height), (640, 480));
    r.resize(320, 200);
    assert_eq!((r.width, r.height), (320, 200));
    let canvas = r.draw();
    assert_eq!((canvas.width, canvas.height), (320, 200));
    assert!(canvas.cleared);
}
