use std::cell::RefCell;
use std::rc::Rc;

use multiwin::gl_manager::{ContextKind, GlConfig, GlWindowManagerState, ProbeError};
use multiwin::window::{Canvas, ControlFlow, ElementState, MouseButton, MouseScrollDelta, TouchPhase, Window, WindowCx, WindowEvent};
use multiwin::window_manager::{BackendResources, Commitment, ProbeOutcome, WindowManager};

/// Everything a window handler was told, readable from outside the registry.
#[derive(Default)]
struct Log {
    opens: u64,
    resizes: Vec<(u32, u32)>,
    draws: Vec<(u32, u32, bool)>,
    after_draws: u64,
    cursor_enters: u64,
    cursor_leaves: u64,
    cursor_moves: Vec<(i64, i64)>,
    mouse_inputs: Vec<(ElementState, MouseButton)>,
    mouse_wheels: u64,
}

/// A handler that records every call made to it into a shared log.
#[derive(Default)]
struct Recorder {
    log: Rc<RefCell<Log>>,
    exit_after_draw: bool,
}

impl Recorder {
    fn with_log() -> (Recorder, Rc<RefCell<Log>>) {
        let log = Rc::new(RefCell::new(Log::default()));
        (Recorder { log: log.clone(), exit_after_draw: false }, log)
    }
}

impl Window for Recorder {
    fn open(&mut self, _cx: &WindowCx) {
        self.log.borrow_mut().opens += 1;
    }

    fn draw(&mut self, canvas: &mut Canvas, _cx: &WindowCx) {
        self.log.borrow_mut().draws.push((canvas.width, canvas.height, canvas.cleared));
    }

    fn after_draw(&mut self, _cx: &WindowCx, control_flow: &mut ControlFlow) {
        self.log.borrow_mut().after_draws += 1;
        if self.exit_after_draw {
            *control_flow = ControlFlow::Exit;
        }
    }

    fn resize(&mut self, width: u32, height: u32, _cx: &WindowCx) {
        self.log.borrow_mut().resizes.push((width, height));
    }

    fn cursor_enter(&mut self, _cx: &WindowCx) {
        self.log.borrow_mut().cursor_enters += 1;
    }

    fn cursor_leave(&mut self, _cx: &WindowCx) {
        self.log.borrow_mut().cursor_leaves += 1;
    }

    fn cursor_move(&mut self, x: i64, y: i64, _cx: &WindowCx) {
        self.log.borrow_mut().cursor_moves.push((x, y));
    }

    fn mouse_input(&mut self, state: ElementState, button: MouseButton, _cx: &WindowCx) {
        self.log.borrow_mut().mouse_inputs.push((state, button));
    }

    fn mouse_wheel(&mut self, _delta: MouseScrollDelta, _phase: TouchPhase, _cx: &WindowCx) {
        self.log.borrow_mut().mouse_wheels += 1;
    }
}

fn shared_state() -> GlWindowManagerState {
    GlWindowManagerState {
        display_id: 7,
        gl_config: GlConfig { num_samples: 4, stencil_size: 8, supports_transparency: true },
    }
}

fn gpu_probe() -> BackendResources {
    BackendResources::Probe(ProbeOutcome::Gpu {
        shared: shared_state(),
        first_context: ContextKind::Modern,
    })
}

fn failed_probe() -> BackendResources {
    BackendResources::Probe(ProbeOutcome::Failed(ProbeError::ContextCreationFailed))
}

#[test]
fn close_removes_exactly_one_entry_and_ids_are_never_revisited() {
    let mut m: WindowManager<Recorder> = WindowManager::new();
    let a = m.create_window(800, 600, gpu_probe(), Recorder::default());
    let b = m.create_window(400, 300, BackendResources::Gl(ContextKind::Modern), Recorder::default());
    assert_ne!(a, b);
    assert_eq!(m.window_count(), 2);
    assert!(!m.close_window(a));
    assert_eq!(m.window_count(), 1);
    assert!(!m.has_window(a));
    assert!(m.has_window(b));
    // A later window never gets the closed identifier back.
    let c = m.create_window(100, 100, BackendResources::Gl(ContextKind::Modern), Recorder::default());
    assert_ne!(c, a);
    assert_ne!(c, b);
    // Closing an identifier the registry does not hold removes nothing.
    assert!(!m.close_window(a));
    assert_eq!(m.window_count(), 2);
}

#[test]
fn commitment_is_set_at_most_once_and_all_windows_share_it() {
    let mut m: WindowManager<Recorder> = WindowManager::new();
    assert!(m.needs_probe());
    let a = m.create_window(800, 600, gpu_probe(), Recorder::default());
    // Committed: no later creation may carry a probe outcome.
    assert!(!m.needs_probe());
    let b = m.create_window(400, 300, BackendResources::Gl(ContextKind::Gles), Recorder::default());
    let c = m.create_window(200, 100, BackendResources::Gl(ContextKind::Legacy), Recorder::default());
    assert!(!m.needs_probe());
    assert!(matches!(m.committed_backend(), Commitment::Gpu(_)));
    // All three windows are GPU-backed, against the one probed display.
    assert_eq!(m.window_display_id(a), Some(7));
    assert_eq!(m.window_display_id(b), Some(7));
    assert_eq!(m.window_display_id(c), Some(7));
}

#[test]
fn zero_resize_keeps_cached_dimensions_and_nonzero_resize_is_exact() {
    let mut m: WindowManager<Recorder> = WindowManager::new();
    let (recorder, log) = Recorder::with_log();
    let a = m.create_window(800, 600, gpu_probe(), recorder);
    assert!(!m.resize(a, 0, 600));
    assert_eq!(m.surface_size(a), (800, 600));
    assert!(!m.resize(a, 800, 0));
    assert_eq!(m.surface_size(a), (800, 600));
    // An ignored resize is not propagated to the handler either.
    assert_eq!(log.borrow().resizes.len(), 1);
    assert_eq!(log.borrow().resizes[0], (800, 600));
    assert!(m.resize(a, 300, 200));
    assert_eq!(m.surface_size(a), (300, 200));
    assert_eq!(log.borrow().resizes.len(), 2);
    assert_eq!(log.borrow().resizes[1], (300, 200));
    let report = m.draw(a);
    assert_eq!((report.width, report.height), (300, 200));
}

#[test]
fn only_the_last_close_reports_emptiness_in_any_order() {
    let orders: [[usize; 3]; 3] = [[0, 1, 2], [2, 0, 1], [1, 2, 0]];
    for order in orders {
        let mut m: WindowManager<Recorder> = WindowManager::new();
        let mut ids = vec![m.create_window(10, 10, failed_probe(), Recorder::default())];
        ids.push(m.create_window(20, 20, BackendResources::Software, Recorder::default()));
        ids.push(m.create_window(30, 30, BackendResources::Software, Recorder::default()));
        let mut results = Vec::new();
        for k in order {
            results.push(m.close_window(ids[k]));
        }
        assert_eq!(results, vec![false, false, true]);
    }
}

#[test]
fn already_current_context_performs_no_redundant_binding_call() {
    let mut m: WindowManager<Recorder> = WindowManager::new();
    let a = m.create_window(800, 600, gpu_probe(), Recorder::default());
    // Window creation made A's context current.
    assert!(m.is_context_current(a));
    let mut binding_calls: u64 = 0;
    for _ in 0..3 {
        if m.draw(a).bound_context {
            binding_calls += 1;
        }
    }
    // Drawing the same window repeatedly never re-binds.
    assert_eq!(binding_calls, 0);
    // Another window's creation takes the thread's current context over...
    let b = m.create_window(400, 300, BackendResources::Gl(ContextKind::Modern), Recorder::default());
    assert!(!m.is_context_current(a));
    assert!(m.is_context_current(b));
    // ...so the next draw of A binds once, and only once.
    if m.draw(a).bound_context {
        binding_calls += 1;
    }
    if m.draw(a).bound_context {
        binding_calls += 1;
    }
    assert_eq!(binding_calls, 1);
}

#[test]
fn gpu_probe_success_commits_gpu_and_windows_share_state() {
    let mut m: WindowManager<Recorder> = WindowManager::new();
    let a = m.create_window(800, 600, gpu_probe(), Recorder::default());
    match m.committed_backend() {
        Commitment::Gpu(s) => {
            assert_eq!(s.display_id, 7);
            assert_eq!(s.gl_config.num_samples, 4);
        },
        other => panic!("expected a GPU commitment, got {:?}", other),
    }
    let b = m.create_window(640, 480, BackendResources::Gl(ContextKind::Gles), Recorder::default());
    // B borrows the same display and configuration identity as A.
    assert_eq!(m.window_display_id(b), m.window_display_id(a));
    assert_eq!(m.shared_state().map(|s| s.display_id), Some(7));
    assert_eq!(m.context_kind_of(a), Some(ContextKind::Modern));
    assert_eq!(m.context_kind_of(b), Some(ContextKind::Gles));
}

#[test]
fn probe_failure_commits_software_with_raster_surface_of_requested_size() {
    let mut m: WindowManager<Recorder> = WindowManager::new();
    let a = m.create_window(640, 480, failed_probe(), Recorder::default());
    assert!(matches!(m.committed_backend(), Commitment::Software));
    assert_eq!(m.window_display_id(a), None);
    assert_eq!(m.context_kind_of(a), None);
    assert_eq!(m.surface_size(a), (640, 480));
    assert!(!m.is_context_current(a));
    let report = m.draw(a);
    assert!(!report.bound_context);
    assert_eq!((report.width, report.height), (640, 480));
}

#[test]
fn each_probe_error_falls_back_to_software() {
    let errors = [
        ProbeError::DisplayUnavailable,
        ProbeError::NoSuitableConfig,
        ProbeError::ContextCreationFailed,
        ProbeError::SurfaceCreationFailed,
    ];
    for e in errors {
        let mut m: WindowManager<Recorder> = WindowManager::new();
        m.create_window(64, 48, BackendResources::Probe(ProbeOutcome::Failed(e)), Recorder::default());
        assert!(matches!(m.committed_backend(), Commitment::Software));
    }
}

#[test]
fn paint_callback_observes_resized_canvas() {
    // Resize to zero, then to 300 x 200, then draw: the canvas handed to the
    // paint callback reports width 300 and height 200, freshly cleared.
    let mut m: WindowManager<Recorder> = WindowManager::new();
    let (recorder, log) = Recorder::with_log();
    let a = m.create_window(800, 600, gpu_probe(), recorder);
    assert!(!m.resize(a, 0, 0));
    assert!(m.resize(a, 300, 200));
    m.draw(a);
    assert_eq!(log.borrow().draws, vec![(300, 200, true)]);
}

#[test]
fn events_are_routed_to_the_window_handler() {
    let mut m: WindowManager<Recorder> = WindowManager::new();
    let (recorder, log) = Recorder::with_log();
    let a = m.create_window(100, 100, failed_probe(), recorder);
    let mut flow = ControlFlow::Wait;
    assert!(!m.handle_window_event(a, WindowEvent::CursorEntered, &mut flow));
    assert!(!m.handle_window_event(a, WindowEvent::CursorMoved { x: 3, y: 4 }, &mut flow));
    assert!(!m.handle_window_event(
        a,
        WindowEvent::MouseInput { state: ElementState::Pressed, button: MouseButton::Left },
        &mut flow,
    ));
    assert!(!m.handle_window_event(
        a,
        WindowEvent::MouseWheel {
            delta: MouseScrollDelta::LineDelta(0, -1),
            phase: TouchPhase::Moved,
        },
        &mut flow,
    ));
    assert!(!m.handle_window_event(a, WindowEvent::CursorLeft, &mut flow));
    assert!(!m.handle_window_event(a, WindowEvent::Other, &mut flow));
    assert_eq!(flow, ControlFlow::Wait);
    {
        let log = log.borrow();
        assert_eq!(log.cursor_enters, 1);
        assert_eq!(log.cursor_leaves, 1);
        assert_eq!(log.cursor_moves, vec![(3, 4)]);
        assert_eq!(log.mouse_inputs, vec![(ElementState::Pressed, MouseButton::Left)]);
        assert_eq!(log.mouse_wheels, 1);
    }
    // A resize to nonzero dimensions asks for a redraw; a zero one does not.
    assert!(m.handle_window_event(a, WindowEvent::Resized(50, 60), &mut flow));
    assert!(!m.handle_window_event(a, WindowEvent::Resized(0, 60), &mut flow));
    assert_eq!(m.surface_size(a), (50, 60));
    assert_eq!(log.borrow().resizes, vec![(100, 100), (50, 60)]);
}

#[test]
fn closing_the_last_window_sets_exit() {
    let mut m: WindowManager<Recorder> = WindowManager::new();
    let a = m.create_window(100, 100, failed_probe(), Recorder::default());
    let b = m.create_window(100, 100, BackendResources::Software, Recorder::default());
    let mut flow = ControlFlow::Wait;
    assert!(!m.handle_window_event(a, WindowEvent::CloseRequested, &mut flow));
    assert_eq!(flow, ControlFlow::Wait);
    assert!(!m.handle_window_event(b, WindowEvent::CloseRequested, &mut flow));
    assert_eq!(flow, ControlFlow::Exit);
    assert_eq!(m.window_count(), 0);
}

#[test]
fn after_draw_runs_for_every_window_and_may_exit() {
    let mut m: WindowManager<Recorder> = WindowManager::new();
    let (recorder_a, log_a) = Recorder::with_log();
    let (mut recorder_b, log_b) = Recorder::with_log();
    recorder_b.exit_after_draw = true;
    let _a = m.create_window(100, 100, failed_probe(), recorder_a);
    let _b = m.create_window(100, 100, BackendResources::Software, recorder_b);
    let mut flow = ControlFlow::Wait;
    m.redraw_events_cleared(&mut flow);
    assert_eq!(flow, ControlFlow::Exit);
    assert_eq!(log_a.borrow().after_draws, 1);
    assert_eq!(log_b.borrow().after_draws, 1);
    assert_eq!(m.window_count(), 2);
}

#[test]
fn window_opens_once_then_resizes_to_actual_size() {
    let mut m: WindowManager<Recorder> = WindowManager::new();
    let (recorder, log) = Recorder::with_log();
    let a = m.create_window(321, 123, failed_probe(), recorder);
    assert_eq!(m.surface_size(a), (321, 123));
    assert_eq!(log.borrow().opens, 1);
    assert_eq!(log.borrow().resizes, vec![(321, 123)]);
}

#[test]
fn dimensions_at_the_integer_maximum_are_carried_exactly() {
    let mut m: WindowManager<Recorder> = WindowManager::new();
    let a = m.create_window(u32::MAX, u32::MAX, failed_probe(), Recorder::default());
    assert_eq!(m.surface_size(a), (u32::MAX, u32::MAX));
    assert!(m.resize(a, u32::MAX, 1));
    let report = m.draw(a);
    assert_eq!((report.width, report.height), (u32::MAX, 1));
}
