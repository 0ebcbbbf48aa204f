//! Per-window application behaviour: the handler capability set, the drawing
//! canvas handed to paint callbacks, and the window events the runtime routes.

use vstd::prelude::*;

verus! {

/// The drawing surface handed to a paint callback for one frame.
///
/// Every frame starts from a surface cleared to fully transparent, sized to
/// the window's current pixel dimensions.
#[derive(Clone, Copy, PartialEq, Eq, Structural, Debug)]
pub struct Canvas {
    /// Width of the surface, in pixels.
    pub width: u32,
    /// Height of the surface, in pixels.
    pub height: u32,
    /// Whether the surface has been cleared to transparent for this frame.
    pub cleared: bool,
}

impl Canvas {
    /// A freshly cleared canvas of the given pixel dimensions.
    pub fn new_frame(width: u32, height: u32) -> (c: Canvas)
        ensures
            c.width == width,
            c.height == height,
            c.cleared,
    {
        Canvas { width, height, cleared: true }
    }
}

/// Read-only properties of the window a handler call concerns.
#[derive(Clone, Copy, PartialEq, Eq, Structural, Debug)]
pub struct WindowCx {
    /// The identifier of the window.
    pub id: u64,
    /// Current width of the window, in pixels.
    pub width: u32,
    /// Current height of the window, in pixels.
    pub height: u32,
}

/// What the event loop should do after the current batch of events.
#[derive(Clone, Copy, PartialEq, Eq, Structural, Debug)]
pub enum ControlFlow {
    /// Sleep until the next event arrives.
    Wait,
    /// Shut the event loop down.
    Exit,
}

/// Whether a mouse button went down or up.
#[derive(Clone, Copy, PartialEq, Eq, Structural, Debug)]
pub enum ElementState {
    Pressed,
    Released,
}

/// A mouse button.
#[derive(Clone, Copy, PartialEq, Eq, Structural, Debug)]
pub enum MouseButton {
    Left,
    Right,
    Middle,
    Other(u16),
}

/// A scroll amount, in lines or in pixels.
#[derive(Clone, Copy, PartialEq, Eq, Structural, Debug)]
pub enum MouseScrollDelta {
    /// Horizontal and vertical scroll, in lines.
    LineDelta(i64, i64),
    /// Horizontal and vertical scroll, in pixels.
    PixelDelta(i64, i64),
}

/// The phase of a touch-driven scroll gesture.
#[derive(Clone, Copy, PartialEq, Eq, Structural, Debug)]
pub enum TouchPhase {
    Started,
    Moved,
    Ended,
    Cancelled,
}

/// A window event, already resolved to a window identifier by the source.
#[derive(Clone, Copy, PartialEq, Eq, Structural, Debug)]
pub enum WindowEvent {
    /// The window was resized to the given pixel dimensions.
    Resized(u32, u32),
    /// The user asked to close the window.
    CloseRequested,
    /// The cursor entered the window.
    CursorEntered,
    /// The cursor left the window.
    CursorLeft,
    /// The cursor moved to the given position, in pixels.
    CursorMoved { x: i64, y: i64 },
    /// A mouse button changed state.
    MouseInput { state: ElementState, button: MouseButton },
    /// The mouse wheel was scrolled.
    MouseWheel { delta: MouseScrollDelta, phase: TouchPhase },
    /// Any event the runtime does not route.
    Other,
}

/// Application-supplied behaviour bound to one window.
///
/// Every operation defaults to a no-op; the runtime promises nothing about
/// what an implementation does to its own state.
#[allow(unused_variables)]
pub trait Window: Sized {
    /// The window has been created and is about to become visible.
    fn open(&mut self, cx: &WindowCx) {
    }

    /// The window is asked whether it may close.
    fn close(&mut self, cx: &WindowCx) -> bool {
        true
    }

    /// Paint one frame onto a canvas cleared to transparent.
    fn draw(&mut self, canvas: &mut Canvas, cx: &WindowCx) {
    }

    /// All pending redraws have been handled.
    fn after_draw(&mut self, cx: &WindowCx, control_flow: &mut ControlFlow) {
    }

    /// The window was resized to the given pixel dimensions.
    fn resize(&mut self, width: u32, height: u32, cx: &WindowCx) {
    }

    /// The cursor entered the window.
    fn cursor_enter(&mut self, cx: &WindowCx) {
    }

    /// The cursor left the window.
    fn cursor_leave(&mut self, cx: &WindowCx) {
    }

    /// The cursor moved to the given position, in pixels.
    fn cursor_move(&mut self, x: i64, y: i64, cx: &WindowCx) {
    }

    /// A mouse button changed state.
    fn mouse_input(&mut self, state: ElementState, button: MouseButton, cx: &WindowCx) {
    }

    /// The mouse wheel was scrolled.
    fn mouse_wheel(&mut self, delta: MouseScrollDelta, phase: TouchPhase, cx: &WindowCx) {
    }
}

} // verus!
