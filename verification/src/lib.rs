//! A multi-window rendering runtime core: the window-manager state machine.
//!
//! The process commits once to a rendering backend (GPU or software raster),
//! then creates, resizes, redraws and destroys windows consistently with that
//! choice. Native windowing, GPU-driver and drawing-library calls are the
//! caller's side of the boundary: they hand their outcomes in as plain values
//! and carry out the actions these functions decide on.

pub mod gl_manager;
pub mod gl_skia;
pub mod gl_window;
pub mod software;
pub mod window;
pub mod window_manager;

pub use window::{Canvas, Window, WindowCx};
pub use window_manager::WindowManager;
