//! Directional window-focus navigation.
//!
//! Given one consistent snapshot of the windows on screen, the library
//! decides which window should receive focus next for a cardinal
//! direction: it filters the snapshot down to the windows that are
//! visible and relevant on a target desktop, prunes windows that are
//! mostly covered by windows above them in stacking order, and picks
//! the nearest neighbor of the active window in the requested
//! direction.  Talking to the window manager is the caller's business;
//! everything here is pure computation over plain values.

pub mod geometry;
pub mod window;
pub mod occlusion;
pub mod builder;
pub mod selector;
