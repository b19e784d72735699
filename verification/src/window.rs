//! Plain-value descriptions of window geometry and cursor behavior.
//!
//! Creating and driving windows belongs to the host's windowing system at
//! the edge of the layer; these are the values that cross that boundary.

use vstd::prelude::*;

verus! {

/// Describes the position of a window on the screen.
#[derive(Clone, Copy, Debug, PartialEq, Eq, Structural)]
pub struct NSTDWindowPosition {
    /// The position of the window from the left of the screen.
    pub x: i32,
    /// The position of the window from the top of the screen.
    pub y: i32,
}

/// Describes the size of a window in physical pixels.
#[derive(Clone, Copy, Debug, PartialEq, Eq, Structural)]
pub struct NSTDWindowSize {
    /// The width of the window.
    pub width: u32,
    /// The height of the window.
    pub height: u32,
}

/// Describes the behavior of cursor grabbing.
#[derive(Clone, Copy, Debug, PartialEq, Eq, Structural)]
#[allow(non_camel_case_types)]
pub enum NSTDCursorGrabMode {
    /// The cursor should not be locked or confined.
    NSTD_CURSOR_GRAB_MODE_NONE,
    /// The cursor will be confined to the window area.
    NSTD_CURSOR_GRAB_MODE_CONFINED,
    /// The cursor will be locked to a certain position inside the window
    /// area.
    NSTD_CURSOR_GRAB_MODE_LOCKED,
}

} // verus!
