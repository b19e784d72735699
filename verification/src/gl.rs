//! Plain-value descriptions of GPU frame acquisition outcomes.
//!
//! Acquiring and presenting frames belongs to the host's graphics stack at
//! the edge of the layer; this is the error vocabulary it reports in.

use vstd::prelude::*;

verus! {

/// Describes an error encountered while acquiring a window surface's next
/// frame.
#[derive(Clone, Copy, Debug, PartialEq, Eq, Structural)]
#[allow(non_camel_case_types)]
pub enum NSTDGLFrameError {
    /// A timeout was encountered while trying to acquire the next frame.
    NSTD_GL_FRAME_ERROR_TIMEOUT,
    /// The underlying surface has changed, and therefore the swap chain must
    /// be updated.
    NSTD_GL_FRAME_ERROR_OUTDATED,
    /// The swap chain has been lost and needs to be recreated.
    NSTD_GL_FRAME_ERROR_LOST,
    /// There is no memory left to allocate a new frame.
    NSTD_GL_FRAME_ERROR_OUT_OF_MEMORY,
}

} // verus!
