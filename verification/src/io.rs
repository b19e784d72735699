//! Standard-stream error codes and the stream flushing edge.
//!
//! Stream reads and writes are I/O at the edge of the layer; the library
//! defines the error vocabulary they report in, and the one flushing entry
//! point whose outcome is folded into that vocabulary.

use vstd::prelude::*;

verus! {

/// An error code for a standard-stream operation.
#[derive(Clone, Copy, Debug, PartialEq, Eq, Structural)]
#[allow(non_camel_case_types)]
pub enum NSTDIOError {
    /// No error occurred.
    NSTD_IO_ERROR_NONE,
    /// An entity, such as a file, was not found.
    NSTD_IO_ERROR_NOT_FOUND,
    /// The operation lacked the permissions it needed.
    NSTD_IO_ERROR_PERMISSION_DENIED,
    /// A connection was refused by the remote end.
    NSTD_IO_ERROR_CONNECTION_REFUSED,
    /// A connection was reset by the remote end.
    NSTD_IO_ERROR_CONNECTION_RESET,
    /// There is no connection.
    NSTD_IO_ERROR_NO_CONNECTION,
    /// A pipe was closed on the other end.
    NSTD_IO_ERROR_BROKEN_PIPE,
    /// An input parameter was incorrect.
    NSTD_IO_ERROR_INVALID_INPUT,
    /// The operation met malformed input data.
    NSTD_IO_ERROR_INVALID_DATA,
    /// The operation ran out of time.
    NSTD_IO_ERROR_TIMED_OUT,
    /// A write returned without accepting any bytes.
    NSTD_IO_ERROR_WRITE_ZERO,
    /// The stream ended before the operation could finish.
    NSTD_IO_ERROR_UNEXPECTED_EOF,
    /// The operation could not allocate the memory it needed.
    NSTD_IO_ERROR_OUT_OF_MEMORY,
    /// The operation was interrupted and may be retried.
    NSTD_IO_ERROR_INTERRUPTED,
    /// The operation would need to block to complete.
    NSTD_IO_ERROR_BLOCKING,
    /// The operation is unsupported on the host.
    NSTD_IO_ERROR_UNSUPPORTED,
    /// An I/O error not covered by the other codes.
    NSTD_IO_ERROR_UNEXPECTED,
}

/// The handle type of the host's standard output stream.
#[verifier::external_type_specification]
#[verifier::external_body]
pub struct ExStdout(std::io::Stdout);

/// Relies on `std::io::Write::flush` for `std::io::Stdout`: the host flushes
/// the stream's buffer, and the wrapper reports whether that succeeded.
/// Nothing is promised of the outcome, which is the host's to decide.
#[verifier::external_body]
fn stdout_flush(stream: &mut std::io::Stdout) -> bool {
    std::io::Write::flush(stream).is_ok()
}

/// Flushes a standard output stream handle: `NSTD_IO_ERROR_NONE` when the
/// host reports a successful flush and `NSTD_IO_ERROR_UNEXPECTED` when it
/// reports a failed one.
pub fn flush(stream: &mut std::io::Stdout) -> (r: NSTDIOError)
    ensures
        r == NSTDIOError::NSTD_IO_ERROR_NONE || r == NSTDIOError::NSTD_IO_ERROR_UNEXPECTED,
{
    if stdout_flush(stream) {
        NSTDIOError::NSTD_IO_ERROR_NONE
    } else {
        NSTDIOError::NSTD_IO_ERROR_UNEXPECTED
    }
}

} // verus!
