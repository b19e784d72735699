//! Foundation memory layer for a cross-language runtime.
//!
//! The crate provides three building blocks:
//!
//! - a stride-addressed dynamic byte array ([`vec::NSTDVec`]), the one
//!   growable buffer every other component is built on;
//! - a UTF-8 text buffer layered on a stride-1 array, whose committed bytes
//!   are valid UTF-8 by construction;
//! - a manually reference-counted shared allocation holding an opaque
//!   payload next to its embedded counter.
//!
//! Raw allocation, stream I/O, threading and windowing are collaborators at
//! the edge of the layer; only their plain-value descriptions live here.

use vstd::prelude::*;

pub mod cstr;
pub mod gl;
pub mod io;
pub mod shared_ptr;
pub mod string;
pub mod thread;
pub mod time;
pub mod utf8;
pub mod vec;
pub mod window;

verus! {

/// An operation status code: zero on success, nonzero on error.
pub type NSTDErrorCode = i32;

} // verus!
