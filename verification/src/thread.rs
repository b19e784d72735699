//! Thread creation descriptors.
//!
//! Spawning, joining and detaching threads belong to the host at the edge of
//! the layer; what lives here is the plain-value description of a thread to
//! create, and the one rule the host imposes on it: a thread name crosses
//! the boundary as a C string, so it must hold no embedded zero byte.

use vstd::prelude::*;

verus! {

use crate::cstr::has_nul;
use crate::string::NSTDStr;

/// Describes the creation of a new thread.
pub struct NSTDThreadDescriptor {
    /// The name for the thread, if any. If present, it must not contain any
    /// zero bytes.
    pub name: Option<NSTDStr>,
    /// The number of bytes that the thread's stack should have; zero lets
    /// the host decide.
    pub stack_size: usize,
}

impl NSTDThreadDescriptor {
    /// Well-formedness: a named descriptor carries a valid string view.
    pub open spec fn wf(&self) -> bool {
        self.name matches Some(s) ==> s.wf()
    }
}

/// Returns whether a descriptor may be handed to the host: either it is
/// unnamed, or its name holds no embedded zero byte.
pub fn nstd_thread_descriptor_is_valid(desc: &NSTDThreadDescriptor) -> (r: bool)
    requires
        desc.wf(),
    ensures
        r <==> (desc.name matches Some(s) ==> !has_nul(s@)),
{
    match &desc.name {
        None => true,
        Some(name) => crate::cstr::nstd_core_cstr_raw_from_str(name).is_some(),
    }
}

} // verus!
