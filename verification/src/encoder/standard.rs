//! The standard (iterated digest) scheme is not implemented in this core;
//! only its configuration exists, with the legacy default iteration count.

use vstd::prelude::*;

verus! {

/// Configuration of the standard scheme.
#[derive(Debug)]
pub struct StandardPasswordEncoder {
    pub iterations: u32,
}

impl Default for StandardPasswordEncoder {
    /// The legacy default of 1024 digest iterations.
    fn default() -> (r: StandardPasswordEncoder)
        ensures
            r.iterations == 1024,
    {
        StandardPasswordEncoder { iterations: 1024 }
    }
}

} // verus!
