//! What the decoder needs of the machine's memory.
use vstd::prelude::*;

use crate::error::Error;

verus! {

/// Memory from which instructions are fetched.
///
/// Implementations describe their contents by the two spec functions; an
/// execute load gives what the matching spec function says, and leaves
/// what later execute loads give unchanged.
pub trait Memory: Sized {
    /// What a 16-bit execute load at `addr` gives.
    spec fn spec_execute_load16(&self, addr: u64) -> Result<u16, Error>;

    /// What a 32-bit execute load at `addr` gives.
    spec fn spec_execute_load32(&self, addr: u64) -> Result<u32, Error>;

    /// Loads the little-endian 16-bit value at `addr` for execution.
    fn execute_load16(&mut self, addr: u64) -> (r: Result<u16, Error>)
        ensures
            r == old(self).spec_execute_load16(addr),
            forall|x: u64|
                #![trigger final(self).spec_execute_load16(x)]
                #![trigger old(self).spec_execute_load16(x)]
                final(self).spec_execute_load16(x) == old(self).spec_execute_load16(x),
            forall|x: u64|
                #![trigger final(self).spec_execute_load32(x)]
                #![trigger old(self).spec_execute_load32(x)]
                final(self).spec_execute_load32(x) == old(self).spec_execute_load32(x),
    ;

    /// Loads the little-endian 32-bit value at `addr` for execution.
    fn execute_load32(&mut self, addr: u64) -> (r: Result<u32, Error>)
        ensures
            r == old(self).spec_execute_load32(addr),
            forall|x: u64|
                #![trigger final(self).spec_execute_load16(x)]
                #![trigger old(self).spec_execute_load16(x)]
                final(self).spec_execute_load16(x) == old(self).spec_execute_load16(x),
            forall|x: u64|
                #![trigger final(self).spec_execute_load32(x)]
                #![trigger old(self).spec_execute_load32(x)]
                final(self).spec_execute_load32(x) == old(self).spec_execute_load32(x),
    ;
}

/// Two memories from which every execute load gives the same result.
pub open spec fn same_fetches<M: Memory>(a: M, b: M) -> bool {
    &&& forall|x: u64|
        #![trigger a.spec_execute_load16(x)]
        #![trigger b.spec_execute_load16(x)]
        a.spec_execute_load16(x) == b.spec_execute_load16(x)
    &&& forall|x: u64|
        #![trigger a.spec_execute_load32(x)]
        #![trigger b.spec_execute_load32(x)]
        a.spec_execute_load32(x) == b.spec_execute_load32(x)
}

} // verus!
