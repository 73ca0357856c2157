//! Errors reported while decoding.
use vstd::prelude::*;

verus! {

/// Why an instruction could not be decoded.
#[derive(Debug, Clone, Copy, PartialEq, Eq, Structural)]
pub enum Error {
    /// The address lies outside the machine's memory.
    MemOutOfBound,
    /// The memory refused an execute access at the address.
    InvalidPermission,
    /// No instruction factory recognised the bits loaded at `pc`.
    InvalidInstruction { pc: u64, instruction: u32 },
}

} // verus!
