//! Bounded access to user memory.

use crate::mm::frame::Vaddr;
use vstd::prelude::*;

verus! {

/// Leave to read the `len` bytes of user memory that start at `vaddr`.
#[derive(Clone, Copy, Debug, PartialEq, Eq, Structural)]
pub struct VmReader {
    pub vaddr: Vaddr,
    pub len: usize,
}

/// Leave to write the `len` bytes of user memory that start at `vaddr`.
#[derive(Clone, Copy, Debug, PartialEq, Eq, Structural)]
pub struct VmWriter {
    pub vaddr: Vaddr,
    pub len: usize,
}

} // verus!
