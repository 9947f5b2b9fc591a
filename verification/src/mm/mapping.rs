//! One resident page.

use crate::mm::frame::{Frame, Vaddr, PAGE_SIZE};
use crate::mm::page_flags::PageFlags;
use vstd::prelude::*;

verus! {

/// One physical frame bound to one page of virtual memory, with the
/// permissions under which the page was last installed.
#[derive(Clone, Copy, Debug, PartialEq, Eq, Structural)]
pub struct VmMapping {
    /// The address at which the page starts.
    pub base_vaddr: Vaddr,
    /// The frame that backs the page.
    pub frame: Frame,
    /// The permissions under which the page was last installed.
    pub perms: PageFlags,
}

impl VmMapping {
    /// The address at which the page starts.
    pub open spec fn spec_base_vaddr(&self) -> Vaddr {
        self.base_vaddr
    }

    /// The frame that backs the page.
    pub open spec fn spec_frame(&self) -> Frame {
        self.frame
    }

    /// The cached permissions of the page.
    pub open spec fn spec_perms(&self) -> PageFlags {
        self.perms
    }

    /// Whether `vaddr` lies in the page.
    pub open spec fn spec_contains_vaddr(&self, vaddr: Vaddr) -> bool {
        self.base_vaddr() <= vaddr < self.base_vaddr() + PAGE_SIZE
    }

    /// Binds `frame` to the page that starts at `base_vaddr`.
    pub fn new(base_vaddr: Vaddr, perms: PageFlags, frame: Frame) -> (m: VmMapping)
        ensures
            m == (VmMapping { base_vaddr, frame, perms }),
    {
        VmMapping { base_vaddr, frame, perms }
    }

    /// Whether `vaddr` lies in the page.
    #[verifier::when_used_as_spec(spec_contains_vaddr)]
    pub fn contains_vaddr(&self, vaddr: Vaddr) -> (r: bool)
        ensures
            r == self.contains_vaddr(vaddr),
    {
        vaddr >= self.base_vaddr && vaddr - self.base_vaddr < PAGE_SIZE
    }

    /// The address at which the page starts.
    #[verifier::when_used_as_spec(spec_base_vaddr)]
    pub fn base_vaddr(&self) -> (r: Vaddr)
        ensures
            r == self.base_vaddr(),
    {
        self.base_vaddr
    }

    /// The cached permissions of the page.
    #[verifier::when_used_as_spec(spec_perms)]
    pub fn perms(&self) -> (r: PageFlags)
        ensures
            r == self.perms(),
    {
        self.perms
    }

    /// Clears the bits of `flag` in the cached permissions.
    pub fn remove_perm(&mut self, flag: PageFlags)
        ensures
            final(self).perms().bits() == old(self).perms().bits() & !flag.bits(),
            old(self).perms().wf() ==> final(self).perms().wf(),
            final(self).base_vaddr() == old(self).base_vaddr(),
            final(self).frame() == old(self).frame(),
    {
        self.perms.remove(flag);
    }

    /// Replaces the cached permissions.
    pub fn set_perms(&mut self, perms: PageFlags)
        ensures
            final(self).perms() == perms,
            final(self).base_vaddr() == old(self).base_vaddr(),
            final(self).frame() == old(self).frame(),
    {
        self.perms = perms;
    }

    /// The frame that backs the page.
    #[verifier::when_used_as_spec(spec_frame)]
    pub fn frame(&self) -> (r: Frame)
        ensures
            r == self.frame(),
    {
        self.frame
    }
}

} // verus!
