//! The policies that resolve a page fault.

use crate::error::{Errno, Error};
use crate::fs::InodeRef;
use crate::mm::frame::{Frame, Vaddr, PAGE_SIZE};
use crate::mm::mapping::VmMapping;
use crate::mm::page_flags::PageFlags;
use crate::syscall::mmap::MMapInodeFaultHandler;
use riscv::interrupt::supervisor::Exception;
use vstd::prelude::*;

verus! {

/// Makes `riscv::interrupt::supervisor::Exception` known: the causes of a
/// synchronous trap in supervisor mode. The type is an enum without fields,
/// and its variants are read from the `riscv` crate itself: nothing is
/// claimed of it here.
#[verifier::external_type_specification]
pub struct ExException(riscv::interrupt::supervisor::Exception);

/// The address at which the page of `vaddr` starts.
pub open spec fn page_base(vaddr: Vaddr) -> Vaddr {
    (vaddr - vaddr % PAGE_SIZE) as usize
}

/// Whether `vaddr` is the start of a page.
pub open spec fn is_page_aligned(vaddr: Vaddr) -> bool {
    vaddr % PAGE_SIZE == 0
}

/// What a policy is told of the fault that it is to resolve.
#[derive(Clone, Copy, Debug)]
pub struct PageFaultContext {
    /// The permission mask of the area in which the fault lies.
    pub perms: PageFlags,
    /// The address that was accessed.
    pub vaddr: Vaddr,
    /// The kind of access that failed.
    pub fault: Exception,
    /// The frame that the allocator gave for this fault, if it had one.
    pub frame: Option<Frame>,
}

/// What is left to do once a fault has been resolved: how the frame of the
/// new mapping is to be filled before the page-table entry is installed.
#[derive(Clone, Copy, Debug, PartialEq, Eq, Structural)]
pub enum FaultAction {
    /// The page was resident already. The frame that came with the fault was
    /// not used.
    AlreadyResident,
    /// Install `mapping`; its frame is to hold zeroes.
    MapZeroed { mapping: VmMapping },
    /// Install `mapping`; its frame is to hold the page of `inode` that
    /// starts `offset` bytes into the file.
    MapFile { mapping: VmMapping, inode: InodeRef, offset: usize },
}

impl FaultAction {
    /// The mapping that the action installs.
    pub open spec fn spec_mapping(&self) -> Option<VmMapping> {
        match *self {
            FaultAction::AlreadyResident => None,
            FaultAction::MapZeroed { mapping } => Some(mapping),
            FaultAction::MapFile { mapping, .. } => Some(mapping),
        }
    }

    /// The mapping that the action installs.
    #[verifier::when_used_as_spec(spec_mapping)]
    pub fn mapping(&self) -> (r: Option<VmMapping>)
        ensures
            r == self.mapping(),
    {
        match *self {
            FaultAction::AlreadyResident => None,
            FaultAction::MapZeroed { mapping } => Some(mapping),
            FaultAction::MapFile { mapping, .. } => Some(mapping),
        }
    }
}

/// How faults in an area are resolved.
#[derive(Clone, Copy, Debug, PartialEq, Eq, Structural)]
pub enum PageFaultHandler {
    /// No fault is resolved: the area is a hole.
    Default,
    /// A fault is resolved with a frame of zeroes.
    Allocation,
    /// A fault is resolved with a page of a file.
    MMapInode(MMapInodeFaultHandler),
}

impl PageFaultHandler {
    /// Whether the policy can be asked about `vaddr`: a file-backed policy
    /// covers no page below the address at which its file starts.
    pub open spec fn covers(&self, vaddr: Vaddr) -> bool {
        self matches PageFaultHandler::MMapInode(h) ==> h.covers(vaddr)
    }

    /// What the policy decides on a fault.
    pub open spec fn resolve(&self, context: PageFaultContext) -> Result<FaultAction, Error> {
        match *self {
            PageFaultHandler::Default => Err(Error { code: Errno::EFAULT }),
            PageFaultHandler::Allocation => match context.frame {
                None => Err(Error { code: Errno::ENOMEM }),
                Some(frame) => Ok(
                    FaultAction::MapZeroed {
                        mapping: VmMapping {
                            base_vaddr: page_base(context.vaddr),
                            frame,
                            perms: context.perms,
                        },
                    },
                ),
            },
            PageFaultHandler::MMapInode(h) => h.resolve(context),
        }
    }

    /// Resolves one fault. A policy that needs a frame fails with `ENOMEM`
    /// when the context brings none, and otherwise names the mapping of the
    /// faulting page onto that frame.
    pub fn handle_page_fault(&self, context: PageFaultContext) -> (r: Result<FaultAction, Error>)
        requires
            self.covers(context.vaddr),
        ensures
            r == self.resolve(context),
    {
        match self {
            PageFaultHandler::Default => Err(Error::new(Errno::EFAULT)),
            PageFaultHandler::Allocation => match context.frame {
                None => Err(Error::new(Errno::ENOMEM)),
                Some(frame) => {
                    let page = page_align_down(context.vaddr);
                    Ok(FaultAction::MapZeroed { mapping: VmMapping::new(page, context.perms, frame) })
                },
            },
            PageFaultHandler::MMapInode(h) => h.handle_page_fault(context),
        }
    }
}

/// The address at which the page of `vaddr` starts.
pub fn page_align_down(vaddr: Vaddr) -> (page: Vaddr)
    ensures
        page == page_base(vaddr),
        is_page_aligned(page),
        page <= vaddr < page + PAGE_SIZE,
{
    assert(crate::align::is_power_of_two(4096u64)) by (bit_vector);
    crate::align::align_down_usize(vaddr, PAGE_SIZE)
}

} // verus!
