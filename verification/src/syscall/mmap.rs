//! Mapping memory and files into an address space.

use crate::align::{align_down, align_down_u64, align_up, align_up_u64, is_power_of_two};
use crate::error::{Errno, Error};
use crate::fs::InodeRef;
use crate::mm::area::VmArea;
use crate::mm::fault::{page_align_down, page_base, FaultAction, PageFaultContext, PageFaultHandler};
use crate::mm::frame::{Vaddr, PAGE_SIZE};
use crate::mm::mapping::VmMapping;
use crate::mm::page_flags::PageFlags;
use crate::mm::MemorySpace;
use crate::syscall::SyscallReturn;
use vstd::prelude::*;

verus! {

/// Place the mapping exactly at the address given.
pub const MAP_FIXED: u32 = 0x10;

/// The mapping shows no file: its pages start as zeroes.
pub const MAP_ANONYMOUS: u32 = 0x20;

pub const MAP_32BIT: u32 = 0x40;

pub const MAP_GROWSDOWN: u32 = 0x100;

pub const MAP_DENYWRITE: u32 = 0x800;

pub const MAP_EXECUTABLE: u32 = 0x1000;

pub const MAP_LOCKED: u32 = 0x2000;

pub const MAP_NORESERVE: u32 = 0x4000;

pub const MAP_POPULATE: u32 = 0x8000;

pub const MAP_NONBLOCK: u32 = 0x10000;

pub const MAP_STACK: u32 = 0x20000;

pub const MAP_HUGETLB: u32 = 0x40000;

pub const MAP_SYNC: u32 = 0x80000;

pub const MAP_FIXED_NOREPLACE: u32 = 0x100000;

/// Every flag above.
pub const MAP_ALL: u32 = 0x1FF970;

/// The low bits of the flags word, which say with whom the mapping is shared.
pub const MAP_TYPE_MASK: u32 = 0x0f;

/// The mapping is private to the process: the one kind that is supported.
pub const MAP_PRIVATE: u32 = 0x02;

/// The flags of a mapping request, but for its sharing kind.
#[derive(Clone, Copy, Debug, PartialEq, Eq, Structural)]
pub struct MMapFlags {
    bits: u32,
}

impl MMapFlags {
    /// The flags as a number.
    pub closed spec fn spec_bits(&self) -> u32 {
        self.bits
    }

    /// Whether every bit of `flags` is set.
    pub open spec fn spec_contains(&self, flags: u32) -> bool {
        self.bits() & flags == flags
    }

    /// The flags of `bits` that are known; the other bits are dropped.
    pub fn from_bits_truncate(bits: u32) -> (r: MMapFlags)
        ensures
            r.bits() == bits & MAP_ALL,
    {
        MMapFlags { bits: bits & MAP_ALL }
    }

    /// The flags as a number.
    #[verifier::when_used_as_spec(spec_bits)]
    pub fn bits(&self) -> (r: u32)
        ensures
            r == self.bits(),
    {
        self.bits
    }

    /// Whether every bit of `flags` is set.
    #[verifier::when_used_as_spec(spec_contains)]
    pub fn contains(&self, flags: u32) -> (r: bool)
        ensures
            r == self.contains(flags),
    {
        self.bits & flags == flags
    }
}

/// Whether a request asks for an anonymous mapping.
pub open spec fn is_anonymous(flags: u32) -> bool {
    flags & MAP_ANONYMOUS == MAP_ANONYMOUS
}

/// Whether a request asks for a private mapping.
pub open spec fn is_private(flags: u32) -> bool {
    flags & MAP_TYPE_MASK == MAP_PRIVATE
}

/// Why a mapping request is refused, if it is: the address is neither zero nor
/// the start of a page, the mapping is not private, or it is to show a file
/// and the descriptor names none that can be mapped.
pub open spec fn mmap_error(vaddr: u64, flags: u32, file: Option<InodeRef>) -> Option<Errno> {
    if vaddr != 0 && vaddr % (PAGE_SIZE as u64) != 0 {
        Some(Errno::EINVAL)
    } else if !is_private(flags) {
        Some(Errno::EINVAL)
    } else if !is_anonymous(flags) && file is None {
        Some(Errno::EBADF)
    } else {
        None
    }
}

/// The number of pages that hold `length` bytes.
pub open spec fn pages_for(length: u64) -> int {
    align_up(length as int, PAGE_SIZE as int) / (PAGE_SIZE as int)
}

/// Whether the numbers of a request can be worked with on this machine. A
/// request that is refused for its address or its kind needs no numbers.
/// Any other has a length that can be rounded up to whole pages, and one
/// that is granted has a range that ends within the address space.
pub open spec fn mmap_fits(vaddr: u64, length: u64, flags: u32, file: Option<InodeRef>) -> bool {
    &&& (vaddr == 0 || vaddr % (PAGE_SIZE as u64) == 0) && is_private(flags) ==> length + PAGE_SIZE - 1
        <= u64::MAX
    &&& mmap_error(vaddr, flags, file) is None ==> vaddr + pages_for(length) * PAGE_SIZE <= usize::MAX
}

/// The area that a granted request adds.
pub open spec fn is_mmap_area(
    area: VmArea,
    vaddr: u64,
    length: u64,
    perms: u64,
    flags: u32,
    file: Option<InodeRef>,
) -> bool {
    &&& area.base_vaddr() == vaddr
    &&& area.pages() == pages_for(length)
    &&& area.perms() == PageFlags::from_bits_truncate((perms & 0xff) as u8)
    &&& area.page_fault_handler() == if is_anonymous(flags) {
        PageFaultHandler::Allocation
    } else {
        PageFaultHandler::MMapInode(MMapInodeFaultHandler { base_vaddr: vaddr as usize, inode: file.unwrap() })
    }
    &&& area.resident().len() == 0
}

/// The number that the bits of `value` stand for when they are read as a
/// signed number.
pub open spec fn spec_as_signed(value: usize) -> isize {
    if value <= isize::MAX {
        value as isize
    } else {
        (value - usize::MAX - 1) as isize
    }
}

/// The number that the bits of `value` stand for when they are read as a
/// signed number.
#[verifier::when_used_as_spec(spec_as_signed)]
pub fn as_signed(value: usize) -> (r: isize)
    ensures
        r == as_signed(value),
{
    if value <= isize::MAX as usize {
        value as isize
    } else {
        -((usize::MAX - value) as isize) - 1
    }
}

/// Maps `length` bytes at `vaddr` into `memory_space`, to show zeroes or,
/// without `MAP_ANONYMOUS`, the file `file` from its start.
///
/// `file` is what the descriptor of the request stands for, if it stands for
/// a file that can be mapped. `_offset` is not looked at.
///
/// A request that is granted adds one area behind the others: it starts at
/// `vaddr`, is as many pages long as hold `length` bytes, has the bits of
/// `perms` that are page permissions, and has no page resident. The result
/// is `vaddr`, as a signed number.
pub fn sys_mmap(
    vaddr: u64,
    length: u64,
    perms: u64,
    flags: u32,
    file: Option<InodeRef>,
    _offset: u64,
    memory_space: &mut MemorySpace,
) -> (r: Result<SyscallReturn, Error>)
    requires
        old(memory_space).wf(),
        mmap_fits(vaddr, length, flags, file),
    ensures
        final(memory_space).wf(),
        match mmap_error(vaddr, flags, file) {
            Some(code) => {
                &&& r == Err::<SyscallReturn, Error>(Error { code })
                &&& final(memory_space)@ == old(memory_space)@
            },
            None => {
                &&& r == Ok::<SyscallReturn, Error>(SyscallReturn(as_signed(vaddr as usize)))
                &&& final(memory_space)@.len() == old(memory_space)@.len() + 1
                &&& final(memory_space)@.drop_last() == old(memory_space)@
                &&& is_mmap_area(final(memory_space)@.last(), vaddr, length, perms, flags, file)
            },
        },
{
    assert(is_power_of_two(4096u64)) by (bit_vector);
    // Check vaddr alignment
    if vaddr != 0 && align_down_u64(vaddr, PAGE_SIZE as u64) != vaddr {
        return Err(Error::new(Errno::EINVAL));
    }
    // Only private mappings are supported.
    if (flags & MAP_TYPE_MASK) != MAP_PRIVATE {
        return Err(Error::new(Errno::EINVAL));
    }
    let mmap_flags = MMapFlags::from_bits_truncate(flags);
    let low: u64 = perms & 0xff;
    assert(low < 256) by (bit_vector)
        requires
            low == perms & 0xff,
    ;
    let page_flags = PageFlags::from_bits_truncate(low as u8);
    let pages = (align_up_u64(length, PAGE_SIZE as u64) / (PAGE_SIZE as u64)) as usize;

    assert((flags & MAP_ALL) & MAP_ANONYMOUS == MAP_ANONYMOUS <==> flags & MAP_ANONYMOUS == MAP_ANONYMOUS)
        by (bit_vector);
    let handler = if mmap_flags.contains(MAP_ANONYMOUS) {
        PageFaultHandler::Allocation
    } else {
        let inode = match file {
            Some(inode) => inode,
            None => {
                return Err(Error::new(Errno::EBADF));
            },
        };
        PageFaultHandler::MMapInode(MMapInodeFaultHandler { base_vaddr: vaddr as usize, inode })
    };

    let ghost before = memory_space@;
    memory_space.add_area(VmArea::new_with_handler(vaddr as usize, pages, page_flags, handler));
    assert(memory_space@.drop_last() =~= before);

    Ok(SyscallReturn(as_signed(vaddr as usize)))
}

/// The policy of an area that shows a file: a fault brings in the page of
/// the file that lies as far from its start as the faulting page lies from
/// `base_vaddr`.
#[derive(Clone, Copy, Debug, PartialEq, Eq, Structural)]
pub struct MMapInodeFaultHandler {
    /// The address at which the file starts: the base of the area.
    pub base_vaddr: Vaddr,
    /// The file.
    pub inode: InodeRef,
}

impl MMapInodeFaultHandler {
    /// Whether the page of `vaddr` lies at or behind the start of the file.
    pub open spec fn covers(&self, vaddr: Vaddr) -> bool {
        self.base_vaddr <= page_base(vaddr)
    }

    /// What the policy decides on a fault.
    pub open spec fn resolve(&self, context: PageFaultContext) -> Result<FaultAction, Error> {
        match context.frame {
            None => Err(Error { code: Errno::ENOMEM }),
            Some(frame) => Ok(
                FaultAction::MapFile {
                    mapping: VmMapping {
                        base_vaddr: page_base(context.vaddr),
                        frame,
                        perms: context.perms,
                    },
                    inode: self.inode,
                    offset: (page_base(context.vaddr) - self.base_vaddr) as usize,
                },
            ),
        }
    }

    /// Resolves one fault: fails with `ENOMEM` when the context brings no
    /// frame, and otherwise maps the faulting page onto the frame and names
    /// the page of the file that the frame is to hold.
    pub fn handle_page_fault(&self, context: PageFaultContext) -> (r: Result<FaultAction, Error>)
        requires
            self.covers(context.vaddr),
        ensures
            r == self.resolve(context),
    {
        match context.frame {
            None => Err(Error::new(Errno::ENOMEM)),
            Some(frame) => {
                let page = page_align_down(context.vaddr);
                Ok(
                    FaultAction::MapFile {
                        mapping: VmMapping::new(page, context.perms, frame),
                        inode: self.inode,
                        offset: page - self.base_vaddr,
                    },
                )
            },
        }
    }
}

} // verus!
