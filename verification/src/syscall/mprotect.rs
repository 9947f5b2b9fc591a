//! Changing the protection of mapped memory.

use crate::error::Error;
use crate::mm::page_flags::{PageFlags, R, W, X};
use crate::mm::MemorySpace;
use crate::syscall::SyscallReturn;
use vstd::prelude::*;

verus! {

/// The pages may not be accessed.
pub const PROT_NONE: usize = 0;

/// The pages may be read.
pub const PROT_READ: usize = 1;

/// The pages may be written.
pub const PROT_WRITE: usize = 2;

/// The pages may be executed.
pub const PROT_EXEC: usize = 4;

/// Puts the `len` bytes at `addr` under the protection `prot`, once the page
/// table has been told the same. `page_table` is what the page table
/// answered.
///
/// Where the page table refused, the call fails with `EINVAL` and nothing
/// changes. Else each area that the range touches is under the permissions
/// that `prot` stands for, and the result is 0.
pub fn sys_mprotect(
    addr: usize,
    len: usize,
    prot: usize,
    memory_space: &mut MemorySpace,
    page_table: Result<(), Error>,
) -> (r: Result<SyscallReturn, Error>)
    requires
        old(memory_space).wf(),
        addr + len <= usize::MAX,
    ensures
        final(memory_space).wf(),
        page_table is Err ==> r == Err::<SyscallReturn, Error>(Error { code: crate::error::Errno::EINVAL })
            && final(memory_space)@ == old(memory_space)@,
        page_table is Ok ==> {
            &&& r == Ok::<SyscallReturn, Error>(SyscallReturn(0))
            &&& final(memory_space).is_reprotected(*old(memory_space), addr, len, prot_flags(prot))
        },
{
    let new_flags = translate_prot_flags(prot);

    match memory_space.protect(addr, len, new_flags, page_table) {
        Ok(()) => {},
        Err(e) => {
            return Err(e);
        },
    }

    Ok(SyscallReturn(0))
}

/// The page permissions that the protection `prot` stands for: its three
/// low bits, which are `PROT_READ`, `PROT_WRITE` and `PROT_EXEC`, as the
/// permissions to read, write and execute.
pub open spec fn prot_flags(prot: usize) -> PageFlags {
    PageFlags::from_bits_truncate((prot & 7) as u8)
}

/// The page permissions that the protection `prot` stands for: readable,
/// writable and executable as `prot` holds `PROT_READ`, `PROT_WRITE` and
/// `PROT_EXEC`, and nothing else.
pub fn translate_prot_flags(prot: usize) -> (flags: PageFlags)
    ensures
        flags == prot_flags(prot),
        flags.bits() == prot & 7,
        flags.wf(),
        flags.readable() <==> prot & PROT_READ != 0,
        flags.writable() <==> prot & PROT_WRITE != 0,
{
    let mut flags = PageFlags::empty();
    if prot & PROT_READ != 0 {
        flags = flags.union(PageFlags::from_bits_truncate(R));
    }
    let ghost b1: u8 = flags.bits();
    if prot & PROT_WRITE != 0 {
        flags = flags.union(PageFlags::from_bits_truncate(W));
    }
    let ghost b2: u8 = flags.bits();
    if prot & PROT_EXEC != 0 {
        flags = flags.union(PageFlags::from_bits_truncate(X));
    }
    proof {
        let r: bool = prot & 1 != 0;
        let w: bool = prot & 2 != 0;
        let x: bool = prot & 4 != 0;
        let b3: u8 = flags.bits();
        let low: usize = prot & 7;
        assert(low == (if r { 1usize } else { 0 }) + (if w { 2usize } else { 0 }) + (if x { 4usize } else { 0 }))
            by (bit_vector)
            requires
                low == prot & 7,
                r == (prot & 1 != 0),
                w == (prot & 2 != 0),
                x == (prot & 4 != 0),
        ;
        assert(low < 8 && (low as u8) & 0x9fu8 == low as u8) by (bit_vector)
            requires
                low == prot & 7,
        ;
        PageFlags::lemma_from_bits_truncate(low as u8);
        PageFlags::lemma_bits_injective(flags, prot_flags(prot));
        assert(b3 == (if r { 1u8 } else { 0 }) + (if w { 2u8 } else { 0 }) + (if x { 4u8 } else { 0 })
            && (b3 & 1 == 1 <==> r) && (b3 & 2 == 2 <==> w)) by (bit_vector)
            requires
                b1 == (if r { 0u8 | (1u8 & 0x9fu8) } else { 0u8 }),
                b2 == (if w { b1 | (2u8 & 0x9fu8) } else { b1 }),
                b3 == (if x { b2 | (4u8 & 0x9fu8) } else { b2 }),
        ;
    }
    flags
}

} // verus!
