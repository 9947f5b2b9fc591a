//! The decisions of a small kernel, apart from the machine that carries
//! them out.
//!
//! The heart of the crate is the demand-paging virtual-memory subsystem in
//! [`mm`]: address spaces made of memory areas, the policies that resolve
//! page faults in them, and what follows for the page table. Around it stand
//! the system calls that shape an address space ([`syscall`]), the process
//! tree ([`process`]), round-robin scheduling ([`sched`]), semaphores
//! ([`sem`]), and the layout of files in memory and on an ext2 disk
//! ([`fs`], [`drivers`]).
//!
//! Nothing here touches hardware. A function takes what the machine
//! reported (a trap, a frame that the allocator gave, the bytes of a disk
//! block) and says what the state of the kernel is afterwards and what is
//! left to do: which page to install on which frame, which sectors to read.

pub mod align;
pub mod drivers;
pub mod error;
pub mod fs;
pub mod mm;
pub mod process;
pub mod sched;
pub mod sem;
pub mod syscall;
