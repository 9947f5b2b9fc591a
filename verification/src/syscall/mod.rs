//! System calls: their numbers, what they hand back to user space, and the
//! calls that shape an address space.

pub mod mmap;
pub mod mprotect;
pub mod prlimit;

use crate::error::{Errno, Error};
use vstd::prelude::*;

verus! {

/// What a system call that succeeded hands to user space.
#[derive(Clone, Copy, Debug, PartialEq, Eq, Structural)]
pub struct SyscallReturn(pub isize);

pub const SYS_OPENAT: usize = 56;

pub const SYS_PIPE2: usize = 59;

pub const SYS_READ: usize = 63;

pub const SYS_WRITE: usize = 64;

pub const SYS_WRITEV: usize = 66;

pub const SYS_EXIT: usize = 93;

pub const SYS_EXIT_GROUP: usize = 94;

pub const SYS_CLOCK_GETTIME: usize = 113;

pub const SYS_SCHED_YIELD: usize = 124;

pub const SYS_REBOOT: usize = 142;

pub const SYS_NEWUNAME: usize = 160;

pub const SYS_GETPID: usize = 172;

pub const SYS_GETPPID: usize = 173;

pub const SYS_BRK: usize = 214;

pub const SYS_CLONE: usize = 220;

pub const SYS_EXECVE: usize = 221;

pub const SYS_MMAP: usize = 222;

pub const SYS_MPROTECT: usize = 226;

pub const SYS_WAIT4: usize = 260;

pub const SYS_PRLIMIT64: usize = 261;

/// The system calls that the kernel knows.
#[derive(Clone, Copy, Debug, PartialEq, Eq, Structural)]
pub enum Syscall {
    Openat,
    Pipe2,
    Read,
    Write,
    Writev,
    Exit,
    ClockGettime,
    SchedYield,
    Reboot,
    Newuname,
    Getpid,
    Getppid,
    Brk,
    Clone,
    Execve,
    Mmap,
    Mprotect,
    Wait4,
    Prlimit64,
}

impl Syscall {
    /// The system call with the number `number`, if the kernel knows one.
    /// Both ways to exit are the one call.
    pub open spec fn spec_from_number(number: usize) -> Option<Syscall> {
        if number == SYS_OPENAT {
            Some(Syscall::Openat)
        } else if number == SYS_PIPE2 {
            Some(Syscall::Pipe2)
        } else if number == SYS_READ {
            Some(Syscall::Read)
        } else if number == SYS_WRITE {
            Some(Syscall::Write)
        } else if number == SYS_WRITEV {
            Some(Syscall::Writev)
        } else if number == SYS_EXIT || number == SYS_EXIT_GROUP {
            Some(Syscall::Exit)
        } else if number == SYS_CLOCK_GETTIME {
            Some(Syscall::ClockGettime)
        } else if number == SYS_SCHED_YIELD {
            Some(Syscall::SchedYield)
        } else if number == SYS_REBOOT {
            Some(Syscall::Reboot)
        } else if number == SYS_NEWUNAME {
            Some(Syscall::Newuname)
        } else if number == SYS_GETPID {
            Some(Syscall::Getpid)
        } else if number == SYS_GETPPID {
            Some(Syscall::Getppid)
        } else if number == SYS_BRK {
            Some(Syscall::Brk)
        } else if number == SYS_CLONE {
            Some(Syscall::Clone)
        } else if number == SYS_EXECVE {
            Some(Syscall::Execve)
        } else if number == SYS_MMAP {
            Some(Syscall::Mmap)
        } else if number == SYS_MPROTECT {
            Some(Syscall::Mprotect)
        } else if number == SYS_WAIT4 {
            Some(Syscall::Wait4)
        } else if number == SYS_PRLIMIT64 {
            Some(Syscall::Prlimit64)
        } else {
            None
        }
    }

    /// The system call with the number `number`; `ENOSYS` if the kernel
    /// knows none.
    pub fn from_number(number: usize) -> (r: Result<Syscall, Error>)
        ensures
            r == match Self::spec_from_number(number) {
                Some(call) => Ok::<Syscall, Error>(call),
                None => Err::<Syscall, Error>(Error { code: Errno::ENOSYS }),
            },
    {
        match number {
            SYS_OPENAT => Ok(Syscall::Openat),
            SYS_PIPE2 => Ok(Syscall::Pipe2),
            SYS_READ => Ok(Syscall::Read),
            SYS_WRITE => Ok(Syscall::Write),
            SYS_WRITEV => Ok(Syscall::Writev),
            SYS_EXIT | SYS_EXIT_GROUP => Ok(Syscall::Exit),
            SYS_CLOCK_GETTIME => Ok(Syscall::ClockGettime),
            SYS_SCHED_YIELD => Ok(Syscall::SchedYield),
            SYS_REBOOT => Ok(Syscall::Reboot),
            SYS_NEWUNAME => Ok(Syscall::Newuname),
            SYS_GETPID => Ok(Syscall::Getpid),
            SYS_GETPPID => Ok(Syscall::Getppid),
            SYS_BRK => Ok(Syscall::Brk),
            SYS_CLONE => Ok(Syscall::Clone),
            SYS_EXECVE => Ok(Syscall::Execve),
            SYS_MMAP => Ok(Syscall::Mmap),
            SYS_MPROTECT => Ok(Syscall::Mprotect),
            SYS_WAIT4 => Ok(Syscall::Wait4),
            SYS_PRLIMIT64 => Ok(Syscall::Prlimit64),
            _ => Err(Error::new(Errno::ENOSYS)),
        }
    }
}

/// What goes into the result register for the outcome `ret` of a system
/// call: the value of a success, and for a failure the number of the error
/// taken from zero, in the arithmetic of the register.
pub open spec fn spec_return_value(ret: Result<SyscallReturn, Error>) -> usize {
    match ret {
        Ok(value) => if value.0 >= 0 {
            value.0 as usize
        } else {
            (usize::MAX + 1 + value.0) as usize
        },
        Err(e) => (usize::MAX + 1 - e.code.number()) as usize,
    }
}

/// What goes into the result register for the outcome `ret` of a system
/// call: the value of a success, and for a failure the number of the error
/// taken from zero, in the arithmetic of the register.
#[verifier::when_used_as_spec(spec_return_value)]
pub fn return_value(ret: Result<SyscallReturn, Error>) -> (a0: usize)
    ensures
        a0 == return_value(ret),
{
    match ret {
        Ok(value) => {
            let v: isize = value.0;
            if v >= 0 {
                v as usize
            } else {
                // The two's complement of a negative number.
                usize::MAX - ((-(v + 1)) as usize)
            }
        },
        Err(e) => usize::MAX - (e.code() as usize) + 1,
    }
}

/// The command that switches the machine off.
pub const RB_POWER_OFF: u32 = 0x4321FEDC;

/// What is to be done to the machine.
#[derive(Clone, Copy, Debug, PartialEq, Eq, Structural)]
pub enum Reboot {
    /// Switch it off.
    PowerOff,
}

/// Switches the machine off on the command `RB_POWER_OFF`; any other command
/// is refused with `EINVAL`.
pub fn sys_reboot(cmd: u32) -> (r: Result<Reboot, Error>)
    ensures
        r == if cmd == RB_POWER_OFF {
            Ok::<Reboot, Error>(Reboot::PowerOff)
        } else {
            Err::<Reboot, Error>(Error { code: Errno::EINVAL })
        },
{
    if cmd == RB_POWER_OFF {
        return Ok(Reboot::PowerOff);
    }
    Err(Error::new(Errno::EINVAL))
}

} // verus!
