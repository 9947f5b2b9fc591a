//! Error values handed back to the system-call layer.

use vstd::prelude::*;

verus! {

/// The conditions under which an operation of this crate, or of one of its
/// collaborators, is refused.
#[allow(non_camel_case_types)]
#[derive(Clone, Copy, Debug, PartialEq, Eq, Structural)]
pub enum Errno {
    /// No such file or directory.
    ENOENT,
    /// Bad file descriptor.
    EBADF,
    /// The process has no child to wait for.
    ECHILD,
    /// The resource is not available yet.
    EAGAIN,
    /// No physical frame could be had.
    ENOMEM,
    /// Permission denied.
    EACCES,
    /// The address range is not mapped, or not with the permission asked for.
    EFAULT,
    /// Not a directory.
    ENOTDIR,
    /// Is a directory.
    EISDIR,
    /// Invalid argument.
    EINVAL,
    /// The system call is not implemented.
    ENOSYS,
}

impl Errno {
    /// The number under which user space knows this condition.
    pub open spec fn number(self) -> int {
        match self {
            Errno::ENOENT => 2,
            Errno::EBADF => 9,
            Errno::ECHILD => 10,
            Errno::EAGAIN => 11,
            Errno::ENOMEM => 12,
            Errno::EACCES => 13,
            Errno::EFAULT => 14,
            Errno::ENOTDIR => 20,
            Errno::EISDIR => 21,
            Errno::EINVAL => 22,
            Errno::ENOSYS => 38,
        }
    }
}

/// An error: the condition that caused it.
#[derive(Clone, Copy, Debug, PartialEq, Eq, Structural)]
pub struct Error {
    pub code: Errno,
}

impl Error {
    pub fn new(code: Errno) -> (e: Error)
        ensures
            e.code == code,
    {
        Error { code }
    }

    /// The positive number of the condition; the system-call layer hands its
    /// negation to user space.
    pub fn code(&self) -> (n: i32)
        ensures
            n == self.code.number(),
    {
        match self.code {
            Errno::ENOENT => 2,
            Errno::EBADF => 9,
            Errno::ECHILD => 10,
            Errno::EAGAIN => 11,
            Errno::ENOMEM => 12,
            Errno::EACCES => 13,
            Errno::EFAULT => 14,
            Errno::ENOTDIR => 20,
            Errno::EISDIR => 21,
            Errno::EINVAL => 22,
            Errno::ENOSYS => 38,
        }
    }
}

} // verus!
