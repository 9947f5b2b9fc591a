//! Resource limits.

use crate::error::{Errno, Error};
use crate::mm::frame::Vaddr;
use crate::syscall::SyscallReturn;
use vstd::prelude::*;

verus! {

/// The limit that is none.
pub const RLIM_INFINITY: u64 = u64::MAX;

/// The resource "size of the stack".
pub const RLIMIT_STACK: i32 = 3;

/// The resource "size of the address space".
pub const RLIMIT_AS: i32 = 9;

/// The size to which a stack may grow, in bytes.
pub const STACK_LIMIT: u64 = 8 * 1024 * 1024;

/// The limits of one resource: the one in force, and the highest to which
/// the process may raise it.
#[derive(Clone, Copy, Debug, PartialEq, Eq, Structural)]
pub struct RLimit64 {
    pub cur: u64,
    pub max: u64,
}

/// The limits of `resource`: 8 MiB for the stack, none for anything else.
pub open spec fn limit_of(resource: i32) -> RLimit64 {
    if resource == RLIMIT_STACK {
        RLimit64 { cur: STACK_LIMIT, max: STACK_LIMIT }
    } else {
        RLimit64 { cur: RLIM_INFINITY, max: RLIM_INFINITY }
    }
}

/// Reports the limits of `resource` for the calling process, which `pid` 0
/// stands for; any other `pid` is refused with `EINVAL`. No limit is set.
///
/// The result is 0, together with the limits that the caller is to store at
/// `old_limit` in user memory, if that address is not null.
pub fn sys_prlimit64(pid: i32, resource: i32, _new_limit: Vaddr, old_limit: Vaddr) -> (r: Result<
    (SyscallReturn, Option<RLimit64>),
    Error,
>)
    ensures
        pid != 0 ==> r == Err::<(SyscallReturn, Option<RLimit64>), Error>(Error { code: Errno::EINVAL }),
        pid == 0 ==> r == Ok::<(SyscallReturn, Option<RLimit64>), Error>(
            (
                SyscallReturn(0),
                if old_limit != 0 {
                    Some(limit_of(resource))
                } else {
                    None
                },
            ),
        ),
{
    if pid != 0 {
        return Err(Error::new(Errno::EINVAL));
    }
    let mut rlim = RLimit64 { cur: RLIM_INFINITY, max: RLIM_INFINITY };

    if resource == RLIMIT_STACK {
        rlim.cur = STACK_LIMIT;
        rlim.max = STACK_LIMIT;
    }
    let store = if old_limit != 0 {
        Some(rlim)
    } else {
        None
    };

    Ok((SyscallReturn(0), store))
}

} // verus!
