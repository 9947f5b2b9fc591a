//! Rounding of addresses and lengths to a power of two.

use align_ext::AlignExt;
use vstd::prelude::*;

verus! {

/// Whether `n` is a power of two, stated the way `align_ext` tests it: `n` is
/// not zero and shares no bit with `n - 1`.
pub open spec fn is_power_of_two(n: u64) -> bool {
    n != 0 && n & ((n - 1) as u64) == 0
}

/// The greatest multiple of `align` that is not above `n`.
pub open spec fn align_down(n: int, align: int) -> int {
    n - n % align
}

/// The least multiple of `align` that is not below `n`.
pub open spec fn align_up(n: int, align: int) -> int {
    align_down(n + align - 1, align)
}

/// Calls `<usize as align_ext::AlignExt>::align_down`. That method panics
/// unless `align` is a power of two and at least 2; for such an `align` it
/// clears the low bits of `n`, which leaves the greatest multiple of `align`
/// that is not above `n`.
#[verifier::external_body]
pub(crate) fn align_down_usize(n: usize, align: usize) -> (r: usize)
    requires
        is_power_of_two(align as u64),
        align >= 2,
    ensures
        r == align_down(n as int, align as int),
{
    n.align_down(align)
}

/// Calls `<u64 as align_ext::AlignExt>::align_down`, which behaves on `u64`
/// as the method above does on `usize`.
#[verifier::external_body]
pub(crate) fn align_down_u64(n: u64, align: u64) -> (r: u64)
    requires
        is_power_of_two(align),
        align >= 2,
    ensures
        r == align_down(n as int, align as int),
{
    n.align_down(align)
}

/// Calls `<usize as align_ext::AlignExt>::align_up`. That method panics
/// unless `align` is a power of two and at least 2, and when `n + align - 1`
/// does not fit in a `usize`; otherwise it adds `align - 1` and clears the
/// low bits, which gives the least multiple of `align` that is not below `n`.
#[verifier::external_body]
pub(crate) fn align_up_usize(n: usize, align: usize) -> (r: usize)
    requires
        is_power_of_two(align as u64),
        align >= 2,
        n + align - 1 <= usize::MAX,
    ensures
        r == align_up(n as int, align as int),
{
    n.align_up(align)
}

/// Calls `<u64 as align_ext::AlignExt>::align_up`, which behaves on `u64` as
/// the method above does on `usize`: it panics unless `align` is a power of
/// two and at least 2, and when `n + align - 1` does not fit in a `u64`;
/// otherwise it gives the least multiple of `align` that is not below `n`.
#[verifier::external_body]
pub(crate) fn align_up_u64(n: u64, align: u64) -> (r: u64)
    requires
        is_power_of_two(align),
        align >= 2,
        n + align - 1 <= u64::MAX,
    ensures
        r == align_up(n as int, align as int),
{
    n.align_up(align)
}

} // verus!
