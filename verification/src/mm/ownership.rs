//! Each resident page has a frame of its own.
//!
//! The frames come from the allocator of the kernel, which hands each out
//! once. This module states what follows for an address space: as long as
//! the frames that are handed to it are new to it, no frame backs two of its
//! pages.

use crate::mm::fault::FaultAction;
use crate::mm::frame::{Frame, Segment, Vaddr, PAGE_SIZE};
use crate::mm::page_flags::PageFlags;
use crate::mm::{fault_area, fault_outcome, fault_step, CpuExceptionInfo, MemorySpace};
use vstd::prelude::*;

verus! {

impl MemorySpace {
    /// Whether no frame backs two resident pages of the space.
    pub open spec fn frames_exclusive(&self) -> bool {
        forall|i: int, k: int, i2: int, k2: int|
            0 <= i < self@.len() && 0 <= k < self@[i].resident().len() && 0 <= i2 < self@.len() && 0 <= k2
                < self@[i2].resident().len() && (#[trigger] self@[i].resident()[k]).frame == (
            #[trigger] self@[i2].resident()[k2]).frame ==> i == i2 && k == k2
    }
}

/// Whether the frames in the lists `frames` are all different.
pub open spec fn all_different(frames: Seq<Vec<Frame>>) -> bool {
    forall|i: int, k: int, i2: int, k2: int|
        0 <= i < frames.len() && 0 <= k < frames[i]@.len() && 0 <= i2 < frames.len() && 0 <= k2
            < frames[i2]@.len() && #[trigger] frames[i]@[k] == #[trigger] frames[i2]@[k2] ==> i == i2 && k
            == k2
}

/// The frames of a run of frames are all different.
pub proof fn lemma_segment_frames_differ(frames: Segment, i: usize, j: usize)
    requires
        frames.wf(),
        i < frames.pages(),
        j < frames.pages(),
        i != j,
    ensures
        frames.frame(i) != frames.frame(j),
{
    assert(frames.start_paddr() + i * PAGE_SIZE <= frames.start_paddr() + frames.pages() * PAGE_SIZE)
        by (nonlinear_arith)
        requires
            i < frames.pages(),
    ;
    assert(frames.start_paddr() + j * PAGE_SIZE <= frames.start_paddr() + frames.pages() * PAGE_SIZE)
        by (nonlinear_arith)
        requires
            j < frames.pages(),
    ;
    assert(i * PAGE_SIZE != j * PAGE_SIZE);
}

/// A fault that comes with a frame that backs no page of the space leaves
/// each page with a frame of its own.
pub proof fn lemma_fault_keeps_frames_exclusive(
    before: MemorySpace,
    after: MemorySpace,
    cpu_exception: CpuExceptionInfo,
    frame: Option<Frame>,
    r: Result<FaultAction, ()>,
)
    requires
        before.wf(),
        before.frames_exclusive(),
        frame matches Some(f) ==> !before.holds_frame(f),
        fault_step(before, after, cpu_exception, frame, r),
    ensures
        after.frames_exclusive(),
{
    if fault_area(before, cpu_exception) is Some {
        let vaddr = cpu_exception.page_fault_addr;
        let w = choose|w: int| 0 <= w < before@.len() && (#[trigger] before@[w]).contains_vaddr(vaddr);
        before.lemma_covered_has_first(w, vaddr);
    }
    let target = fault_area(before, cpu_exception);
    // Each mapping of `after` is a mapping of `before` or holds `frame`.
    assert forall|i: int, k: int| 0 <= i < after@.len() && 0 <= k < after@[i].resident().len() implies {
        ||| (0 <= k < before@[i].resident().len() && #[trigger] after@[i].resident()[k]
            == before@[i].resident()[k])
        ||| (target == Some(i) && k == before@[i].resident().len() && frame == Some(
            after@[i].resident()[k].frame,
        ))
    } by {
        if target == Some(i) {
            let outcome = fault_outcome(before, cpu_exception, frame);
        } else {
            if target is None {
                assert(after@ == before@);
            }
            assert(after@[i] == before@[i]);
        }
    }
    assert forall|i: int, k: int, i2: int, k2: int|
        0 <= i < after@.len() && 0 <= k < after@[i].resident().len() && 0 <= i2 < after@.len() && 0 <= k2
            < after@[i2].resident().len() && (#[trigger] after@[i].resident()[k]).frame == (
        #[trigger] after@[i2].resident()[k2]).frame implies i == i2 && k == k2 by {
        let old1 = 0 <= k < before@[i].resident().len() && after@[i].resident()[k] == before@[i].resident()[k];
        let old2 = 0 <= k2 < before@[i2].resident().len() && after@[i2].resident()[k2]
            == before@[i2].resident()[k2];
        if old1 && old2 {
            assert(before@[i].resident()[k].frame == before@[i2].resident()[k2].frame);
        } else if old1 {
            assert(before.holds_frame(before@[i].resident()[k].frame));
        } else if old2 {
            assert(before.holds_frame(before@[i2].resident()[k2].frame));
        }
    }
}

/// An area that joins a space with frames of its own, none of which backs a
/// page of the space, leaves each page with a frame of its own.
pub proof fn lemma_new_area_keeps_frames_exclusive(before: MemorySpace, after: MemorySpace)
    requires
        before.frames_exclusive(),
        after@.len() == before@.len() + 1,
        after@.drop_last() == before@,
        forall|k: int|
            0 <= k < after@.last().resident().len() ==> !before.holds_frame(
                (#[trigger] after@.last().resident()[k]).frame,
            ),
        forall|j: int, k: int|
            0 <= j < k < after@.last().resident().len() ==> (#[trigger] after@.last().resident()[j]).frame != (
            #[trigger] after@.last().resident()[k]).frame,
    ensures
        after.frames_exclusive(),
{
    let n = before@.len() as int;
    assert forall|i: int| 0 <= i < n implies #[trigger] after@[i] == before@[i] by {
        assert(after@.drop_last()[i] == after@[i]);
    }
    assert forall|i: int, k: int, i2: int, k2: int|
        0 <= i < after@.len() && 0 <= k < after@[i].resident().len() && 0 <= i2 < after@.len() && 0 <= k2
            < after@[i2].resident().len() && (#[trigger] after@[i].resident()[k]).frame == (
        #[trigger] after@[i2].resident()[k2]).frame implies i == i2 && k == k2 by {
        if i < n {
            assert(after@[i] == before@[i]);
        } else {
            assert(after@[i] == after@.last());
        }
        if i2 < n {
            assert(after@[i2] == before@[i2]);
        } else {
            assert(after@[i2] == after@.last());
        }
        if i < n && i2 < n {
            assert(before@[i].resident()[k].frame == before@[i2].resident()[k2].frame);
        } else if i < n {
            assert(before.holds_frame(before@[i].resident()[k].frame));
            assert(!before.holds_frame(after@.last().resident()[k2].frame));
        } else if i2 < n {
            assert(before.holds_frame(before@[i2].resident()[k2].frame));
            assert(!before.holds_frame(after@.last().resident()[k].frame));
        } else {
            if k < k2 {
                assert(after@.last().resident()[k].frame != after@.last().resident()[k2].frame);
            }
            if k2 < k {
                assert(after@.last().resident()[k2].frame != after@.last().resident()[k].frame);
            }
        }
    }
}

/// The copy of a space onto frames that are all different gives each of its
/// pages a frame of its own.
pub proof fn lemma_duplicate_has_frames_exclusive(parent: MemorySpace, child: MemorySpace, frames: Seq<Vec<Frame>>)
    requires
        parent.matches_frames(frames),
        child.is_duplicate_of(parent, frames),
        all_different(frames),
    ensures
        child.frames_exclusive(),
{
    assert forall|i: int, k: int, i2: int, k2: int|
        0 <= i < child@.len() && 0 <= k < child@[i].resident().len() && 0 <= i2 < child@.len() && 0 <= k2
            < child@[i2].resident().len() && (#[trigger] child@[i].resident()[k]).frame == (
        #[trigger] child@[i2].resident()[k2]).frame implies i == i2 && k == k2 by {
        assert(child@[i].same_shape(parent@[i]));
        assert(child@[i2].same_shape(parent@[i2]));
        assert(child@[i].resident()[k].frame == frames[i]@[k]);
        assert(child@[i2].resident()[k2].frame == frames[i2]@[k2]);
    }
}

/// A change of protection leaves each page on its frame.
pub proof fn lemma_protect_keeps_frames_exclusive(
    before: MemorySpace,
    after: MemorySpace,
    vaddr: Vaddr,
    len: usize,
    perms: PageFlags,
)
    requires
        before.frames_exclusive(),
        after.is_reprotected(before, vaddr, len, perms),
    ensures
        after.frames_exclusive(),
{
    assert forall|i: int, k: int| 0 <= i < after@.len() && 0 <= k < after@[i].resident().len() implies 0 <= k
        < before@[i].resident().len() && (#[trigger] after@[i].resident()[k]).frame
        == before@[i].resident()[k].frame by {
        if before@[i].intersects(vaddr, len) {
            assert(after@[i].is_reprotected(before@[i], perms));
        } else {
            assert(after@[i] == before@[i]);
        }
    }
    assert forall|i: int, k: int, i2: int, k2: int|
        0 <= i < after@.len() && 0 <= k < after@[i].resident().len() && 0 <= i2 < after@.len() && 0 <= k2
            < after@[i2].resident().len() && (#[trigger] after@[i].resident()[k]).frame == (
        #[trigger] after@[i2].resident()[k2]).frame implies i == i2 && k == k2 by {
        assert(before@[i].resident()[k].frame == before@[i2].resident()[k2].frame);
    }
}

} // verus!
