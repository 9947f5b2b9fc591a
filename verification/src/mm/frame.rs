//! Handles for physical page frames.
//!
//! The frames themselves belong to the frame allocator of the kernel. This
//! crate identifies a frame by its physical address and never looks inside.

use vstd::prelude::*;

verus! {

/// A virtual address.
pub type Vaddr = usize;

/// A physical address.
pub type Paddr = usize;

/// The size of a page, and of a frame, in bytes.
pub const PAGE_SIZE: usize = 4096;

/// One physical page frame, known by the address at which it starts.
#[derive(Clone, Copy, Debug, PartialEq, Eq, Structural)]
pub struct Frame {
    pub paddr: Paddr,
}

impl Frame {
    /// The address at which the frame starts.
    pub open spec fn spec_start_paddr(&self) -> Paddr {
        self.paddr
    }

    /// The handle of the frame that starts at `paddr`.
    pub fn new(paddr: Paddr) -> (f: Frame)
        ensures
            f.start_paddr() == paddr,
    {
        Frame { paddr }
    }

    /// The address at which the frame starts.
    #[verifier::when_used_as_spec(spec_start_paddr)]
    pub fn start_paddr(&self) -> (p: Paddr)
        ensures
            p == self.start_paddr(),
    {
        self.paddr
    }
}

/// A run of frames that follow one another in physical memory.
#[derive(Clone, Copy, Debug, PartialEq, Eq, Structural)]
pub struct Segment {
    start: Paddr,
    pages: usize,
}

impl Segment {
    /// The address at which the first frame starts.
    pub closed spec fn spec_start_paddr(&self) -> Paddr {
        self.start
    }

    /// The number of frames.
    pub closed spec fn spec_pages(&self) -> usize {
        self.pages
    }

    /// The address just behind the last frame fits in an address.
    pub open spec fn wf(&self) -> bool {
        self.start_paddr() + self.pages() * PAGE_SIZE <= usize::MAX
    }

    /// The frame with index `i`.
    pub open spec fn spec_frame(&self, i: usize) -> Frame
        recommends
            self.wf(),
            i < self.pages(),
    {
        Frame { paddr: (self.start_paddr() + i * PAGE_SIZE) as usize }
    }

    /// The run of `pages` frames of which the first starts at `start`, if its
    /// end fits in an address.
    pub fn new(start: Paddr, pages: usize) -> (r: Option<Segment>)
        ensures
            r is Some <==> start + pages * PAGE_SIZE <= usize::MAX,
            r matches Some(s) ==> s.wf() && s.start_paddr() == start && s.pages() == pages,
    {
        if pages <= (usize::MAX - start) / PAGE_SIZE {
            assert(start + pages * PAGE_SIZE <= usize::MAX) by (nonlinear_arith)
                requires
                    pages <= (usize::MAX - start) / (PAGE_SIZE as int),
                    PAGE_SIZE == 4096,
            ;
            Some(Segment { start, pages })
        } else {
            assert(start + pages * PAGE_SIZE > usize::MAX) by (nonlinear_arith)
                requires
                    pages > (usize::MAX - start) / (PAGE_SIZE as int),
                    PAGE_SIZE == 4096,
            ;
            None
        }
    }

    /// The address at which the first frame starts.
    #[verifier::when_used_as_spec(spec_start_paddr)]
    pub fn start_paddr(&self) -> (p: Paddr)
        ensures
            p == self.start_paddr(),
    {
        self.start
    }

    /// The number of frames.
    #[verifier::when_used_as_spec(spec_pages)]
    pub fn pages(&self) -> (n: usize)
        ensures
            n == self.pages(),
    {
        self.pages
    }

    /// The frame with index `i`.
    #[verifier::when_used_as_spec(spec_frame)]
    pub fn frame(&self, i: usize) -> (f: Frame)
        requires
            self.wf(),
            i < self.pages(),
        ensures
            f == self.frame(i),
            f.start_paddr() == self.start_paddr() + i * PAGE_SIZE,
    {
        assert(self.start + i * PAGE_SIZE <= self.start + self.pages * PAGE_SIZE) by (nonlinear_arith)
            requires
                i < self.pages,
                PAGE_SIZE == 4096,
        ;
        Frame { paddr: self.start + i * PAGE_SIZE }
    }
}

} // verus!
