//! Address spaces, their areas and resident pages.

pub mod area;
pub mod fault;
pub mod frame;
pub mod io;
pub mod mapping;
pub mod ownership;
pub mod page_flags;
pub mod page_table;

use crate::error::{Errno, Error};
use crate::mm::area::VmArea;
use crate::mm::fault::{page_align_down, page_base, FaultAction};
use crate::mm::frame::{Frame, Segment, Vaddr, PAGE_SIZE};
use crate::mm::io::{VmReader, VmWriter};
use crate::mm::mapping::VmMapping;
use crate::mm::page_flags::PageFlags;
use riscv::interrupt::supervisor::Exception;
use vstd::prelude::*;

verus! {

/// What the trap layer reports of an exception that user code raised.
#[derive(Clone, Copy, Debug)]
pub struct CpuExceptionInfo {
    /// The cause of the trap.
    pub code: Exception,
    /// The address whose access failed, where the cause is a page fault.
    pub page_fault_addr: Vaddr,
}

impl CpuExceptionInfo {
    /// The cause of the trap.
    pub fn cpu_exception(&self) -> (e: Exception)
        ensures
            e == self.code,
    {
        self.code
    }
}

/// Whether `code` is one of the three page faults: of an instruction fetch,
/// of a load, of a store.
pub open spec fn spec_is_page_fault(code: Exception) -> bool {
    code is InstructionPageFault || code is LoadPageFault || code is StorePageFault
}

/// Whether `code` is one of the three page faults: of an instruction fetch,
/// of a load, of a store.
#[verifier::when_used_as_spec(spec_is_page_fault)]
pub fn is_page_fault(code: Exception) -> (r: bool)
    ensures
        r == is_page_fault(code),
{
    match code {
        Exception::InstructionPageFault | Exception::LoadPageFault | Exception::StorePageFault => true,
        _ => false,
    }
}

/// The address space of one process: its areas, in the order in which they
/// were added.
#[derive(Debug)]
pub struct MemorySpace {
    areas: Vec<VmArea>,
}

impl View for MemorySpace {
    type V = Seq<VmArea>;

    /// The areas, in the order in which they were added.
    closed spec fn view(&self) -> Seq<VmArea> {
        self.areas@
    }
}

impl MemorySpace {
    /// Whether some area holds `vaddr`.
    pub open spec fn covered(&self, vaddr: Vaddr) -> bool {
        exists|i: int| 0 <= i < self@.len() && (#[trigger] self@[i]).contains_vaddr(vaddr)
    }

    /// Whether area `i` is the first that holds `vaddr`.
    pub open spec fn is_first_covering(&self, i: int, vaddr: Vaddr) -> bool {
        &&& 0 <= i < self@.len()
        &&& self@[i].contains_vaddr(vaddr)
        &&& forall|j: int| 0 <= j < i ==> !(#[trigger] self@[j]).contains_vaddr(vaddr)
    }

    /// The first area that holds `vaddr`: the one that answers for it.
    pub open spec fn first_covering(&self, vaddr: Vaddr) -> Option<int> {
        if self.covered(vaddr) {
            Some(choose|i: int| self.is_first_covering(i, vaddr))
        } else {
            None
        }
    }

    /// Whether the byte at `vaddr` may be read or, with `write`, written: the
    /// area that answers for it says so.
    pub open spec fn permits(&self, vaddr: Vaddr, write: bool) -> bool {
        match self.first_covering(vaddr) {
            Some(i) => if write {
                self@[i].perms().writable()
            } else {
                self@[i].perms().readable()
            },
            None => false,
        }
    }

    /// Whether each of the `len` bytes from `vaddr` may be read or, with
    /// `write`, written.
    pub open spec fn permits_range(&self, vaddr: Vaddr, len: usize, write: bool) -> bool {
        &&& vaddr + len <= usize::MAX
        &&& forall|v: Vaddr| vaddr <= v < vaddr + len ==> self.permits(v, write)
    }

    /// Whether `frame` backs a resident page of the space.
    pub open spec fn holds_frame(&self, frame: Frame) -> bool {
        exists|i: int, k: int|
            0 <= i < self@.len() && 0 <= k < self@[i].resident().len() && (
            #[trigger] self@[i].resident()[k]).frame == frame
    }

    /// Whether `frames` brings one frame for each resident page of the
    /// space: a list for each area, as long as the list of its resident pages.
    pub open spec fn matches_frames(&self, frames: Seq<Vec<Frame>>) -> bool {
        &&& frames.len() == self@.len()
        &&& forall|i: int| 0 <= i < self@.len() ==> (#[trigger] frames[i])@.len() == self@[i].resident().len()
    }

    /// Whether this space is the copy of `parent` onto `frames`: the same
    /// areas in the same order, and in each the same pages resident in the
    /// same order, page `k` of area `i` on frame `k` of list `i`, under the
    /// permissions of the area.
    pub open spec fn is_duplicate_of(&self, parent: MemorySpace, frames: Seq<Vec<Frame>>) -> bool {
        &&& self@.len() == parent@.len()
        &&& forall|i: int|
            0 <= i < parent@.len() ==> {
                &&& (#[trigger] self@[i]).same_shape(parent@[i])
                &&& self@[i].resident() == Seq::new(
                    parent@[i].resident().len(),
                    |k: int|
                        VmMapping {
                            base_vaddr: parent@[i].resident()[k].base_vaddr,
                            frame: frames[i]@[k],
                            perms: parent@[i].perms(),
                        },
                )
            }
    }

    /// Whether this space is `before` with the `len` bytes from `vaddr` put
    /// under `perms`: each area that has something in common with the range
    /// is under `perms` as a whole, and the others are as they were.
    pub open spec fn is_reprotected(&self, before: MemorySpace, vaddr: Vaddr, len: usize, perms: PageFlags) -> bool {
        &&& self@.len() == before@.len()
        &&& forall|i: int|
            0 <= i < before@.len() ==> if (#[trigger] before@[i]).intersects(vaddr, len) {
                self@[i].is_reprotected(before@[i], perms)
            } else {
                self@[i] == before@[i]
            }
    }

    /// The invariant of an address space: each area is well formed, and a
    /// page is resident only in the area that answers for it.
    pub open spec fn wf(&self) -> bool {
        &&& forall|i: int| 0 <= i < self@.len() ==> (#[trigger] self@[i]).wf()
        &&& forall|i: int, k: int|
            0 <= i < self@.len() && 0 <= k < self@[i].resident().len() ==> self.is_first_covering(
                i,
                #[trigger] self@[i].resident()[k].base_vaddr,
            )
    }

    /// At most one area is the first that holds an address, and where one
    /// holds it `first_covering` names that area.
    pub proof fn lemma_first_covering(&self, i: int, vaddr: Vaddr)
        requires
            self.is_first_covering(i, vaddr),
        ensures
            self.first_covering(vaddr) == Some(i),
    {
        let j = choose|j: int| self.is_first_covering(j, vaddr);
        assert(self.is_first_covering(j, vaddr));
        if j < i {
            assert(!self@[j].contains_vaddr(vaddr));
        }
        if i < j {
            assert(!self@[i].contains_vaddr(vaddr));
        }
    }

    /// An address that an area holds has a first area that holds it.
    pub proof fn lemma_covered_has_first(&self, i: int, vaddr: Vaddr)
        requires
            0 <= i < self@.len(),
            self@[i].contains_vaddr(vaddr),
        ensures
            self.covered(vaddr),
            self.first_covering(vaddr) is Some,
            self.is_first_covering(self.first_covering(vaddr).unwrap(), vaddr),
        decreases i,
    {
        if exists|j: int| 0 <= j < i && (#[trigger] self@[j]).contains_vaddr(vaddr) {
            let j = choose|j: int| 0 <= j < i && (#[trigger] self@[j]).contains_vaddr(vaddr);
            self.lemma_covered_has_first(j, vaddr);
        } else {
            assert(self.is_first_covering(i, vaddr));
            self.lemma_first_covering(i, vaddr);
        }
    }

    /// One area answers for all the addresses of a page.
    pub proof fn lemma_page_uniform(&self, vaddr: Vaddr)
        requires
            self.wf(),
        ensures
            self.first_covering(vaddr) == self.first_covering(page_base(vaddr)),
            forall|write: bool| self.permits(vaddr, write) == self.permits(page_base(vaddr), write),
    {
        let page = page_base(vaddr);
        assert forall|j: int| 0 <= j < self@.len() implies (#[trigger] self@[j]).contains_vaddr(vaddr)
            == self@[j].contains_vaddr(page) by {
            self@[j].lemma_holds_whole_pages(vaddr);
        }
        if self.covered(vaddr) {
            let i = choose|i: int| 0 <= i < self@.len() && (#[trigger] self@[i]).contains_vaddr(vaddr);
            self.lemma_covered_has_first(i, vaddr);
            let f = self.first_covering(vaddr).unwrap();
            assert(self.is_first_covering(f, page));
            self.lemma_first_covering(f, page);
        } else {
            if self.covered(page) {
                let i = choose|i: int| 0 <= i < self@.len() && (#[trigger] self@[i]).contains_vaddr(page);
                assert(self@[i].contains_vaddr(vaddr));
            }
        }
    }

    /// An address space without areas.
    pub fn new() -> (space: MemorySpace)
        ensures
            space.wf(),
            space@ == Seq::<VmArea>::empty(),
    {
        MemorySpace { areas: Vec::new() }
    }

    /// The areas, in the order in which they were added.
    pub fn areas(&self) -> (r: &Vec<VmArea>)
        ensures
            r@ == self@,
    {
        &self.areas
    }

    /// Whether `area` may join the space with the pages that are resident in
    /// it: no area of the space holds one of them.
    pub open spec fn admits(&self, area: VmArea) -> bool {
        forall|j: int, k: int|
            0 <= j < self@.len() && 0 <= k < area.resident().len() ==> !(#[trigger] self@[j]).contains_vaddr(
                (#[trigger] area.resident()[k]).base_vaddr,
            )
    }

    /// Whether `area` shares an address with an area of the space.
    pub open spec fn overlaps(&self, area: VmArea) -> bool {
        exists|j: int| 0 <= j < self@.len() && (#[trigger] self@[j]).overlaps(area)
    }

    /// Adds `area` behind the others. No page-table entry is made: the pages
    /// of the area come in as they fault.
    pub fn add_area(&mut self, area: VmArea)
        requires
            old(self).wf(),
            area.wf(),
            old(self).admits(area),
        ensures
            final(self).wf(),
            final(self)@ == old(self)@.push(area),
    {
        self.areas.push(area);
        proof {
            let before = old(self)@;
            let after = self@;
            assert forall|i: int, k: int|
                0 <= i < after.len() && 0 <= k < after[i].resident().len() implies self.is_first_covering(
                i,
                #[trigger] after[i].resident()[k].base_vaddr,
            ) by {
                let page = after[i].resident()[k].base_vaddr;
                if i < before.len() {
                    assert(after[i] == before[i]);
                    assert(old(self).is_first_covering(i, before[i].resident()[k].base_vaddr));
                    assert forall|j: int| 0 <= j < i implies !(#[trigger] after[j]).contains_vaddr(page) by {
                        assert(after[j] == before[j]);
                    }
                } else {
                    assert(after[i] == area);
                    assert(area.wf());
                    assert forall|j: int| 0 <= j < i implies !(#[trigger] after[j]).contains_vaddr(page) by {
                        assert(after[j] == before[j]);
                    }
                }
            }
        }
    }

    /// Adds `area` with every page of it resident: page `i` of the area on
    /// frame `i` of `frames`, under the permissions of the area. Hands
    /// `frames` back.
    ///
    /// The area brings no resident page of its own and shares no address with
    /// an area of the space: a page can be installed only once.
    pub fn map(&mut self, area: VmArea, frames: Segment) -> (r: Segment)
        requires
            old(self).wf(),
            area.wf(),
            area.resident().len() == 0,
            frames.wf(),
            frames.pages() == area.pages(),
            !old(self).overlaps(area),
        ensures
            final(self).wf(),
            r == frames,
            final(self)@.len() == old(self)@.len() + 1,
            final(self)@.drop_last() == old(self)@,
            final(self)@.last().same_shape(area),
            final(self)@.last().resident() == Seq::new(
                area.pages() as nat,
                |i: int|
                    VmMapping {
                        base_vaddr: (area.base_vaddr() + i * PAGE_SIZE) as usize,
                        frame: frames.frame(i as usize),
                        perms: area.perms(),
                    },
            ),
    {
        let mut area = area;
        let ghost shape = area;
        let pages: usize = area.pages();
        let mut i: usize = 0;
        while i < pages
            invariant
                i <= pages,
                pages == shape.pages(),
                shape.wf(),
                area.wf(),
                area.same_shape(shape),
                frames.wf(),
                frames.pages() == pages,
                area.resident() == Seq::new(
                    i as nat,
                    |k: int|
                        VmMapping {
                            base_vaddr: (shape.base_vaddr() + k * PAGE_SIZE) as usize,
                            frame: frames.frame(k as usize),
                            perms: shape.perms(),
                        },
                ),
            decreases pages - i,
        {
            assert(area.base_vaddr() + i * PAGE_SIZE + PAGE_SIZE <= area.end()) by (nonlinear_arith)
                requires
                    i < area.pages(),
                    area.end() == area.base_vaddr() + area.pages() * PAGE_SIZE,
                    PAGE_SIZE == 4096,
            ;
            let vaddr: usize = area.base_vaddr() + i * PAGE_SIZE;
            let mapping = VmMapping::new(vaddr, area.perms(), frames.frame(i));
            proof {
                assert(!area.is_resident(vaddr)) by {
                    assert forall|k: int| 0 <= k < area.resident().len() implies (
                    #[trigger] area.resident()[k]).base_vaddr != vaddr by {
                        assert(area.resident()[k].base_vaddr == shape.base_vaddr() + k * PAGE_SIZE);
                    }
                }
            }
            let ghost before = area.resident();
            area.add_mapping(mapping);
            i += 1;
            assert(area.resident() =~= Seq::new(
                i as nat,
                |k: int|
                    VmMapping {
                        base_vaddr: (shape.base_vaddr() + k * PAGE_SIZE) as usize,
                        frame: frames.frame(k as usize),
                        perms: shape.perms(),
                    },
            ));
        }
        proof {
            assert forall|j: int, k: int|
                0 <= j < self@.len() && 0 <= k < area.resident().len() implies !(#[trigger] self@[j]).contains_vaddr(
                (#[trigger] area.resident()[k]).base_vaddr,
            ) by {
                assert(!self@[j].overlaps(shape));
                assert(area.contains_vaddr(area.resident()[k].base_vaddr));
            }
        }
        let ghost before = self@;
        self.add_area(area);
        assert(self@.drop_last() =~= before);
        frames
    }

    /// The copy of this space onto `frames`, made when a process forks. The
    /// caller fills each new frame with the bytes of the frame that backs the
    /// same page here and installs the new mappings in a page table of their
    /// own, so that neither process sees what the other writes.
    pub fn duplicate(&self, frames: &Vec<Vec<Frame>>) -> (child: MemorySpace)
        requires
            self.wf(),
            self.matches_frames(frames@),
        ensures
            child.wf(),
            child.is_duplicate_of(*self, frames@),
    {
        let mut new_memory_space = MemorySpace::new();
        let n: usize = self.areas.len();
        let mut i: usize = 0;
        while i < n
            invariant
                i <= n,
                n == self@.len(),
                self.wf(),
                self.matches_frames(frames@),
                new_memory_space.wf(),
                new_memory_space@.len() == i,
                forall|a: int|
                    0 <= a < i ==> {
                        &&& (#[trigger] new_memory_space@[a]).same_shape(self@[a])
                        &&& new_memory_space@[a].resident() == Seq::new(
                            self@[a].resident().len(),
                            |k: int|
                                VmMapping {
                                    base_vaddr: self@[a].resident()[k].base_vaddr,
                                    frame: frames@[a]@[k],
                                    perms: self@[a].perms(),
                                },
                        )
                    },
            decreases n - i,
        {
            let area = &self.areas[i];
            assert(area.wf());
            let mut new_area = VmArea::new_with_handler(
                area.base_vaddr(),
                area.pages(),
                area.perms(),
                area.page_fault_handler(),
            );
            let old_mappings = area.mappings();
            let new_frames = &frames[i];
            let m: usize = old_mappings.len();
            let mut k: usize = 0;
            while k < m
                invariant
                    k <= m,
                    m == old_mappings@.len(),
                    old_mappings@ == area.resident(),
                    new_frames@.len() == m,
                    area.wf(),
                    new_area.wf(),
                    new_area.same_shape(*area),
                    new_area.resident() == Seq::new(
                        k as nat,
                        |j: int|
                            VmMapping {
                                base_vaddr: area.resident()[j].base_vaddr,
                                frame: new_frames@[j],
                                perms: area.perms(),
                            },
                    ),
                decreases m - k,
            {
                let old_mapping = old_mappings[k];
                let new_frame = new_frames[k];
                let mapping = VmMapping::new(old_mapping.base_vaddr(), new_area.perms(), new_frame);
                proof {
                    assert(!new_area.is_resident(mapping.base_vaddr)) by {
                        assert forall|j: int| 0 <= j < new_area.resident().len() implies (
                        #[trigger] new_area.resident()[j]).base_vaddr != mapping.base_vaddr by {
                            assert(area.resident()[j].base_vaddr != area.resident()[k as int].base_vaddr);
                        }
                    }
                    assert(area.contains_vaddr(area.resident()[k as int].base_vaddr));
                }
                new_area.add_mapping(mapping);
                k += 1;
                assert(new_area.resident() =~= Seq::new(
                    k as nat,
                    |j: int|
                        VmMapping {
                            base_vaddr: area.resident()[j].base_vaddr,
                            frame: new_frames@[j],
                            perms: area.perms(),
                        },
                ));
            }
            proof {
                assert forall|j: int, k: int|
                    0 <= j < new_memory_space@.len() && 0 <= k < new_area.resident().len() implies !(
                #[trigger] new_memory_space@[j]).contains_vaddr((#[trigger] new_area.resident()[k]).base_vaddr) by {
                    let page = area.resident()[k].base_vaddr;
                    assert(new_area.resident()[k].base_vaddr == page);
                    assert(self.is_first_covering(i as int, page));
                    assert(!self@[j].contains_vaddr(page));
                    assert(new_memory_space@[j].same_shape(self@[j]));
                }
            }
            new_memory_space.add_area(new_area);
            i += 1;
        }
        new_memory_space
    }

    /// Puts the areas that the `len` bytes from `vaddr` touch under `perms`,
    /// once the page table has been told the same. `page_table` is what the
    /// page table answered.
    ///
    /// Where the page table refused, so does this function, with `EINVAL`, and
    /// nothing changes. Else every area that has something in common with the
    /// range takes `perms` as a whole, with each of its resident pages, also
    /// where the range ends inside the area.
    pub fn protect(&mut self, vaddr: Vaddr, len: usize, perms: PageFlags, page_table: Result<(), Error>) -> (r:
        Result<(), Error>)
        requires
            old(self).wf(),
            vaddr + len <= usize::MAX,
        ensures
            final(self).wf(),
            page_table is Err ==> r == Err::<(), Error>(Error { code: Errno::EINVAL }) && final(self)@
                == old(self)@,
            page_table is Ok ==> r == Ok::<(), Error>(()) && final(self).is_reprotected(
                *old(self),
                vaddr,
                len,
                perms,
            ),
    {
        if page_table.is_err() {
            return Err(Error::new(Errno::EINVAL));
        }
        let n: usize = self.areas.len();
        let mut i: usize = 0;
        while i < n
            invariant
                i <= n,
                n == self@.len(),
                n == old(self)@.len(),
                vaddr + len <= usize::MAX,
                old(self).wf(),
                forall|j: int| 0 <= j < n ==> (#[trigger] self@[j]).wf(),
                forall|j: int|
                    0 <= j < i ==> if (#[trigger] old(self)@[j]).intersects(vaddr, len) {
                        self@[j].is_reprotected(old(self)@[j], perms)
                    } else {
                        self@[j] == old(self)@[j]
                    },
                forall|j: int| i <= j < n ==> self@[j] == #[trigger] old(self)@[j],
            decreases n - i,
        {
            if self.areas[i].intersects_range(vaddr, len) {
                self.areas[i].set_perms(perms);
            }
            i += 1;
        }
        proof {
            lemma_same_pages_keep_wf(*old(self), *self);
        }
        Ok(())
    }

    /// Whether each of the `len` bytes from `vaddr` may be read or, with
    /// `write`, written.
    pub fn check_range(&self, vaddr: Vaddr, len: usize, write: bool) -> (r: bool)
        requires
            self.wf(),
        ensures
            r == self.permits_range(vaddr, len, write),
    {
        if len > usize::MAX - vaddr {
            return false;
        }
        if len == 0 {
            return true;
        }
        let end: usize = vaddr + len;
        let mut cur: usize = page_align_down(vaddr);
        while cur < end
            invariant
                self.wf(),
                end == vaddr + len,
                len > 0,
                cur <= end,
                cur < end ==> cur % PAGE_SIZE == 0,
                cur < vaddr ==> cur == page_base(vaddr),
                forall|v: Vaddr| vaddr <= v < cur ==> self.permits(v, write),
            decreases end - cur,
        {
            let ghost witness: Vaddr = if cur < vaddr {
                vaddr
            } else {
                cur
            };
            proof {
                assert(page_base(witness) == cur);
                self.lemma_page_uniform(witness);
            }
            let allowed = match self.find_area(cur) {
                Some(i) => if write {
                    self.areas[i].perms().writable()
                } else {
                    self.areas[i].perms().readable()
                },
                None => false,
            };
            if !allowed {
                assert(!self.permits(witness, write));
                return false;
            }
            proof {
                assert forall|v: Vaddr| cur <= v < cur + PAGE_SIZE implies self.permits(v, write) by {
                    assert(page_base(v) == cur);
                    self.lemma_page_uniform(v);
                }
            }
            if end - cur <= PAGE_SIZE {
                cur = end;
            } else {
                cur = cur + PAGE_SIZE;
            }
        }
        true
    }

    /// Leave to read the `len` bytes from `vaddr`: granted where the area
    /// that answers for each of them is readable, else refused with
    /// `EFAULT`.
    pub fn reader(&self, vaddr: Vaddr, len: usize) -> (r: Result<VmReader, Error>)
        requires
            self.wf(),
        ensures
            r == if self.permits_range(vaddr, len, false) {
                Ok::<VmReader, Error>(VmReader { vaddr, len })
            } else {
                Err::<VmReader, Error>(Error { code: Errno::EFAULT })
            },
    {
        if self.check_range(vaddr, len, false) {
            Ok(VmReader { vaddr, len })
        } else {
            Err(Error::new(Errno::EFAULT))
        }
    }

    /// Leave to write the `len` bytes from `vaddr`: granted where the area
    /// that answers for each of them is writable, else refused with
    /// `EFAULT`.
    pub fn writer(&self, vaddr: Vaddr, len: usize) -> (r: Result<VmWriter, Error>)
        requires
            self.wf(),
        ensures
            r == if self.permits_range(vaddr, len, true) {
                Ok::<VmWriter, Error>(VmWriter { vaddr, len })
            } else {
                Err::<VmWriter, Error>(Error { code: Errno::EFAULT })
            },
    {
        if self.check_range(vaddr, len, true) {
            Ok(VmWriter { vaddr, len })
        } else {
            Err(Error::new(Errno::EFAULT))
        }
    }

    /// Forgets every area, as is done before a new program is loaded. The
    /// caller empties the page table.
    pub fn clear(&mut self)
        ensures
            final(self).wf(),
            final(self)@ == Seq::<VmArea>::empty(),
    {
        self.areas.clear();
    }

    /// The index of the first area that holds `vaddr`.
    pub fn find_area(&self, vaddr: Vaddr) -> (r: Option<usize>)
        ensures
            match r {
                Some(i) => self.is_first_covering(i as int, vaddr) && self.first_covering(vaddr)
                    == Some(i as int),
                None => !self.covered(vaddr) && self.first_covering(vaddr).is_none(),
            },
    {
        let n: usize = self.areas.len();
        let mut i: usize = 0;
        while i < n
            invariant
                i <= n,
                n == self.areas@.len(),
                forall|j: int| 0 <= j < i ==> !(#[trigger] self@[j]).contains_vaddr(vaddr),
            decreases n - i,
        {
            if self.areas[i].contains_vaddr(vaddr) {
                proof {
                    self.lemma_first_covering(i as int, vaddr);
                }
                return Some(i);
            }
            i += 1;
        }
        None
    }
}

/// What a fault comes to in the address space `space`. An exception other
/// than a page fault is none of this crate's business, and an address that
/// no area holds cannot be resolved; else the first area that holds the
/// address decides.
pub open spec fn fault_outcome(
    space: MemorySpace,
    cpu_exception: CpuExceptionInfo,
    frame: Option<Frame>,
) -> Result<FaultAction, Error> {
    space@[fault_area(space, cpu_exception).unwrap()].fault_result(
        cpu_exception.page_fault_addr,
        cpu_exception.code,
        frame,
    )
}

/// The area that answers for a fault, if the exception is a page fault and
/// an area holds its address.
pub open spec fn fault_area(space: MemorySpace, cpu_exception: CpuExceptionInfo) -> Option<int> {
    if is_page_fault(cpu_exception.code) {
        space.first_covering(cpu_exception.page_fault_addr)
    } else {
        None
    }
}

/// Whether a fault takes the space `before` to the space `after` with the
/// result `r`.
///
/// Where no area answers, the fault fails and nothing changes. Else the
/// result is what the area decides, but for the reason of a failure, which is
/// dropped; the other areas stay as they are, and the area that answers keeps
/// its range, permissions and policy and takes in the mapping that the
/// result names.
pub open spec fn fault_step(
    before: MemorySpace,
    after: MemorySpace,
    cpu_exception: CpuExceptionInfo,
    frame: Option<Frame>,
    r: Result<FaultAction, ()>,
) -> bool {
    &&& after@.len() == before@.len()
    &&& match fault_area(before, cpu_exception) {
        None => r == Err::<FaultAction, ()>(()) && after@ == before@,
        Some(i) => {
            let outcome = fault_outcome(before, cpu_exception, frame);
            &&& r is Ok <==> outcome is Ok
            &&& r matches Ok(action) ==> outcome == Ok::<FaultAction, Error>(action)
            &&& forall|j: int| 0 <= j < before@.len() && j != i ==> after@[j] == before@[j]
            &&& after@[i].same_shape(before@[i])
            &&& after@[i].resident() == before@[i].resident_after(outcome)
        },
    }
}

/// Resolves the fault that `cpu_exception` reports, with `frame` as the frame
/// that the allocator gave for it.
///
/// Fails, and changes nothing, when the exception is no page fault, when no
/// area holds the address, and when the policy of the area fails. On success
/// the result names what is left to do, and the mapping that it installs is
/// resident in the area that answers for the address.
pub fn page_fault_handler(
    space: &mut MemorySpace,
    cpu_exception: &CpuExceptionInfo,
    frame: Option<Frame>,
) -> (r: Result<FaultAction, ()>)
    requires
        old(space).wf(),
    ensures
        final(space).wf(),
        fault_step(*old(space), *final(space), *cpu_exception, frame, r),
{
    if !is_page_fault(cpu_exception.cpu_exception()) {
        return Err(());
    }
    let page_fault_addr = cpu_exception.page_fault_addr;
    let i = match space.find_area(page_fault_addr) {
        Some(i) => i,
        None => {
            return Err(());
        },
    };
    let r = space.areas[i].handle_page_fault(page_fault_addr, cpu_exception.cpu_exception(), frame);
    proof {
        let before = old(space)@[i as int].resident();
        let after = space@[i as int].resident();
        if after != before {
            assert(after.drop_last() =~= before);
        }
        lemma_fault_keeps_wf(*old(space), *space, i as int, page_fault_addr);
    }
    match r {
        Ok(action) => Ok(action),
        Err(_) => Err(()),
    }
}

/// A space stays well formed when its areas keep their ranges and the pages
/// that are resident in each.
proof fn lemma_same_pages_keep_wf(before: MemorySpace, after: MemorySpace)
    requires
        before.wf(),
        after@.len() == before@.len(),
        forall|i: int| 0 <= i < after@.len() ==> (#[trigger] after@[i]).wf(),
        forall|i: int|
            0 <= i < after@.len() ==> {
                &&& (#[trigger] after@[i]).base_vaddr() == before@[i].base_vaddr()
                &&& after@[i].pages() == before@[i].pages()
                &&& after@[i].resident().len() == before@[i].resident().len()
            },
        forall|i: int, k: int|
            0 <= i < after@.len() && 0 <= k < after@[i].resident().len() ==> (
            #[trigger] after@[i].resident()[k]).base_vaddr == before@[i].resident()[k].base_vaddr,
    ensures
        after.wf(),
{
    assert forall|i: int, k: int|
        0 <= i < after@.len() && 0 <= k < after@[i].resident().len() implies after.is_first_covering(
        i,
        #[trigger] after@[i].resident()[k].base_vaddr,
    ) by {
        let page = after@[i].resident()[k].base_vaddr;
        assert(before.is_first_covering(i, before@[i].resident()[k].base_vaddr));
        assert forall|j: int| 0 <= j <= i implies (#[trigger] after@[j]).contains_vaddr(page)
            == before@[j].contains_vaddr(page) by {
            assert(after@[j].base_vaddr() == before@[j].base_vaddr());
        }
    }
}

/// A space stays well formed when one of its areas takes in, at most, a
/// page that it holds and answers for.
proof fn lemma_fault_keeps_wf(before: MemorySpace, after: MemorySpace, i: int, vaddr: Vaddr)
    requires
        before.wf(),
        before.is_first_covering(i, vaddr),
        after@.len() == before@.len(),
        forall|j: int| 0 <= j < before@.len() && j != i ==> after@[j] == before@[j],
        after@[i].wf(),
        after@[i].same_shape(before@[i]),
        after@[i].resident() == before@[i].resident() || (after@[i].resident().len()
            == before@[i].resident().len() + 1 && after@[i].resident().drop_last()
            == before@[i].resident() && after@[i].resident().last().base_vaddr
            == crate::mm::fault::page_base(vaddr)),
    ensures
        after.wf(),
{
    assert forall|a: int, k: int|
        0 <= a < after@.len() && 0 <= k < after@[a].resident().len() implies after.is_first_covering(
        a,
        #[trigger] after@[a].resident()[k].base_vaddr,
    ) by {
        let page = after@[a].resident()[k].base_vaddr;
        assert forall|j: int| 0 <= j < after@.len() implies after@[j].contains_vaddr(page)
            == before@[j].contains_vaddr(page) by {
            if j == i {
            }
        }
        if a == i && k == before@[i].resident().len() {
            assert(page == crate::mm::fault::page_base(vaddr));
            assert forall|j: int| 0 <= j < i implies !(#[trigger] before@[j]).contains_vaddr(page) by {
                assert(before@[j].wf());
                assert(!before@[j].contains_vaddr(vaddr));
            }
        } else {
            if a == i {
                assert(after@[a].resident()[k] == before@[a].resident()[k]);
            }
            assert(before.is_first_covering(a, before@[a].resident()[k].base_vaddr));
        }
    }
}

impl Default for MemorySpace {
    fn default() -> (space: MemorySpace)
        ensures
            space.wf(),
            space@ == Seq::<VmArea>::empty(),
    {
        MemorySpace::new()
    }
}

} // verus!
