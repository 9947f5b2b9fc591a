//! Memory areas.

use crate::error::Error;
use crate::mm::fault::{
    is_page_aligned, page_align_down, page_base, FaultAction, PageFaultContext, PageFaultHandler,
};
use crate::mm::frame::{Frame, Vaddr, PAGE_SIZE};
use crate::mm::mapping::VmMapping;
use crate::mm::page_flags::PageFlags;
use riscv::interrupt::supervisor::Exception;
use vstd::prelude::*;

verus! {

/// A run of pages of virtual memory under one permission mask and one
/// fault-resolution policy, together with the pages of it that are resident.
#[derive(Debug)]
pub struct VmArea {
    base_vaddr: Vaddr,
    /// The length of the area, in pages.
    pages: usize,
    perms: PageFlags,
    /// The resident pages, in the order in which they came in.
    mappings: Vec<VmMapping>,
    fault_handler: PageFaultHandler,
}

impl VmArea {
    /// The address at which the area starts.
    pub closed spec fn spec_base_vaddr(&self) -> Vaddr {
        self.base_vaddr
    }

    /// The length of the area, in pages.
    pub closed spec fn spec_pages(&self) -> usize {
        self.pages
    }

    /// The permission mask of the area.
    pub closed spec fn spec_perms(&self) -> PageFlags {
        self.perms
    }

    /// The policy that resolves faults in the area.
    pub closed spec fn spec_page_fault_handler(&self) -> PageFaultHandler {
        self.fault_handler
    }

    /// The resident pages, in the order in which they came in.
    pub closed spec fn resident(&self) -> Seq<VmMapping> {
        self.mappings@
    }

    /// The address just behind the area.
    pub open spec fn end(&self) -> int {
        self.base_vaddr() + self.pages() * PAGE_SIZE
    }

    /// Whether `vaddr` lies in the area.
    pub open spec fn spec_contains_vaddr(&self, vaddr: Vaddr) -> bool {
        self.base_vaddr() <= vaddr < self.end()
    }

    /// Whether the area has anything in common with the `len` bytes that
    /// start at `vaddr`.
    pub open spec fn intersects(&self, vaddr: Vaddr, len: usize) -> bool {
        self.base_vaddr() < vaddr + len && self.end() > vaddr
    }

    /// Whether the two areas have an address in common.
    pub open spec fn overlaps(&self, other: VmArea) -> bool {
        &&& self.base_vaddr() < other.end()
        &&& other.base_vaddr() < self.end()
        &&& self.base_vaddr() < self.end()
        &&& other.base_vaddr() < other.end()
    }

    /// Whether this area is `before` under the permission mask `perms`: the
    /// same range, policy and resident pages, each page under `perms`.
    pub open spec fn is_reprotected(&self, before: VmArea, perms: PageFlags) -> bool {
        &&& self.base_vaddr() == before.base_vaddr()
        &&& self.pages() == before.pages()
        &&& self.page_fault_handler() == before.page_fault_handler()
        &&& self.perms() == perms
        &&& self.resident() == before.resident().map_values(|m: VmMapping| VmMapping { perms, ..m })
    }

    /// Whether the page that starts at `page` is resident.
    pub open spec fn is_resident(&self, page: Vaddr) -> bool {
        exists|k: int| 0 <= k < self.resident().len() && #[trigger] self.resident()[k].base_vaddr == page
    }

    /// Whether `mapping` may join the resident pages: it binds a page of the
    /// area that is not resident yet, under the area's permissions.
    pub open spec fn admits(&self, mapping: VmMapping) -> bool {
        &&& is_page_aligned(mapping.base_vaddr)
        &&& self.contains_vaddr(mapping.base_vaddr)
        &&& mapping.perms == self.perms()
        &&& !self.is_resident(mapping.base_vaddr)
    }

    /// The invariant of an area. It starts on a page boundary and ends within
    /// the address space. Each resident page is a page of the area, carries
    /// the area's permissions and is recorded once. A file-backed policy
    /// starts its file at the base of the area.
    pub open spec fn wf(&self) -> bool {
        &&& is_page_aligned(self.base_vaddr())
        &&& self.end() <= usize::MAX
        &&& forall|k: int|
            0 <= k < self.resident().len() ==> {
                &&& is_page_aligned(#[trigger] self.resident()[k].base_vaddr)
                &&& self.contains_vaddr(self.resident()[k].base_vaddr)
                &&& self.resident()[k].perms == self.perms()
            }
        &&& forall|j: int, k: int|
            0 <= j < k < self.resident().len() ==> (#[trigger] self.resident()[j]).base_vaddr != (
            #[trigger] self.resident()[k]).base_vaddr
        &&& self.page_fault_handler() matches PageFaultHandler::MMapInode(h) ==> h.base_vaddr
            == self.base_vaddr()
    }

    /// Whether `other` is this area but for its resident pages.
    pub open spec fn same_shape(&self, other: VmArea) -> bool {
        &&& self.base_vaddr() == other.base_vaddr()
        &&& self.pages() == other.pages()
        &&& self.perms() == other.perms()
        &&& self.page_fault_handler() == other.page_fault_handler()
    }

    /// What a fault at `vaddr` comes to: nothing is to be done for a page that
    /// is resident; any other page is up to the policy.
    pub open spec fn fault_result(&self, vaddr: Vaddr, fault: Exception, frame: Option<Frame>) -> Result<
        FaultAction,
        Error,
    > {
        if self.is_resident(page_base(vaddr)) {
            Ok(FaultAction::AlreadyResident)
        } else {
            self.page_fault_handler().resolve(
                PageFaultContext { perms: self.perms(), vaddr, fault, frame },
            )
        }
    }

    /// The resident pages after a fault with the given result.
    pub open spec fn resident_after(&self, result: Result<FaultAction, Error>) -> Seq<VmMapping> {
        match result {
            Ok(action) => match action.mapping() {
                Some(mapping) => self.resident().push(mapping),
                None => self.resident(),
            },
            Err(_) => self.resident(),
        }
    }

    /// An area without resident pages in which no fault is resolved.
    pub fn new(base_vaddr: Vaddr, pages: usize, perms: PageFlags) -> (area: VmArea)
        requires
            is_page_aligned(base_vaddr),
            base_vaddr + pages * PAGE_SIZE <= usize::MAX,
        ensures
            area.wf(),
            area.base_vaddr() == base_vaddr,
            area.pages() == pages,
            area.perms() == perms,
            area.page_fault_handler() == PageFaultHandler::Default,
            area.resident() == Seq::<VmMapping>::empty(),
    {
        VmArea { base_vaddr, pages, perms, mappings: Vec::new(), fault_handler: PageFaultHandler::Default }
    }

    /// An area without resident pages in which `fault_handler` resolves the
    /// faults.
    pub fn new_with_handler(
        base_vaddr: Vaddr,
        pages: usize,
        perms: PageFlags,
        fault_handler: PageFaultHandler,
    ) -> (area: VmArea)
        requires
            is_page_aligned(base_vaddr),
            base_vaddr + pages * PAGE_SIZE <= usize::MAX,
            fault_handler matches PageFaultHandler::MMapInode(h) ==> h.base_vaddr == base_vaddr,
        ensures
            area.wf(),
            area.base_vaddr() == base_vaddr,
            area.pages() == pages,
            area.perms() == perms,
            area.page_fault_handler() == fault_handler,
            area.resident() == Seq::<VmMapping>::empty(),
    {
        VmArea { base_vaddr, pages, perms, mappings: Vec::new(), fault_handler }
    }

    /// Resolves a fault at `vaddr`. A fault on a resident page changes
    /// nothing; otherwise the policy decides, and the mapping that it names
    /// becomes resident.
    pub fn handle_page_fault(&mut self, vaddr: Vaddr, fault: Exception, frame: Option<Frame>) -> (r:
        Result<FaultAction, Error>)
        requires
            old(self).wf(),
            old(self).contains_vaddr(vaddr),
        ensures
            final(self).wf(),
            final(self).same_shape(*old(self)),
            r == old(self).fault_result(vaddr, fault, frame),
            final(self).resident() == old(self).resident_after(r),
    {
        let page = page_align_down(vaddr);
        if self.find_mapping(page).is_some() {
            return Ok(FaultAction::AlreadyResident);
        }
        let context = PageFaultContext { perms: self.perms, vaddr, fault, frame };
        let r = self.fault_handler.handle_page_fault(context);
        match r {
            Ok(action) => {
                match action.mapping() {
                    Some(mapping) => {
                        self.add_mapping(mapping);
                    },
                    None => {},
                }
            },
            Err(_) => {},
        }
        r
    }

    /// The policy that resolves faults in the area.
    #[verifier::when_used_as_spec(spec_page_fault_handler)]
    pub fn page_fault_handler(&self) -> (r: PageFaultHandler)
        ensures
            r == self.page_fault_handler(),
    {
        self.fault_handler
    }

    /// The permission mask of the area.
    #[verifier::when_used_as_spec(spec_perms)]
    pub fn perms(&self) -> (r: PageFlags)
        ensures
            r == self.perms(),
    {
        self.perms
    }

    /// Records `mapping` as the latest resident page.
    pub fn add_mapping(&mut self, mapping: VmMapping)
        requires
            old(self).wf(),
            old(self).admits(mapping),
        ensures
            final(self).wf(),
            final(self).same_shape(*old(self)),
            final(self).resident() == old(self).resident().push(mapping),
    {
        self.mappings.push(mapping);
        proof {
            let before = old(self).resident();
            let after = self.resident();
            assert forall|k: int| 0 <= k < after.len() implies {
                &&& is_page_aligned(#[trigger] after[k].base_vaddr)
                &&& self.contains_vaddr(after[k].base_vaddr)
                &&& after[k].perms == self.perms()
            } by {
                if k < before.len() {
                    assert(after[k] == before[k]);
                }
            }
            assert forall|j: int, k: int| 0 <= j < k < after.len() implies (#[trigger] after[j]).base_vaddr
                != (#[trigger] after[k]).base_vaddr by {
                assert(after[j] == before[j]);
                if k < before.len() {
                    assert(after[k] == before[k]);
                }
            }
        }
    }

    /// The list of resident pages, to be changed in place. Whoever changes it
    /// answers for the invariant of the area.
    pub fn mappings_mut(&mut self) -> (r: &mut Vec<VmMapping>)
        ensures
            r@ == old(self).resident(),
            final(self).same_shape(*old(self)),
            final(self).resident() == final(r)@,
    {
        &mut self.mappings
    }

    /// The resident pages, in the order in which they came in.
    pub fn mappings(&self) -> (r: &Vec<VmMapping>)
        ensures
            r@ == self.resident(),
    {
        &self.mappings
    }

    /// The address at which the area starts.
    #[verifier::when_used_as_spec(spec_base_vaddr)]
    pub fn base_vaddr(&self) -> (r: Vaddr)
        ensures
            r == self.base_vaddr(),
    {
        self.base_vaddr
    }

    /// The length of the area, in pages.
    #[verifier::when_used_as_spec(spec_pages)]
    pub fn pages(&self) -> (r: usize)
        ensures
            r == self.pages(),
    {
        self.pages
    }

    /// Replaces the permission mask of the area and of each resident page.
    /// The page table is not touched: that is the caller's part.
    pub fn set_perms(&mut self, perms: PageFlags)
        requires
            old(self).wf(),
        ensures
            final(self).wf(),
            final(self).is_reprotected(*old(self), perms),
    {
        self.perms = perms;
        let n: usize = self.mappings.len();
        let mut i: usize = 0;
        while i < n
            invariant
                i <= n,
                n == self.mappings@.len(),
                n == old(self).mappings@.len(),
                self.perms == perms,
                self.base_vaddr == old(self).base_vaddr,
                self.pages == old(self).pages,
                self.fault_handler == old(self).fault_handler,
                forall|k: int|
                    0 <= k < i ==> #[trigger] self.mappings@[k] == (VmMapping {
                        perms,
                        ..old(self).mappings@[k]
                    }),
                forall|k: int| i <= k < n ==> #[trigger] self.mappings@[k] == old(self).mappings@[k],
            decreases n - i,
        {
            self.mappings[i].set_perms(perms);
            i += 1;
        }
        assert(self.mappings@ =~= old(self).mappings@.map_values(
            |m: VmMapping| VmMapping { perms, ..m },
        ));
        proof {
            let before = old(self).resident();
            let after = self.resident();
            assert forall|k: int| 0 <= k < after.len() implies {
                &&& is_page_aligned(#[trigger] after[k].base_vaddr)
                &&& self.contains_vaddr(after[k].base_vaddr)
                &&& after[k].perms == self.perms()
            } by {
                assert(after[k].base_vaddr == before[k].base_vaddr);
            }
            assert forall|j: int, k: int| 0 <= j < k < after.len() implies (#[trigger] after[j]).base_vaddr
                != (#[trigger] after[k]).base_vaddr by {
                assert(after[j].base_vaddr == before[j].base_vaddr);
                assert(after[k].base_vaddr == before[k].base_vaddr);
            }
        }
    }

    /// Whether `vaddr` lies in the area.
    #[verifier::when_used_as_spec(spec_contains_vaddr)]
    pub fn contains_vaddr(&self, vaddr: Vaddr) -> (r: bool)
        ensures
            r == self.contains_vaddr(vaddr),
    {
        vaddr >= self.base_vaddr && (vaddr - self.base_vaddr) / PAGE_SIZE < self.pages
    }

    /// Whether the area has anything in common with the `len` bytes that
    /// start at `vaddr`.
    pub fn intersects_range(&self, vaddr: Vaddr, len: usize) -> (r: bool)
        requires
            self.wf(),
            vaddr + len <= usize::MAX,
        ensures
            r == self.intersects(vaddr, len),
    {
        let area_start = self.base_vaddr;
        let area_end = area_start + self.pages * PAGE_SIZE;
        let range_start = vaddr;
        let range_end = vaddr + len;
        area_start < range_end && area_end > range_start
    }

    /// An area holds every page that starts at or behind its base and before
    /// its end, and holds neither the byte before its base nor the byte at its
    /// end.
    pub proof fn lemma_contains_bounds(&self)
        requires
            self.wf(),
        ensures
            forall|vaddr: Vaddr|
                is_page_aligned(vaddr) && self.base_vaddr() <= vaddr < self.end()
                    ==> #[trigger] self.contains_vaddr(vaddr),
            self.base_vaddr() > 0 ==> !self.contains_vaddr((self.base_vaddr() - 1) as usize),
            !self.contains_vaddr(self.end() as usize),
    {
    }

    /// An area holds an address exactly if it holds the start of the page of
    /// that address.
    pub proof fn lemma_holds_whole_pages(&self, vaddr: Vaddr)
        requires
            self.wf(),
        ensures
            self.contains_vaddr(vaddr) == self.contains_vaddr(page_base(vaddr)),
    {
        let base = self.base_vaddr() as int;
        let pages = self.pages() as int;
        let v = vaddr as int;
        assert(base % 4096 == 0);
        assert((base + pages * 4096) % 4096 == 0) by (nonlinear_arith)
            requires
                base % 4096 == 0,
        ;
    }

    /// The index of the resident page that starts at `page`, if there is one.
    pub fn find_mapping(&self, page: Vaddr) -> (r: Option<usize>)
        ensures
            r is Some <==> self.is_resident(page),
            r matches Some(k) ==> k < self.resident().len() && self.resident()[k as int].base_vaddr
                == page,
    {
        let n: usize = self.mappings.len();
        let mut i: usize = 0;
        while i < n
            invariant
                i <= n,
                n == self.mappings@.len(),
                forall|k: int| 0 <= k < i ==> (#[trigger] self.mappings@[k]).base_vaddr != page,
            decreases n - i,
        {
            if self.mappings[i].base_vaddr == page {
                return Some(i);
            }
            i += 1;
        }
        None
    }
}

} // verus!
