//! The page table that an address space stands for.
//!
//! The page table itself is kept by the kernel. What it has to hold follows
//! from the pages that are resident in the areas of the space: this module
//! states that table and how each operation on the space changes it.

use crate::mm::fault::FaultAction;
use crate::mm::frame::{Frame, Vaddr};
use crate::mm::mapping::VmMapping;
use crate::mm::page_flags::PageFlags;
use crate::mm::fault::page_base;
use crate::mm::{fault_area, fault_outcome, fault_step, CpuExceptionInfo, MemorySpace};
use vstd::prelude::*;

verus! {

/// What the page table holds for one page: the frame that backs it and the
/// permissions under which it may be accessed.
pub struct PageEntry {
    pub frame: Frame,
    pub perms: PageFlags,
}

/// The page-table entry that installs `mapping`.
pub open spec fn entry_of(mapping: VmMapping) -> PageEntry {
    PageEntry { frame: mapping.frame, perms: mapping.perms }
}

/// The table `table` once the page table has put each page that starts
/// within the `len` bytes from `vaddr` under `perms`.
pub open spec fn protected(table: Map<Vaddr, PageEntry>, vaddr: Vaddr, len: usize, perms: PageFlags) -> Map<
    Vaddr,
    PageEntry,
> {
    Map::new(
        |page: Vaddr| table.dom().contains(page),
        |page: Vaddr|
            if vaddr <= page < vaddr + len {
                PageEntry { frame: table[page].frame, perms }
            } else {
                table[page]
            },
    )
}

impl MemorySpace {
    /// Whether resident page `k` of area `i` starts at `page`.
    pub open spec fn is_at(&self, i: int, k: int, page: Vaddr) -> bool {
        &&& 0 <= i < self@.len()
        &&& 0 <= k < self@[i].resident().len()
        &&& self@[i].resident()[k].base_vaddr == page
    }

    /// Whether the page that starts at `page` is resident.
    pub open spec fn is_resident(&self, page: Vaddr) -> bool {
        exists|i: int, k: int| #[trigger] self.is_at(i, k, page)
    }

    /// The mapping of the resident page that starts at `page`.
    pub open spec fn mapping_of(&self, page: Vaddr) -> VmMapping {
        let (i, k) = choose|i: int, k: int| #[trigger] self.is_at(i, k, page);
        self@[i].resident()[k]
    }

    /// The page table that the space stands for: one entry for each resident
    /// page.
    pub open spec fn page_table(&self) -> Map<Vaddr, PageEntry> {
        Map::new(|page: Vaddr| self.is_resident(page), |page: Vaddr| entry_of(self.mapping_of(page)))
    }

    /// A page is recorded as resident at most once in the whole space, so the
    /// page table has one entry to hold for it.
    pub proof fn lemma_resident_once(&self, i: int, k: int, page: Vaddr)
        requires
            self.wf(),
            self.is_at(i, k, page),
        ensures
            self.is_resident(page),
            self.mapping_of(page) == self@[i].resident()[k],
            self.page_table().dom().contains(page),
            self.page_table()[page] == entry_of(self@[i].resident()[k]),
            forall|i2: int, k2: int| #[trigger] self.is_at(i2, k2, page) ==> i2 == i && k2 == k,
    {
        assert forall|i2: int, k2: int| #[trigger] self.is_at(i2, k2, page) implies i2 == i && k2 == k by {
            assert(self.is_first_covering(i, self@[i].resident()[k].base_vaddr));
            assert(self.is_first_covering(i2, self@[i2].resident()[k2].base_vaddr));
            self.lemma_first_covering(i, page);
            self.lemma_first_covering(i2, page);
            assert(self@[i].wf());
            if k2 < k {
                assert(self@[i].resident()[k2].base_vaddr != self@[i].resident()[k].base_vaddr);
            }
            if k < k2 {
                assert(self@[i].resident()[k].base_vaddr != self@[i].resident()[k2].base_vaddr);
            }
        }
        let (i2, k2) = choose|i2: int, k2: int| #[trigger] self.is_at(i2, k2, page);
        assert(self.is_at(i2, k2, page));
    }

    /// The space stands for `table` if `table` has an entry for the resident
    /// pages and for no others, and each entry is the one that installs the
    /// mapping of its page.
    pub proof fn lemma_stands_for(&self, table: Map<Vaddr, PageEntry>)
        requires
            self.wf(),
            forall|page: Vaddr| #[trigger] table.dom().contains(page) <==> self.is_resident(page),
            forall|i: int, k: int|
                0 <= i < self@.len() && 0 <= k < self@[i].resident().len() ==> table[(
                #[trigger] self@[i].resident()[k]).base_vaddr] == entry_of(self@[i].resident()[k]),
        ensures
            self.page_table() == table,
    {
        assert forall|page: Vaddr| self.page_table().dom().contains(page) implies #[trigger] self.page_table()[page]
            == table[page] by {
            let (i, k) = choose|i: int, k: int| #[trigger] self.is_at(i, k, page);
            self.lemma_resident_once(i, k, page);
        }
        assert(self.page_table() =~= table);
    }

    /// A space without areas stands for the empty page table.
    pub proof fn lemma_empty_page_table(&self)
        requires
            self@.len() == 0,
        ensures
            self.page_table() == Map::<Vaddr, PageEntry>::empty(),
    {
        assert forall|page: Vaddr| !self.is_resident(page) by {
            if self.is_resident(page) {
                let (i, k) = choose|i: int, k: int| #[trigger] self.is_at(i, k, page);
                assert(self.is_at(i, k, page));
            }
        }
        assert(self.page_table() =~= Map::<Vaddr, PageEntry>::empty());
    }
}

/// A fault that is resolved with a new mapping adds the entry of that mapping
/// to the page table; any other fault leaves the page table as it is.
pub proof fn lemma_fault_page_table(
    before: MemorySpace,
    after: MemorySpace,
    cpu_exception: CpuExceptionInfo,
    frame: Option<Frame>,
    r: Result<FaultAction, ()>,
)
    requires
        before.wf(),
        after.wf(),
        fault_step(before, after, cpu_exception, frame, r),
    ensures
        after.page_table() == match r {
            Ok(action) => match action.mapping() {
                Some(mapping) => before.page_table().insert(mapping.base_vaddr, entry_of(mapping)),
                None => before.page_table(),
            },
            Err(_) => before.page_table(),
        },
{
    let added: Option<VmMapping> = match r {
        Ok(action) => action.mapping(),
        Err(_) => None,
    };
    let table = match added {
        Some(mapping) => before.page_table().insert(mapping.base_vaddr, entry_of(mapping)),
        None => before.page_table(),
    };
    if fault_area(before, cpu_exception) is Some {
        let vaddr = cpu_exception.page_fault_addr;
        let w = choose|w: int| 0 <= w < before@.len() && (#[trigger] before@[w]).contains_vaddr(vaddr);
        before.lemma_covered_has_first(w, vaddr);
    }
    // Where each mapping of `after` comes from.
    assert forall|i: int, k: int| 0 <= i < after@.len() && 0 <= k < after@[i].resident().len() implies {
        ||| (0 <= k < before@[i].resident().len() && #[trigger] after@[i].resident()[k]
            == before@[i].resident()[k])
        ||| added == Some(after@[i].resident()[k])
    } by {
        if fault_area(before, cpu_exception) == Some(i) {
        } else {
            assert(after@[i] == before@[i]);
        }
    }
    // Each mapping of `before` is still there.
    assert forall|i: int, k: int| 0 <= i < before@.len() && 0 <= k < before@[i].resident().len() implies 0
        <= k < after@[i].resident().len() && #[trigger] after@[i].resident()[k] == before@[i].resident()[k] by {
        if fault_area(before, cpu_exception) == Some(i) {
        } else {
            assert(after@[i] == before@[i]);
        }
    }
    assert forall|page: Vaddr| #[trigger] table.dom().contains(page) <==> after.is_resident(page) by {
        if after.is_resident(page) {
            let (i, k) = choose|i: int, k: int| #[trigger] after.is_at(i, k, page);
            if 0 <= k < before@[i].resident().len() && after@[i].resident()[k] == before@[i].resident()[k] {
                assert(before.is_at(i, k, page));
            }
        }
        if before.is_resident(page) {
            let (i, k) = choose|i: int, k: int| #[trigger] before.is_at(i, k, page);
            assert(after.is_at(i, k, page));
        }
        if added is Some {
            let mapping = added.unwrap();
            if page == mapping.base_vaddr {
                let i = fault_area(before, cpu_exception).unwrap();
                let k = before@[i].resident().len() as int;
                assert(after@[i].resident()[k] == mapping);
                assert(after.is_at(i, k, page));
            }
        }
    }
    assert forall|i: int, k: int| 0 <= i < after@.len() && 0 <= k < after@[i].resident().len() implies table[(
    #[trigger] after@[i].resident()[k]).base_vaddr] == entry_of(after@[i].resident()[k]) by {
        let m = after@[i].resident()[k];
        let page = m.base_vaddr;
        assert(after.is_at(i, k, page));
        after.lemma_resident_once(i, k, page);
        if added is Some {
            let mapping = added.unwrap();
            let fi = fault_area(before, cpu_exception).unwrap();
            let fk = before@[fi].resident().len() as int;
            assert(after@[fi].resident()[fk] == mapping);
            assert(after.is_at(fi, fk, mapping.base_vaddr));
            if page == mapping.base_vaddr {
                assert(i == fi && k == fk);
            } else {
                assert(before.is_at(i, k, page));
                before.lemma_resident_once(i, k, page);
            }
        } else {
            assert(before.is_at(i, k, page));
            before.lemma_resident_once(i, k, page);
        }
    }
    after.lemma_stands_for(table);
}

/// An area that joins a space brings the entries of its resident pages to the
/// page table, and leaves the other entries as they are. An area without
/// resident pages brings none: its pages come in as they fault.
pub proof fn lemma_new_area_page_table(before: MemorySpace, after: MemorySpace)
    requires
        before.wf(),
        after.wf(),
        after@.len() == before@.len() + 1,
        after@.drop_last() == before@,
    ensures
        forall|page: Vaddr| #[trigger]
            after.page_table().dom().contains(page) <==> before.page_table().dom().contains(page)
                || after@.last().is_resident(page),
        forall|page: Vaddr| #[trigger]
            before.page_table().dom().contains(page) ==> after.page_table()[page]
                == before.page_table()[page],
        forall|k: int|
            0 <= k < after@.last().resident().len() ==> after.page_table()[(
            #[trigger] after@.last().resident()[k]).base_vaddr] == entry_of(after@.last().resident()[k]),
        after@.last().resident().len() == 0 ==> after.page_table() == before.page_table(),
{
    let n = before@.len() as int;
    let area = after@.last();
    assert forall|i: int| 0 <= i < n implies #[trigger] after@[i] == before@[i] by {
        assert(after@.drop_last()[i] == after@[i]);
    }
    assert forall|page: Vaddr| #[trigger]
        after.page_table().dom().contains(page) <==> before.page_table().dom().contains(page)
            || area.is_resident(page) by {
        if after.is_resident(page) {
            let (i, k) = choose|i: int, k: int| #[trigger] after.is_at(i, k, page);
            if i < n {
                assert(before.is_at(i, k, page));
            } else {
                assert(area.resident()[k].base_vaddr == page);
            }
        }
        if before.is_resident(page) {
            let (i, k) = choose|i: int, k: int| #[trigger] before.is_at(i, k, page);
            assert(after.is_at(i, k, page));
        }
        if area.is_resident(page) {
            let k = choose|k: int| 0 <= k < area.resident().len() && #[trigger] area.resident()[k].base_vaddr == page;
            assert(after.is_at(n, k, page));
        }
    }
    assert forall|page: Vaddr| #[trigger] before.page_table().dom().contains(page) implies after.page_table()[page]
        == before.page_table()[page] by {
        let (i, k) = choose|i: int, k: int| #[trigger] before.is_at(i, k, page);
        before.lemma_resident_once(i, k, page);
        assert(after.is_at(i, k, page));
        after.lemma_resident_once(i, k, page);
    }
    assert forall|k: int| 0 <= k < area.resident().len() implies after.page_table()[(
    #[trigger] area.resident()[k]).base_vaddr] == entry_of(area.resident()[k]) by {
        assert(after.is_at(n, k, area.resident()[k].base_vaddr));
        after.lemma_resident_once(n, k, area.resident()[k].base_vaddr);
    }
    if area.resident().len() == 0 {
        assert forall|page: Vaddr| !area.is_resident(page) by {}
        assert(after.page_table() =~= before.page_table());
    }
}

/// Spaces whose areas have the same ranges, one by one, let the same area
/// answer for an address.
pub proof fn lemma_same_ranges_same_cover(a: MemorySpace, b: MemorySpace, vaddr: Vaddr)
    requires
        a@.len() == b@.len(),
        forall|i: int|
            0 <= i < a@.len() ==> (#[trigger] a@[i]).base_vaddr() == b@[i].base_vaddr() && a@[i].pages()
                == b@[i].pages(),
    ensures
        a.first_covering(vaddr) == b.first_covering(vaddr),
{
    assert forall|i: int| 0 <= i < a@.len() implies (#[trigger] a@[i]).contains_vaddr(vaddr)
        == b@[i].contains_vaddr(vaddr) by {
        assert(a@[i].base_vaddr() == b@[i].base_vaddr());
    }
    if a.covered(vaddr) {
        let w = choose|w: int| 0 <= w < a@.len() && (#[trigger] a@[w]).contains_vaddr(vaddr);
        a.lemma_covered_has_first(w, vaddr);
        let f = a.first_covering(vaddr).unwrap();
        assert(b.is_first_covering(f, vaddr)) by {
            assert forall|j: int| 0 <= j < f implies !(#[trigger] b@[j]).contains_vaddr(vaddr) by {
                assert(!a@[j].contains_vaddr(vaddr));
            }
        }
        b.lemma_first_covering(f, vaddr);
    } else {
        if b.covered(vaddr) {
            let w = choose|w: int| 0 <= w < b@.len() && (#[trigger] b@[w]).contains_vaddr(vaddr);
            assert(a@[w].contains_vaddr(vaddr));
        }
    }
}

/// Resolving a fault is idempotent: once a fault at an address has been
/// resolved, a further fault at that address is resolved without anything
/// left to do, it changes no resident page, and the page is still recorded
/// once.
pub proof fn lemma_refault_changes_nothing(
    before: MemorySpace,
    after: MemorySpace,
    again: MemorySpace,
    cpu_exception: CpuExceptionInfo,
    frame: Option<Frame>,
    next_frame: Option<Frame>,
    r: Result<FaultAction, ()>,
    r2: Result<FaultAction, ()>,
)
    requires
        before.wf(),
        after.wf(),
        again.wf(),
        fault_step(before, after, cpu_exception, frame, r),
        r is Ok,
        fault_step(after, again, cpu_exception, next_frame, r2),
    ensures
        r2 == Ok::<FaultAction, ()>(FaultAction::AlreadyResident),
        again.page_table() == after.page_table(),
        forall|i: int| 0 <= i < after@.len() ==> (#[trigger] again@[i]).resident() == after@[i].resident(),
        after.is_resident(page_base(cpu_exception.page_fault_addr)),
        forall|i: int, k: int, i2: int, k2: int|
            #[trigger] again.is_at(i, k, page_base(cpu_exception.page_fault_addr))
                && #[trigger] again.is_at(i2, k2, page_base(cpu_exception.page_fault_addr)) ==> i == i2
                && k == k2,
{
    let vaddr = cpu_exception.page_fault_addr;
    let page = page_base(vaddr);
    assert(fault_area(before, cpu_exception) is Some);
    let w = choose|w: int| 0 <= w < before@.len() && (#[trigger] before@[w]).contains_vaddr(vaddr);
    before.lemma_covered_has_first(w, vaddr);
    let i = fault_area(before, cpu_exception).unwrap();
    assert forall|j: int| 0 <= j < before@.len() implies (#[trigger] before@[j]).base_vaddr()
        == after@[j].base_vaddr() && before@[j].pages() == after@[j].pages() by {
        if j != i {
            assert(after@[j] == before@[j]);
        }
    }
    lemma_same_ranges_same_cover(before, after, vaddr);
    assert(fault_area(after, cpu_exception) == Some(i));
    let outcome = fault_outcome(before, cpu_exception, frame);
    let action = r.unwrap();
    assert(outcome == Ok::<FaultAction, crate::error::Error>(action));
    // The page is resident in the area that answers.
    if action.mapping() is Some {
        let mapping = action.mapping().unwrap();
        let k = before@[i].resident().len() as int;
        assert(after@[i].resident()[k] == mapping);
        assert(mapping.base_vaddr == page);
        assert(after@[i].is_resident(page));
        assert(after.is_at(i, k, page));
    } else {
        assert(before@[i].is_resident(page));
        let k = choose|k: int|
            0 <= k < before@[i].resident().len() && #[trigger] before@[i].resident()[k].base_vaddr == page;
        assert(after@[i].resident()[k].base_vaddr == page);
        assert(after@[i].is_resident(page));
        assert(after.is_at(i, k, page));
    }
    assert(fault_outcome(after, cpu_exception, next_frame) == Ok::<FaultAction, crate::error::Error>(
        FaultAction::AlreadyResident,
    ));
    assert forall|j: int| 0 <= j < after@.len() implies (#[trigger] again@[j]).resident()
        == after@[j].resident() by {
        if j != i {
            assert(again@[j] == after@[j]);
        }
    }
    lemma_fault_page_table(after, again, cpu_exception, next_frame, r2);
    assert forall|a: int, k: int, a2: int, k2: int|
        #[trigger] again.is_at(a, k, page) && #[trigger] again.is_at(a2, k2, page) implies a == a2 && k
        == k2 by {
        again.lemma_resident_once(a, k, page);
    }
}

/// After a change of protection, the bytes of an area that the range
/// touches may be read if the new permissions allow reading, and written if
/// they allow writing.
pub proof fn lemma_protect_governs_access(
    before: MemorySpace,
    after: MemorySpace,
    vaddr: Vaddr,
    len: usize,
    perms: PageFlags,
    addr: Vaddr,
)
    requires
        before.wf(),
        after.is_reprotected(before, vaddr, len, perms),
        before.first_covering(addr) matches Some(i) && before@[i].intersects(vaddr, len),
    ensures
        after.permits(addr, false) == perms.readable(),
        after.permits(addr, true) == perms.writable(),
{
    let w = choose|w: int| 0 <= w < before@.len() && (#[trigger] before@[w]).contains_vaddr(addr);
    before.lemma_covered_has_first(w, addr);
    assert forall|j: int| 0 <= j < before@.len() implies (#[trigger] after@[j]).base_vaddr()
        == before@[j].base_vaddr() && after@[j].pages() == before@[j].pages() by {
        if before@[j].intersects(vaddr, len) {
        } else {
            assert(after@[j] == before@[j]);
        }
    }
    lemma_same_ranges_same_cover(after, before, addr);
}

/// A change of protection changes the page table that the space stands for
/// as it changes the page table itself, where no area reaches beyond the
/// range that it touches. (An area that does is put under the new
/// permissions as a whole, while the page table changes the pages in the
/// range only.)
pub proof fn lemma_protect_page_table(
    before: MemorySpace,
    after: MemorySpace,
    vaddr: Vaddr,
    len: usize,
    perms: PageFlags,
)
    requires
        before.wf(),
        after.wf(),
        after.is_reprotected(before, vaddr, len, perms),
        forall|i: int|
            0 <= i < before@.len() && (#[trigger] before@[i]).intersects(vaddr, len) ==> vaddr
                <= before@[i].base_vaddr() && before@[i].end() <= vaddr + len,
    ensures
        after.page_table() == protected(before.page_table(), vaddr, len, perms),
{
    let table = protected(before.page_table(), vaddr, len, perms);
    assert forall|i: int, k: int| 0 <= i < before@.len() && 0 <= k < before@[i].resident().len() implies {
        &&& 0 <= k < after@[i].resident().len()
        &&& (#[trigger] after@[i].resident()[k]).base_vaddr == before@[i].resident()[k].base_vaddr
        &&& after@[i].resident()[k].frame == before@[i].resident()[k].frame
        &&& after@[i].resident()[k].perms == if before@[i].intersects(vaddr, len) {
            perms
        } else {
            before@[i].resident()[k].perms
        }
    } by {
        if before@[i].intersects(vaddr, len) {
            assert(after@[i].is_reprotected(before@[i], perms));
        } else {
            assert(after@[i] == before@[i]);
        }
    }
    assert forall|i: int| 0 <= i < before@.len() implies (#[trigger] after@[i]).resident().len()
        == before@[i].resident().len() by {
        if before@[i].intersects(vaddr, len) {
            assert(after@[i].is_reprotected(before@[i], perms));
        } else {
            assert(after@[i] == before@[i]);
        }
    }
    assert forall|page: Vaddr| #[trigger] table.dom().contains(page) <==> after.is_resident(page) by {
        if after.is_resident(page) {
            let (i, k) = choose|i: int, k: int| #[trigger] after.is_at(i, k, page);
            assert(after@[i].resident().len() == before@[i].resident().len());
            assert(after@[i].resident()[k].base_vaddr == before@[i].resident()[k].base_vaddr);
            assert(before.is_at(i, k, page));
        }
        if before.is_resident(page) {
            let (i, k) = choose|i: int, k: int| #[trigger] before.is_at(i, k, page);
            assert(after@[i].resident()[k].base_vaddr == before@[i].resident()[k].base_vaddr);
            assert(after.is_at(i, k, page));
        }
    }
    assert forall|i: int, k: int| 0 <= i < after@.len() && 0 <= k < after@[i].resident().len() implies table[(
    #[trigger] after@[i].resident()[k]).base_vaddr] == entry_of(after@[i].resident()[k]) by {
        let page = after@[i].resident()[k].base_vaddr;
        assert(after@[i].resident().len() == before@[i].resident().len());
        assert(after@[i].resident()[k].base_vaddr == before@[i].resident()[k].base_vaddr);
        assert(before.is_at(i, k, page));
        before.lemma_resident_once(i, k, page);
        assert(before@[i].wf());
        assert(before@[i].contains_vaddr(page));
        assert(crate::mm::fault::is_page_aligned(before@[i].resident()[k].base_vaddr));
        if before@[i].intersects(vaddr, len) {
            assert(vaddr <= page < vaddr + len);
        } else {
            assert(page % 4096 == 0);
            assert(before@[i].base_vaddr() % 4096 == 0);
            assert(!(vaddr <= page < vaddr + len)) by {
                if vaddr <= page < vaddr + len {
                    assert(before@[i].base_vaddr() <= page);
                    assert(page < before@[i].end());
                    assert(before@[i].base_vaddr() < vaddr + len);
                    assert(before@[i].end() > vaddr);
                }
            }
        }
    }
    after.lemma_stands_for(table);
}

/// The copy of a space stands for a page table with the same pages under
/// the same permissions, each on the frame that was brought for it.
pub proof fn lemma_duplicate_page_table(parent: MemorySpace, child: MemorySpace, frames: Seq<Vec<Frame>>)
    requires
        parent.wf(),
        child.wf(),
        parent.matches_frames(frames),
        child.is_duplicate_of(parent, frames),
    ensures
        child.page_table().dom() == parent.page_table().dom(),
        forall|page: Vaddr| #[trigger]
            parent.page_table().dom().contains(page) ==> child.page_table()[page].perms
                == parent.page_table()[page].perms,
        forall|i: int, k: int|
            0 <= i < parent@.len() && 0 <= k < parent@[i].resident().len() ==> child.page_table()[(
            #[trigger] parent@[i].resident()[k]).base_vaddr].frame == frames[i]@[k],
{
    assert forall|i: int, k: int| 0 <= i < parent@.len() && 0 <= k < parent@[i].resident().len() implies {
        &&& 0 <= k < child@[i].resident().len()
        &&& (#[trigger] child@[i].resident()[k]).base_vaddr == parent@[i].resident()[k].base_vaddr
        &&& child@[i].resident()[k].frame == frames[i]@[k]
        &&& child@[i].resident()[k].perms == parent@[i].resident()[k].perms
    } by {
        assert(child@[i].same_shape(parent@[i]));
        assert(parent@[i].wf());
    }
    assert forall|i: int| 0 <= i < parent@.len() implies (#[trigger] child@[i]).resident().len()
        == parent@[i].resident().len() by {
        assert(child@[i].same_shape(parent@[i]));
    }
    assert forall|page: Vaddr| child.is_resident(page) <==> parent.is_resident(page) by {
        if child.is_resident(page) {
            let (i, k) = choose|i: int, k: int| #[trigger] child.is_at(i, k, page);
            assert(child@[i].resident().len() == parent@[i].resident().len());
            assert(child@[i].resident()[k].base_vaddr == parent@[i].resident()[k].base_vaddr);
            assert(parent.is_at(i, k, page));
        }
        if parent.is_resident(page) {
            let (i, k) = choose|i: int, k: int| #[trigger] parent.is_at(i, k, page);
            assert(child@[i].resident()[k].base_vaddr == parent@[i].resident()[k].base_vaddr);
            assert(child.is_at(i, k, page));
        }
    }
    assert(child.page_table().dom() =~= parent.page_table().dom());
    assert forall|page: Vaddr| #[trigger] parent.page_table().dom().contains(page) implies child.page_table()[page].perms
        == parent.page_table()[page].perms by {
        let (i, k) = choose|i: int, k: int| #[trigger] parent.is_at(i, k, page);
        parent.lemma_resident_once(i, k, page);
        assert(child@[i].resident()[k].base_vaddr == parent@[i].resident()[k].base_vaddr);
        assert(child.is_at(i, k, page));
        child.lemma_resident_once(i, k, page);
    }
    assert forall|i: int, k: int|
        0 <= i < parent@.len() && 0 <= k < parent@[i].resident().len() implies child.page_table()[(
    #[trigger] parent@[i].resident()[k]).base_vaddr].frame == frames[i]@[k] by {
        let page = parent@[i].resident()[k].base_vaddr;
        assert(child@[i].resident()[k].base_vaddr == page);
        assert(child.is_at(i, k, page));
        child.lemma_resident_once(i, k, page);
    }
}

/// A space and its copy share no frame, if none of the frames that were
/// brought for the copy backs a page of the space: what one process writes to
/// its pages after a fork, the other does not see.
pub proof fn lemma_duplicate_is_isolated(parent: MemorySpace, child: MemorySpace, frames: Seq<Vec<Frame>>)
    requires
        parent.matches_frames(frames),
        child.is_duplicate_of(parent, frames),
        forall|i: int, k: int|
            0 <= i < parent@.len() && 0 <= k < parent@[i].resident().len() ==> !parent.holds_frame(
                #[trigger] frames[i]@[k],
            ),
    ensures
        forall|frame: Frame| !(#[trigger] child.holds_frame(frame) && parent.holds_frame(frame)),
{
    assert forall|frame: Frame| !(#[trigger] child.holds_frame(frame) && parent.holds_frame(frame)) by {
        if child.holds_frame(frame) {
            let (i, k) = choose|i: int, k: int|
                0 <= i < child@.len() && 0 <= k < child@[i].resident().len() && (
                #[trigger] child@[i].resident()[k]).frame == frame;
            assert(child@[i].same_shape(parent@[i]));
            assert(child@[i].resident()[k].frame == frames[i]@[k]);
            assert(!parent.holds_frame(frames[i]@[k]));
        }
    }
}

} // verus!
