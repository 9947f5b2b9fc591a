use std::collections::HashMap;

use pagefault::error::{Errno, Error};
use pagefault::fs::InodeRef;
use pagefault::mm::area::VmArea;
use pagefault::mm::fault::{FaultAction, PageFaultHandler};
use pagefault::mm::frame::{Frame, Segment, PAGE_SIZE};
use pagefault::mm::io::{VmReader, VmWriter};
use pagefault::mm::mapping::VmMapping;
use pagefault::mm::page_flags::{PageFlags, R, W, X};
use pagefault::mm::{is_page_fault, page_fault_handler, CpuExceptionInfo, MemorySpace};
use pagefault::syscall::mmap::{sys_mmap, MMapInodeFaultHandler, MAP_ANONYMOUS, MAP_PRIVATE};
use pagefault::syscall::mprotect::{sys_mprotect, translate_prot_flags, PROT_READ, PROT_WRITE};
use pagefault::syscall::SyscallReturn;
use riscv::interrupt::supervisor::Exception;

/// A stand-in for the kernel around the library: physical memory, one page
/// table, a frame allocator and the files that can be mapped.
struct Machine {
    memory: HashMap<usize, Vec<u8>>,
    table: HashMap<usize, (usize, PageFlags)>,
    files: HashMap<usize, Vec<u8>>,
    next_frame: usize,
    faults: usize,
}

impl Machine {
    fn new() -> Machine {
        Machine {
            memory: HashMap::new(),
            table: HashMap::new(),
            files: HashMap::new(),
            next_frame: 0x8000_0000,
            faults: 0,
        }
    }

    fn fresh_frame(&mut self) -> Frame {
        let frame = Frame::new(self.next_frame);
        self.next_frame += PAGE_SIZE;
        self.memory.insert(frame.start_paddr(), vec![0u8; PAGE_SIZE]);
        frame
    }

    fn install(&mut self, mapping: VmMapping) {
        let before = self.table.insert(mapping.base_vaddr, (mapping.frame.start_paddr(), mapping.perms));
        assert!(before.is_none(), "a page was installed twice");
    }

    fn carry_out(&mut self, action: FaultAction) {
        match action {
            FaultAction::AlreadyResident => {}
            FaultAction::MapZeroed { mapping } => self.install(mapping),
            FaultAction::MapFile { mapping, inode, offset } => {
                let file = self.files.get(&inode.id).unwrap().clone();
                let end = file.len().min(offset + PAGE_SIZE);
                let frame = self.memory.get_mut(&mapping.frame.start_paddr()).unwrap();
                if offset < end {
                    frame[..end - offset].copy_from_slice(&file[offset..end]);
                }
                self.install(mapping);
            }
        }
    }

    fn fault(&mut self, space: &mut MemorySpace, vaddr: usize, code: Exception) -> Result<(), ()> {
        self.faults += 1;
        let frame = self.fresh_frame();
        let info = CpuExceptionInfo { code, page_fault_addr: vaddr };
        let action = page_fault_handler(space, &info, Some(frame))?;
        self.carry_out(action);
        Ok(())
    }

    fn store(&mut self, space: &mut MemorySpace, vaddr: usize, byte: u8) -> Result<(), Error> {
        let writer = space.writer(vaddr, 1)?;
        assert_eq!(writer, VmWriter { vaddr, len: 1 });
        let page = vaddr - vaddr % PAGE_SIZE;
        if !self.table.contains_key(&page) {
            self.fault(space, vaddr, Exception::StorePageFault).map_err(|_| Error::new(Errno::EFAULT))?;
        }
        let (paddr, perms) = self.table[&page];
        assert!(perms.writable());
        self.memory.get_mut(&paddr).unwrap()[vaddr % PAGE_SIZE] = byte;
        Ok(())
    }

    fn load(&mut self, space: &mut MemorySpace, vaddr: usize) -> Result<u8, Error> {
        let reader = space.reader(vaddr, 1)?;
        assert_eq!(reader, VmReader { vaddr, len: 1 });
        let page = vaddr - vaddr % PAGE_SIZE;
        if !self.table.contains_key(&page) {
            self.fault(space, vaddr, Exception::LoadPageFault).map_err(|_| Error::new(Errno::EFAULT))?;
        }
        let (paddr, perms) = self.table[&page];
        assert!(perms.readable());
        Ok(self.memory[&paddr][vaddr % PAGE_SIZE])
    }
}

fn rw() -> PageFlags {
    PageFlags::from_bits_truncate(R | W)
}

const BASE: usize = 0x1000_0000;

#[test]
fn only_the_three_page_faults_are_page_faults() {
    assert!(is_page_fault(Exception::InstructionPageFault));
    assert!(is_page_fault(Exception::LoadPageFault));
    assert!(is_page_fault(Exception::StorePageFault));
    assert!(!is_page_fault(Exception::IllegalInstruction));
    assert!(!is_page_fault(Exception::LoadFault));
    assert!(!is_page_fault(Exception::StoreMisaligned));
    assert!(!is_page_fault(Exception::UserEnvCall));
    assert!(!is_page_fault(Exception::Breakpoint));
}

#[test]
fn dispatcher_rejects_what_is_no_page_fault() {
    let mut space = MemorySpace::new();
    space.add_area(VmArea::new_with_handler(BASE, 1, rw(), PageFaultHandler::Allocation));
    let info = CpuExceptionInfo { code: Exception::IllegalInstruction, page_fault_addr: BASE };
    assert_eq!(page_fault_handler(&mut space, &info, Some(Frame::new(0x8000_0000))), Err(()));
    assert!(space.areas()[0].mappings().is_empty());
}

#[test]
fn dispatcher_fails_where_no_area_holds_the_address() {
    let mut space = MemorySpace::new();
    space.add_area(VmArea::new_with_handler(BASE, 1, rw(), PageFaultHandler::Allocation));
    for vaddr in [BASE - 1, BASE + PAGE_SIZE, 0] {
        let info = CpuExceptionInfo { code: Exception::LoadPageFault, page_fault_addr: vaddr };
        assert_eq!(page_fault_handler(&mut space, &info, Some(Frame::new(0x8000_0000))), Err(()));
    }
    assert!(space.areas()[0].mappings().is_empty());
}

#[test]
fn deny_policy_never_resolves() {
    let mut space = MemorySpace::new();
    space.add_area(VmArea::new(BASE, 2, rw()));
    assert_eq!(space.areas()[0].page_fault_handler(), PageFaultHandler::Default);
    let info = CpuExceptionInfo { code: Exception::StorePageFault, page_fault_addr: BASE + 5 };
    assert_eq!(page_fault_handler(&mut space, &info, Some(Frame::new(0x8000_0000))), Err(()));
    assert!(space.areas()[0].mappings().is_empty());

    let mut area = VmArea::new(BASE, 2, rw());
    assert_eq!(
        area.handle_page_fault(BASE, Exception::LoadPageFault, Some(Frame::new(0x8000_0000))),
        Err(Error::new(Errno::EFAULT))
    );
}

#[test]
fn allocation_without_a_frame_is_out_of_memory() {
    let mut area = VmArea::new_with_handler(BASE, 2, rw(), PageFaultHandler::Allocation);
    assert_eq!(area.handle_page_fault(BASE, Exception::LoadPageFault, None), Err(Error::new(Errno::ENOMEM)));
    assert!(area.mappings().is_empty());

    let handler = PageFaultHandler::MMapInode(MMapInodeFaultHandler { base_vaddr: BASE, inode: InodeRef { id: 1 } });
    let mut area = VmArea::new_with_handler(BASE, 2, rw(), handler);
    assert_eq!(area.handle_page_fault(BASE, Exception::LoadPageFault, None), Err(Error::new(Errno::ENOMEM)));
    assert!(area.mappings().is_empty());

    let mut space = MemorySpace::new();
    space.add_area(VmArea::new_with_handler(BASE, 1, rw(), PageFaultHandler::Allocation));
    let info = CpuExceptionInfo { code: Exception::StorePageFault, page_fault_addr: BASE };
    assert_eq!(page_fault_handler(&mut space, &info, None), Err(()));
}

#[test]
fn anonymous_fault_maps_the_page_of_the_address() {
    let mut space = MemorySpace::new();
    space.add_area(VmArea::new_with_handler(BASE, 4, rw(), PageFaultHandler::Allocation));
    let frame = Frame::new(0x8000_3000);
    let info = CpuExceptionInfo { code: Exception::StorePageFault, page_fault_addr: BASE + 2 * PAGE_SIZE + 0x123 };
    let expected = VmMapping { base_vaddr: BASE + 2 * PAGE_SIZE, frame, perms: rw() };
    assert_eq!(page_fault_handler(&mut space, &info, Some(frame)), Ok(FaultAction::MapZeroed { mapping: expected }));
    assert_eq!(space.areas()[0].mappings().as_slice(), &[expected]);
    assert_eq!(FaultAction::MapZeroed { mapping: expected }.mapping(), Some(expected));
    assert_eq!(FaultAction::AlreadyResident.mapping(), None);
}

#[test]
fn anonymous_demand_fault() {
    let mut machine = Machine::new();
    let mut space = MemorySpace::new();
    let granted = sys_mmap(BASE as u64, PAGE_SIZE as u64, (R | W) as u64, MAP_PRIVATE | MAP_ANONYMOUS, None, 0, &mut space);
    assert_eq!(granted, Ok(SyscallReturn(BASE as isize)));
    // Nothing is resident before the first access.
    assert!(machine.table.is_empty());
    assert!(space.areas()[0].mappings().is_empty());

    machine.store(&mut space, BASE + 7, 0xAB).unwrap();
    assert_eq!(machine.faults, 1);
    assert_eq!(machine.table.len(), 1);

    // The same write goes through without a second fault.
    machine.store(&mut space, BASE + 7, 0xAB).unwrap();
    assert_eq!(machine.faults, 1);
    assert_eq!(machine.load(&mut space, BASE + 7), Ok(0xAB));
    assert_eq!(machine.load(&mut space, BASE + 8), Ok(0));
    assert_eq!(machine.faults, 1);
}

#[test]
fn file_backed_mapping_shows_the_file() {
    let mut machine = Machine::new();
    let mut contents = b"hello".to_vec();
    contents.resize(PAGE_SIZE + 3, b'.');
    contents[PAGE_SIZE] = b'w';
    machine.files.insert(7, contents);
    let mut space = MemorySpace::new();
    let granted = sys_mmap(BASE as u64, 2 * PAGE_SIZE as u64, R as u64, MAP_PRIVATE, Some(InodeRef { id: 7 }), 0, &mut space);
    assert_eq!(granted, Ok(SyscallReturn(BASE as isize)));

    let mut read = Vec::new();
    for i in 0..5 {
        read.push(machine.load(&mut space, BASE + i).unwrap());
    }
    assert_eq!(read, b"hello");
    assert_eq!(machine.faults, 1);
    // The second page of the mapping shows the second page of the file.
    assert_eq!(machine.load(&mut space, BASE + PAGE_SIZE), Ok(b'w'));
    assert_eq!(machine.load(&mut space, BASE + PAGE_SIZE + 3), Ok(0));
    assert_eq!(machine.faults, 2);
}

#[test]
fn file_backed_fault_names_the_offset_in_the_file() {
    let inode = InodeRef { id: 3 };
    let handler = MMapInodeFaultHandler { base_vaddr: BASE, inode };
    let mut area = VmArea::new_with_handler(BASE, 8, rw(), PageFaultHandler::MMapInode(handler));
    let frame = Frame::new(0x8000_0000);
    let action = area.handle_page_fault(BASE + 5 * PAGE_SIZE + 17, Exception::LoadPageFault, Some(frame));
    let mapping = VmMapping { base_vaddr: BASE + 5 * PAGE_SIZE, frame, perms: rw() };
    assert_eq!(action, Ok(FaultAction::MapFile { mapping, inode, offset: 5 * PAGE_SIZE }));
    assert_eq!(area.mappings().as_slice(), &[mapping]);
}

#[test]
fn refault_is_idempotent() {
    let mut space = MemorySpace::new();
    space.add_area(VmArea::new_with_handler(BASE, 2, rw(), PageFaultHandler::Allocation));
    let info = CpuExceptionInfo { code: Exception::StorePageFault, page_fault_addr: BASE + 10 };
    let first = page_fault_handler(&mut space, &info, Some(Frame::new(0x8000_0000)));
    assert!(matches!(first, Ok(FaultAction::MapZeroed { .. })));
    let second = page_fault_handler(&mut space, &info, Some(Frame::new(0x8000_1000)));
    assert_eq!(second, Ok(FaultAction::AlreadyResident));
    // Another address of the same page, another kind of access, no frame.
    let info = CpuExceptionInfo { code: Exception::LoadPageFault, page_fault_addr: BASE + 4095 };
    assert_eq!(page_fault_handler(&mut space, &info, None), Ok(FaultAction::AlreadyResident));
    let mappings = space.areas()[0].mappings();
    assert_eq!(mappings.iter().filter(|m| m.base_vaddr == BASE).count(), 1);
    assert_eq!(mappings.len(), 1);
    assert_eq!(mappings[0].frame, Frame::new(0x8000_0000));
}

#[test]
fn duplicate_isolates_parent_and_child() {
    let mut parent_machine = Machine::new();
    let mut parent = MemorySpace::new();
    parent.add_area(VmArea::new_with_handler(BASE, 2, rw(), PageFaultHandler::Allocation));
    parent_machine.store(&mut parent, BASE, 0x11).unwrap();
    parent_machine.store(&mut parent, BASE + PAGE_SIZE, 0x22).unwrap();

    // Fork: one fresh frame for each resident page, filled with the bytes of
    // the frame that it copies, and installed in a page table of its own.
    let mut child_machine = Machine::new();
    child_machine.next_frame = 0x9000_0000;
    let frames: Vec<Vec<Frame>> =
        parent.areas().iter().map(|area| area.mappings().iter().map(|_| child_machine.fresh_frame()).collect()).collect();
    let mut child = parent.duplicate(&frames);
    for (old_area, new_area) in parent.areas().iter().zip(child.areas().iter()) {
        assert_eq!(new_area.base_vaddr(), old_area.base_vaddr());
        assert_eq!(new_area.pages(), old_area.pages());
        assert_eq!(new_area.perms(), old_area.perms());
        assert_eq!(new_area.page_fault_handler(), old_area.page_fault_handler());
        assert_eq!(new_area.mappings().len(), old_area.mappings().len());
        for (old, new) in old_area.mappings().iter().zip(new_area.mappings().iter()) {
            assert_eq!(new.base_vaddr, old.base_vaddr);
            assert_eq!(new.perms, old.perms);
            assert_ne!(new.frame, old.frame);
            let bytes = parent_machine.memory[&old.frame.start_paddr()].clone();
            child_machine.memory.insert(new.frame.start_paddr(), bytes);
            child_machine.install(*new);
        }
    }
    assert_eq!(child.areas()[0].mappings()[0].frame, frames[0][0]);
    assert_eq!(child.areas()[0].mappings()[1].frame, frames[0][1]);

    assert_eq!(child_machine.load(&mut child, BASE), Ok(0x11));
    assert_eq!(child_machine.load(&mut child, BASE + PAGE_SIZE), Ok(0x22));
    child_machine.store(&mut child, BASE, 0x33).unwrap();
    child_machine.store(&mut child, BASE + PAGE_SIZE, 0x44).unwrap();
    assert_eq!(child_machine.faults, 0);

    assert_eq!(parent_machine.load(&mut parent, BASE), Ok(0x11));
    assert_eq!(parent_machine.load(&mut parent, BASE + PAGE_SIZE), Ok(0x22));
    assert_eq!(child_machine.load(&mut child, BASE), Ok(0x33));
    assert_eq!(child_machine.load(&mut child, BASE + PAGE_SIZE), Ok(0x44));

    parent_machine.store(&mut parent, BASE + 1, 0x55).unwrap();
    assert_eq!(child_machine.load(&mut child, BASE + 1), Ok(0));
}

#[test]
fn duplicate_of_an_empty_space_is_empty() {
    let parent = MemorySpace::new();
    let child = parent.duplicate(&Vec::new());
    assert!(child.areas().is_empty());
    let same = MemorySpace::default();
    assert!(same.areas().is_empty());
}

#[test]
fn protect_makes_the_area_read_only() {
    let mut machine = Machine::new();
    let mut space = MemorySpace::new();
    space.add_area(VmArea::new_with_handler(BASE, 1, rw(), PageFaultHandler::Allocation));
    machine.store(&mut space, BASE, 9).unwrap();

    let read_only = PageFlags::from_bits_truncate(R);
    assert_eq!(space.protect(BASE, PAGE_SIZE, read_only, Ok(())), Ok(()));
    assert_eq!(space.writer(BASE, PAGE_SIZE), Err(Error::new(Errno::EFAULT)));
    assert_eq!(space.writer(BASE + 100, 1), Err(Error::new(Errno::EFAULT)));
    assert_eq!(space.reader(BASE, PAGE_SIZE), Ok(VmReader { vaddr: BASE, len: PAGE_SIZE }));
    assert_eq!(space.areas()[0].perms(), read_only);
    assert_eq!(space.areas()[0].mappings()[0].perms, read_only);
    assert_eq!(space.areas()[0].mappings()[0].base_vaddr, BASE);
}

#[test]
fn protect_fails_only_with_the_page_table() {
    let mut space = MemorySpace::new();
    space.add_area(VmArea::new_with_handler(BASE, 1, rw(), PageFaultHandler::Allocation));
    let refused = space.protect(BASE + 1, PAGE_SIZE, PageFlags::from_bits_truncate(R), Err(Error::new(Errno::EACCES)));
    assert_eq!(refused, Err(Error::new(Errno::EINVAL)));
    assert_eq!(space.areas()[0].perms(), rw());
    assert_eq!(space.writer(BASE, 1), Ok(VmWriter { vaddr: BASE, len: 1 }));
}

#[test]
fn protect_widens_to_the_whole_area_and_spares_the_others() {
    let mut space = MemorySpace::new();
    space.add_area(VmArea::new_with_handler(BASE, 4, rw(), PageFaultHandler::Allocation));
    space.add_area(VmArea::new_with_handler(BASE + 4 * PAGE_SIZE, 4, rw(), PageFaultHandler::Allocation));
    space.add_area(VmArea::new_with_handler(BASE + 8 * PAGE_SIZE, 1, rw(), PageFaultHandler::Allocation));
    let info = CpuExceptionInfo { code: Exception::StorePageFault, page_fault_addr: BASE };
    page_fault_handler(&mut space, &info, Some(Frame::new(0x8000_0000))).unwrap();
    let info = CpuExceptionInfo { code: Exception::StorePageFault, page_fault_addr: BASE + 8 * PAGE_SIZE };
    page_fault_handler(&mut space, &info, Some(Frame::new(0x8000_1000))).unwrap();

    // One page in the middle of the first area, up to the start of the second.
    let none = PageFlags::empty();
    assert_eq!(space.protect(BASE + 3 * PAGE_SIZE, PAGE_SIZE, none, Ok(())), Ok(()));
    assert_eq!(space.areas()[0].perms(), none);
    assert_eq!(space.areas()[0].mappings()[0].perms, none);
    assert_eq!(space.areas()[1].perms(), rw());
    assert_eq!(space.areas()[2].perms(), rw());
    assert_eq!(space.areas()[2].mappings()[0].perms, rw());
    assert_eq!(space.reader(BASE, 1), Err(Error::new(Errno::EFAULT)));
    assert_eq!(space.reader(BASE + 4 * PAGE_SIZE, 1), Ok(VmReader { vaddr: BASE + 4 * PAGE_SIZE, len: 1 }));
}

#[test]
fn reader_and_writer_want_the_whole_range() {
    let mut space = MemorySpace::new();
    space.add_area(VmArea::new_with_handler(BASE, 2, rw(), PageFaultHandler::Allocation));
    space.add_area(VmArea::new_with_handler(BASE + 2 * PAGE_SIZE, 1, PageFlags::from_bits_truncate(R), PageFaultHandler::Allocation));
    let fault = Err(Error::new(Errno::EFAULT));

    assert_eq!(space.reader(BASE, 3 * PAGE_SIZE), Ok(VmReader { vaddr: BASE, len: 3 * PAGE_SIZE }));
    assert_eq!(space.reader(BASE + 1, 3 * PAGE_SIZE - 1), Ok(VmReader { vaddr: BASE + 1, len: 3 * PAGE_SIZE - 1 }));
    assert_eq!(space.reader(BASE, 3 * PAGE_SIZE + 1), fault);
    assert_eq!(space.reader(BASE - 1, 2), fault);
    assert_eq!(space.writer(BASE, 2 * PAGE_SIZE), Ok(VmWriter { vaddr: BASE, len: 2 * PAGE_SIZE }));
    assert_eq!(space.writer(BASE, 2 * PAGE_SIZE + 1), Err(Error::new(Errno::EFAULT)));
    assert_eq!(space.writer(BASE + 2 * PAGE_SIZE, 1), Err(Error::new(Errno::EFAULT)));
    // An empty range asks for nothing.
    assert_eq!(space.reader(0x10, 0), Ok(VmReader { vaddr: 0x10, len: 0 }));
    assert_eq!(space.writer(BASE + 2 * PAGE_SIZE, 0), Ok(VmWriter { vaddr: BASE + 2 * PAGE_SIZE, len: 0 }));
    // A range that runs over the end of the address space.
    assert_eq!(space.reader(usize::MAX, 2), fault);
    assert_eq!(space.reader(BASE, usize::MAX), fault);
}

#[test]
fn first_area_answers_where_areas_overlap() {
    let mut space = MemorySpace::new();
    space.add_area(VmArea::new_with_handler(BASE, 1, PageFlags::from_bits_truncate(R), PageFaultHandler::Allocation));
    space.add_area(VmArea::new_with_handler(BASE, 2, rw(), PageFaultHandler::Allocation));
    assert_eq!(space.find_area(BASE), Some(0));
    assert_eq!(space.find_area(BASE + PAGE_SIZE), Some(1));
    assert_eq!(space.find_area(BASE + 2 * PAGE_SIZE), None);
    assert_eq!(space.writer(BASE, 1), Err(Error::new(Errno::EFAULT)));
    assert_eq!(space.writer(BASE + PAGE_SIZE, 1), Ok(VmWriter { vaddr: BASE + PAGE_SIZE, len: 1 }));
    assert!(space.check_range(BASE, 2 * PAGE_SIZE, false));
    assert!(!space.check_range(BASE, 2 * PAGE_SIZE, true));

    let info = CpuExceptionInfo { code: Exception::LoadPageFault, page_fault_addr: BASE };
    page_fault_handler(&mut space, &info, Some(Frame::new(0x8000_0000))).unwrap();
    assert_eq!(space.areas()[0].mappings().len(), 1);
    assert!(space.areas()[1].mappings().is_empty());
}

#[test]
fn map_makes_every_page_resident() {
    let mut space = MemorySpace::new();
    let perms = PageFlags::from_bits_truncate(R | X);
    let frames = Segment::new(0x8010_0000, 3).unwrap();
    let back = space.map(VmArea::new(BASE, 3, perms), frames);
    assert_eq!(back, frames);
    let area = &space.areas()[0];
    assert_eq!(area.page_fault_handler(), PageFaultHandler::Default);
    let expected: Vec<VmMapping> = (0..3)
        .map(|i| VmMapping { base_vaddr: BASE + i * PAGE_SIZE, frame: Frame::new(0x8010_0000 + i * PAGE_SIZE), perms })
        .collect();
    assert_eq!(area.mappings(), &expected);
    assert_eq!(frames.frame(2), Frame::new(0x8010_2000));
    assert_eq!(frames.pages(), 3);
    assert_eq!(frames.start_paddr(), 0x8010_0000);

    // A fault on a page that was mapped eagerly finds it resident.
    let info = CpuExceptionInfo { code: Exception::InstructionPageFault, page_fault_addr: BASE + PAGE_SIZE };
    assert_eq!(page_fault_handler(&mut space, &info, None), Ok(FaultAction::AlreadyResident));
}

#[test]
fn segment_must_end_within_the_address_space() {
    assert_eq!(Segment::new(usize::MAX - 4096, 1).map(|s| s.pages()), Some(1));
    assert!(Segment::new(usize::MAX - 4095, 1).is_none());
    assert!(Segment::new(0, usize::MAX).is_none());
    assert!(Segment::new(usize::MAX, 0).is_some());
}

#[test]
fn clear_forgets_every_area() {
    let mut space = MemorySpace::new();
    space.map(VmArea::new(BASE, 2, rw()), Segment::new(0x8000_0000, 2).unwrap());
    space.add_area(VmArea::new_with_handler(BASE + 0x10_0000, 1, rw(), PageFaultHandler::Allocation));
    assert_eq!(space.areas().len(), 2);
    space.clear();
    assert!(space.areas().is_empty());
    assert_eq!(space.reader(BASE, 1), Err(Error::new(Errno::EFAULT)));
    let info = CpuExceptionInfo { code: Exception::LoadPageFault, page_fault_addr: BASE };
    assert_eq!(page_fault_handler(&mut space, &info, Some(Frame::new(0x8000_0000))), Err(()));
}

#[test]
fn mmap_validates_address_and_kind() {
    let mut space = MemorySpace::new();
    let einval = Err(Error::new(Errno::EINVAL));
    // Not on a page boundary.
    assert_eq!(sys_mmap(BASE as u64 + 1, 4096, 3, MAP_PRIVATE | MAP_ANONYMOUS, None, 0, &mut space), einval);
    // Shared, or of no kind at all.
    assert_eq!(sys_mmap(BASE as u64, 4096, 3, 0x01 | MAP_ANONYMOUS, None, 0, &mut space), einval);
    assert_eq!(sys_mmap(BASE as u64, 4096, 3, MAP_ANONYMOUS, None, 0, &mut space), einval);
    assert_eq!(sys_mmap(BASE as u64, 4096, 3, 0x03 | MAP_ANONYMOUS, None, 0, &mut space), einval);
    // A file mapping without a file.
    assert_eq!(sys_mmap(BASE as u64, 4096, 3, MAP_PRIVATE, None, 0, &mut space), Err(Error::new(Errno::EBADF)));
    assert!(space.areas().is_empty());
}

#[test]
fn mmap_rounds_the_length_up_to_pages() {
    let mut space = MemorySpace::new();
    let flags = MAP_PRIVATE | MAP_ANONYMOUS;
    assert_eq!(sys_mmap(BASE as u64, 5000, 0xff, flags, None, 0, &mut space), Ok(SyscallReturn(BASE as isize)));
    assert_eq!(sys_mmap(0, 4096, 1, flags, Some(InodeRef { id: 1 }), 0, &mut space), Ok(SyscallReturn(0)));
    assert_eq!(sys_mmap(0x2000, 0, 2, flags, None, 0, &mut space), Ok(SyscallReturn(0x2000)));
    assert_eq!(sys_mmap(0x7000, 1, 2, MAP_PRIVATE, Some(InodeRef { id: 4 }), 99, &mut space), Ok(SyscallReturn(0x7000)));
    let areas = space.areas();
    assert_eq!(areas.len(), 4);
    assert_eq!((areas[0].base_vaddr(), areas[0].pages()), (BASE, 2));
    assert_eq!(areas[0].perms().bits(), 0x9f);
    assert_eq!(areas[0].page_fault_handler(), PageFaultHandler::Allocation);
    assert_eq!((areas[1].base_vaddr(), areas[1].pages()), (0, 1));
    assert_eq!(areas[1].page_fault_handler(), PageFaultHandler::Allocation);
    assert_eq!((areas[2].base_vaddr(), areas[2].pages()), (0x2000, 0));
    assert_eq!((areas[3].base_vaddr(), areas[3].pages()), (0x7000, 1));
    assert_eq!(
        areas[3].page_fault_handler(),
        PageFaultHandler::MMapInode(MMapInodeFaultHandler { base_vaddr: 0x7000, inode: InodeRef { id: 4 } })
    );
    assert!(areas.iter().all(|area| area.mappings().is_empty()));
}

#[test]
fn mprotect_translates_the_protection() {
    assert_eq!(translate_prot_flags(0).bits(), 0);
    assert_eq!(translate_prot_flags(PROT_READ).bits(), R);
    assert_eq!(translate_prot_flags(PROT_READ | PROT_WRITE).bits(), R | W);
    assert_eq!(translate_prot_flags(7).bits(), R | W | X);
    assert_eq!(translate_prot_flags(0xfff8).bits(), 0);
    assert_eq!(translate_prot_flags(0x15).bits(), R | X);

    let mut space = MemorySpace::new();
    space.add_area(VmArea::new_with_handler(BASE, 1, rw(), PageFaultHandler::Allocation));
    assert_eq!(sys_mprotect(BASE, PAGE_SIZE, PROT_READ, &mut space, Ok(())), Ok(SyscallReturn(0)));
    assert_eq!(space.areas()[0].perms().bits(), R);
    assert_eq!(space.writer(BASE, 1), Err(Error::new(Errno::EFAULT)));
    assert_eq!(
        sys_mprotect(BASE, PAGE_SIZE, PROT_WRITE, &mut space, Err(Error::new(Errno::EFAULT))),
        Err(Error::new(Errno::EINVAL))
    );
    assert_eq!(space.areas()[0].perms().bits(), R);
}
