use pagefault::mm::area::VmArea;
use pagefault::mm::page_flags::{PageFlags, R, W};

#[test]
fn area_contains_its_pages_and_nothing_else() {
    let base = 0x4000_0000usize;
    let area = VmArea::new(base, 3, PageFlags::from_bits_truncate(R | W));
    for page in 0..3usize {
        assert!(area.contains_vaddr(base + page * 4096));
    }
    assert!(area.contains_vaddr(base + 3 * 4096 - 1));
    assert!(!area.contains_vaddr(base - 1));
    assert!(!area.contains_vaddr(base + 3 * 4096));
}
