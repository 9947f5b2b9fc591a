use pagefault::error::{Errno, Error};
use pagefault::mm::frame::Frame;
use pagefault::mm::mapping::VmMapping;
use pagefault::mm::page_flags::{PageFlags, ACCESSED, ALL, AVAIL2, DIRTY, R, W, X};

#[test]
fn page_flags_keep_known_bits_only() {
    assert_eq!(PageFlags::from_bits_truncate(0xff).bits(), ALL);
    assert_eq!(PageFlags::from_bits_truncate(0x60).bits(), 0);
    assert_eq!(PageFlags::from_bits_truncate(R | 0x20).bits(), R);
    assert_eq!(ALL, R | W | X | ACCESSED | DIRTY | AVAIL2);
    assert_eq!(PageFlags::empty().bits(), 0);
}

#[test]
fn page_flags_set_operations() {
    let rw = PageFlags::from_bits_truncate(R | W);
    let x = PageFlags::from_bits_truncate(X);
    assert!(rw.contains(PageFlags::from_bits_truncate(R)));
    assert!(rw.contains(PageFlags::empty()));
    assert!(!rw.contains(x));
    assert!(!rw.contains(PageFlags::from_bits_truncate(R | X)));
    assert_eq!(rw.union(x).bits(), R | W | X);
    let mut flags = rw.union(x);
    flags.remove(PageFlags::from_bits_truncate(W | DIRTY));
    assert_eq!(flags.bits(), R | X);
    assert!(flags.readable());
    assert!(!flags.writable());
    assert!(rw.writable());
    assert!(!x.readable());
}

#[test]
fn mapping_covers_one_page() {
    let perms = PageFlags::from_bits_truncate(R | W);
    let frame = Frame::new(0x8000_0000);
    let mut mapping = VmMapping::new(0x5000, perms, frame);
    assert_eq!(mapping.base_vaddr(), 0x5000);
    assert_eq!(mapping.frame(), frame);
    assert_eq!(mapping.perms(), perms);
    assert!(mapping.contains_vaddr(0x5000));
    assert!(mapping.contains_vaddr(0x5fff));
    assert!(!mapping.contains_vaddr(0x4fff));
    assert!(!mapping.contains_vaddr(0x6000));
    mapping.remove_perm(PageFlags::from_bits_truncate(W));
    assert_eq!(mapping.perms().bits(), R);
    mapping.set_perms(PageFlags::from_bits_truncate(X));
    assert_eq!(mapping.perms().bits(), X);
    assert_eq!(mapping.base_vaddr(), 0x5000);
    assert_eq!(mapping.frame(), frame);
    let last = VmMapping::new(usize::MAX - 4095, perms, frame);
    assert!(last.contains_vaddr(usize::MAX));
    assert!(!last.contains_vaddr(0));
}

#[test]
fn errors_carry_their_numbers() {
    let numbers = [
        (Errno::ENOENT, 2),
        (Errno::EBADF, 9),
        (Errno::ECHILD, 10),
        (Errno::EAGAIN, 11),
        (Errno::ENOMEM, 12),
        (Errno::EACCES, 13),
        (Errno::EFAULT, 14),
        (Errno::ENOTDIR, 20),
        (Errno::EISDIR, 21),
        (Errno::EINVAL, 22),
        (Errno::ENOSYS, 38),
    ];
    for (errno, number) in numbers {
        assert_eq!(Error::new(errno).code(), number);
        assert_eq!(Error::new(errno).code, errno);
    }
}
