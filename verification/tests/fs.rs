use pagefault::drivers::virtio::blk::{BlockReq, BlockResp, ReqType, RespStatus, SECTOR_SIZE};
use pagefault::error::{Errno, Error};
use pagefault::fs::ext2::disk::{bytes_at, read_dir_block, u16_at, u32_at};
use pagefault::fs::ext2::inode::{
    inode_type_of, same_bytes, BlockPointers, BlockRead, Ext2DirEntry, Inode, OsDependent2, RawInode,
};
use pagefault::fs::ext2::super_block::{RawSuperBlock, SuperBlock};
use pagefault::fs::ext2::{BlockGroup, Ext2Bid, Ext2Fs, InodeLocation, RawGroupDescriptor, EXT2_MAGIC, ROOT_INO};
use pagefault::fs::file::{FileInode, Stderr, Stdin, Stdout};
use pagefault::fs::ramfs::{FrameChunk, RamFS, RamFile, RamInode};
use pagefault::fs::{InodeMeta, InodeRef, InodeType, Timestamp};
use pagefault::mm::frame::Frame;

fn raw_super_block() -> RawSuperBlock {
    RawSuperBlock {
        inodes_count: 128,
        blocks_count: 1024,
        log_block_size: 2,
        blocks_per_group: 1024,
        inodes_per_group: 128,
        magic: EXT2_MAGIC,
        inode_size: 256,
        first_ino: 11,
        mnt_count: 3,
        ..RawSuperBlock::default()
    }
}

fn file_system() -> Ext2Fs {
    let sb = SuperBlock::from(raw_super_block());
    assert!(Ext2Fs::supports(sb));
    Ext2Fs::new(sb, RawGroupDescriptor { block_bitmap: 3, inode_bitmap: 4, inode_table: 5 })
}

fn raw_inode(mode: u16, size_low: u32, size_high: u32, direct: [u32; 12]) -> RawInode {
    RawInode {
        mode,
        uid: 0,
        size_low,
        atime: 100,
        ctime: 200,
        mtime: 300,
        dtime: 0,
        gid: 0,
        hard_links: 1,
        blocks_count: 0,
        flags: 0,
        reserved1: 0,
        block_ptrs: BlockPointers {
            direct_pointers: direct.map(Ext2Bid),
            single_indirect_pointer: Ext2Bid(0),
            double_indirect_pointer: Ext2Bid(0),
            triple_indirect_pointer: Ext2Bid(0),
        },
        generation: 0,
        file_acl: 0,
        size_high,
        frag_addr: 0,
        os_dependent_2: OsDependent2 {
            fragment_number: 0,
            fragment_size: 0,
            pad: [0; 2],
            uid_high: 0,
            gid_high: 0,
            reserved: 0,
        },
    }
}

#[test]
fn block_ids_add_up() {
    assert_eq!(Ext2Bid::from(7), Ext2Bid(7));
    assert_eq!(Ext2Bid(3) + Ext2Bid(4), Ext2Bid(7));
    assert_eq!(Ext2Bid::default(), Ext2Bid(0));
    assert_eq!(ROOT_INO, 2);
}

#[test]
fn super_block_from_the_disk() {
    let sb = SuperBlock::from(raw_super_block());
    assert_eq!(sb.block_size, 4096);
    assert_eq!(sb.inodes_count, 128);
    assert_eq!(sb.blocks_count, 1024);
    assert_eq!(sb.inode_size, 256);
    assert_eq!(sb.first_ino, 11);
    assert_eq!(sb.mnt_count, 3);
    assert_eq!(sb.idx, 0);
    for (log, size) in [(0u32, 1024u32), (1, 2048), (6, 65536), (21, 1 << 31), (22, 0), (31, 0)] {
        let raw = RawSuperBlock { log_block_size: log, ..raw_super_block() };
        assert_eq!(SuperBlock::from(raw).block_size, size);
    }
}

#[test]
fn group_descriptor_table_follows_the_first_block_of_the_group() {
    let sb = SuperBlock::from(raw_super_block());
    assert_eq!(sb.group_descriptor_table_bid(), Ext2Bid(1));
    let sb = SuperBlock::from(RawSuperBlock { block_group_idx: 3, ..raw_super_block() });
    assert_eq!(sb.group_descriptor_table_bid(), Ext2Bid(3 * 1024 + 1));
    assert_eq!(Ext2Fs::first_descriptor_sector(sb), (3 * 1024 + 1) * 4096 / SECTOR_SIZE);
}

#[test]
fn super_block_must_carry_the_magic_number() {
    let wrong = RawSuperBlock { magic: 0x1234, ..raw_super_block() };
    assert_eq!(Ext2Fs::check_super_block(wrong).err(), Some(Error::new(Errno::EACCES)));
    let sb = Ext2Fs::check_super_block(raw_super_block()).unwrap();
    assert_eq!(sb.block_size, 4096);
    assert!(Ext2Fs::supports(sb));
    assert!(!Ext2Fs::supports(SuperBlock { block_size: 1024, ..sb }));
    assert!(!Ext2Fs::supports(SuperBlock { inodes_per_group: 64, ..sb }));
    assert!(!Ext2Fs::supports(SuperBlock { blocks_per_group: 512, ..sb }));
}

#[test]
fn file_system_geometry() {
    let fs = file_system();
    assert_eq!(fs.block_size(), 4096);
    assert_eq!(fs.inode_size(), 256);
    assert_eq!(fs.inodes_per_group(), 128);
    assert_eq!(fs.blocks_per_group(), 1024);
    assert_eq!(fs.super_block().inodes_count, 128);
    assert_eq!(fs.bid_to_sector(Ext2Bid(0)), 0);
    assert_eq!(fs.bid_to_sector(Ext2Bid(5)), 40);
    let group = BlockGroup::new(RawGroupDescriptor { block_bitmap: 1, inode_bitmap: 2, inode_table: 9 });
    assert_eq!(group.inode_table_start_bid(), Ext2Bid(9));
}

#[test]
fn inodes_lie_one_behind_the_other() {
    let fs = file_system();
    // The inode table starts in block 5, which is sector 40; an inode takes
    // half a sector.
    assert_eq!(fs.inode_location(1), Ok(InodeLocation { sector: 40, sector_offset: 0, block_group_idx: 0 }));
    assert_eq!(fs.inode_location(2), Ok(InodeLocation { sector: 40, sector_offset: 256, block_group_idx: 0 }));
    assert_eq!(fs.inode_location(3), Ok(InodeLocation { sector: 41, sector_offset: 0, block_group_idx: 0 }));
    // Sixteen inodes to the block.
    assert_eq!(fs.inode_location(17), Ok(InodeLocation { sector: 48, sector_offset: 0, block_group_idx: 0 }));
    assert_eq!(fs.inode_location(128), Ok(InodeLocation { sector: 40 + 63, sector_offset: 256, block_group_idx: 0 }));
    assert_eq!(fs.inode_location(129), Err(Error::new(Errno::ENOENT)));
    assert_eq!(fs.inode_location(u32::MAX), Err(Error::new(Errno::ENOENT)));
}

#[test]
fn inode_kinds() {
    assert_eq!(inode_type_of(0x41ed), Some(InodeType::Directory));
    assert_eq!(inode_type_of(0x81a4), Some(InodeType::File));
    assert_eq!(inode_type_of(0xa1ff), Some(InodeType::SymbolLink));
    assert_eq!(inode_type_of(0x61a4), None);
    assert_eq!(inode_type_of(0), None);
}

#[test]
fn inode_sizes() {
    let raw = raw_inode(0x81a4, 5, 2, [0; 12]);
    assert_eq!(raw.size(InodeType::File), (2u64 << 32) + 5);
    assert_eq!(raw.size(InodeType::Directory), 5);
    assert_eq!(raw.size(InodeType::SymbolLink), 5);
}

#[test]
fn inode_in_memory() {
    let raw = raw_inode(0x81a4, 6000, 0, [0; 12]);
    let inode = Inode::new(raw, 12, 0, Vec::new());
    assert_eq!(inode.inode_id(), 12);
    assert_eq!(inode.typ(), InodeType::File);
    assert_eq!(inode.block_group_idx(), 0);
    assert_eq!(
        inode.metadata(),
        InodeMeta {
            size: 6000,
            atime: Timestamp::from_secs(100),
            mtime: Timestamp { secs: 300, nanos: 0 },
            ctime: Timestamp { secs: 200, nanos: 0 },
        }
    );
    assert_eq!(inode.lookup(&b"x".to_vec()), Err(Error::new(Errno::ENOTDIR)));
}

#[test]
fn directory_lookup_finds_the_first_entry_of_the_name() {
    let entries = vec![
        Ext2DirEntry { inode: 2, name: b".".to_vec() },
        Ext2DirEntry { inode: 2, name: b"..".to_vec() },
        Ext2DirEntry { inode: 12, name: b"hello.txt".to_vec() },
        Ext2DirEntry { inode: 13, name: b"hello.txt".to_vec() },
    ];
    let root = Inode::new(raw_inode(0x41ed, 4096, 9, [7, 0, 0, 0, 0, 0, 0, 0, 0, 0, 0, 0]), 2, 0, entries);
    assert_eq!(root.typ(), InodeType::Directory);
    assert_eq!(root.metadata().size, 4096);
    assert_eq!(root.lookup(&b"hello.txt".to_vec()), Ok(12));
    assert_eq!(root.lookup(&b"..".to_vec()), Ok(2));
    assert_eq!(root.lookup(&b"hello".to_vec()), Err(Error::new(Errno::ENOENT)));
    assert_eq!(root.lookup(&Vec::new()), Err(Error::new(Errno::ENOENT)));
    assert!(same_bytes(&b"ab".to_vec(), &b"ab".to_vec()));
    assert!(!same_bytes(&b"ab".to_vec(), &b"ac".to_vec()));
    assert!(!same_bytes(&b"ab".to_vec(), &b"abc".to_vec()));
}

#[test]
fn read_plan_walks_the_direct_blocks() {
    let fs = file_system();
    let raw = raw_inode(0x81a4, 10000, 0, [20, 21, 22, 0, 0, 0, 0, 0, 0, 0, 0, 0]);
    let inode = Inode::new(raw, 12, 0, Vec::new());

    // The whole file: two blocks and a part of the third.
    let (bytes, reads) = inode.read_at(&raw, &fs, 0, 1 << 20).unwrap();
    assert_eq!(bytes, 10000);
    assert_eq!(
        reads,
        [
            BlockRead { sector: 160, sectors: 8 },
            BlockRead { sector: 168, sectors: 8 },
            BlockRead { sector: 176, sectors: 4 },
        ]
    );
    // From the middle of the first block, a little.
    let (bytes, reads) = inode.read_at(&raw, &fs, 1000, 100).unwrap();
    assert_eq!(bytes, 100);
    assert_eq!(reads, [BlockRead { sector: 161, sectors: 1 }]);
    // Over the end of a block.
    let (bytes, reads) = inode.read_at(&raw, &fs, 4000, 200).unwrap();
    assert_eq!(bytes, 200);
    assert_eq!(reads, [BlockRead { sector: 167, sectors: 1 }, BlockRead { sector: 168, sectors: 1 }]);
    // At and behind the end of the file, and for no bytes.
    assert_eq!(inode.read_at(&raw, &fs, 10000, 10), Ok((0, Vec::new())));
    assert_eq!(inode.read_at(&raw, &fs, 20000, 10), Ok((0, Vec::new())));
    assert_eq!(inode.read_at(&raw, &fs, 0, 0), Ok((0, Vec::new())));
}

#[test]
fn read_plan_ends_where_the_pointers_end() {
    let fs = file_system();
    // A hole behind the first block.
    let raw = raw_inode(0x81a4, 10000, 0, [20, 0, 22, 0, 0, 0, 0, 0, 0, 0, 0, 0]);
    let inode = Inode::new(raw, 12, 0, Vec::new());
    let (bytes, reads) = inode.read_at(&raw, &fs, 0, 10000).unwrap();
    assert_eq!(bytes, 4096);
    assert_eq!(reads, [BlockRead { sector: 160, sectors: 8 }]);
    // Behind the twelve direct blocks nothing is read.
    let raw = raw_inode(0x81a4, 60000, 0, [9; 12]);
    let inode = Inode::new(raw, 12, 0, Vec::new());
    let (bytes, reads) = inode.read_at(&raw, &fs, 11 * 4096, 60000).unwrap();
    assert_eq!(bytes, 4096);
    assert_eq!(reads, [BlockRead { sector: 72, sectors: 8 }]);
    assert_eq!(inode.read_at(&raw, &fs, 12 * 4096, 100), Ok((0, Vec::new())));
    // A directory is not read.
    let dir = Inode::new(raw_inode(0x41ed, 4096, 0, [7; 12]), 2, 0, Vec::new());
    assert_eq!(dir.read_at(&raw, &fs, 0, 10), Err(Error::new(Errno::EISDIR)));
}

#[test]
fn block_requests() {
    assert_eq!(BlockReq::read_block(9), BlockReq { type_: 0, reserved: 0, sector: 9 });
    assert_eq!(BlockReq::write_block(9), BlockReq { type_: 1, reserved: 0, sector: 9 });
    let codes = [
        (ReqType::In, 0),
        (ReqType::Out, 1),
        (ReqType::Flush, 4),
        (ReqType::GetId, 8),
        (ReqType::Discard, 11),
        (ReqType::WriteZeroes, 13),
    ];
    for (kind, code) in codes {
        assert_eq!(kind.code(), code);
    }
    let answers = [(RespStatus::Okay, 0), (RespStatus::IoErr, 1), (RespStatus::Unsupported, 2), (RespStatus::NotReady, 3)];
    for (status, code) in answers {
        assert_eq!(status.code(), code);
    }
    assert_eq!(BlockResp::default().status, 3);
    assert!(!BlockResp::default().is_ok());
    assert!(BlockResp { status: 0 }.is_ok());
    assert!(!BlockResp { status: 1 }.is_ok());
}

#[test]
fn open_files() {
    let inode = InodeRef { id: 4 };
    let file = FileInode::new(inode);
    assert_eq!(file.as_inode(), Some(inode));
    assert_eq!(file.read_offset(), 0);
    assert_eq!(file.write_offset(), 0);
    assert_eq!(Stdin.write(), Err(Error::new(Errno::ENOSYS)));
    assert_eq!(Stdout.read(), Err(Error::new(Errno::ENOSYS)));
    assert_eq!(Stderr.read(), Err(Error::new(Errno::ENOSYS)));
    assert_eq!(Stdout.write(&b"hello\n".to_vec()), Ok(6));
    assert_eq!(Stderr.write(&Vec::new()), Ok(0));
}

#[test]
fn console_input_line() {
    let input = Stdin.receive(&b"ls\r".to_vec());
    assert_eq!(input.line, b"ls\n\r");
    assert_eq!(input.echo, b"ls\r");
    assert!(input.need_return);

    let input = Stdin.receive(&vec![b'a', 0x80, b'b', 0xff]);
    assert_eq!(input.line, b"ab");
    assert_eq!(input.echo, b"ab");
    assert_eq!(input.echo.len(), 2);
    assert!(!input.need_return);

    let input = Stdin.receive(&Vec::new());
    assert!(input.line.is_empty() && input.echo.is_empty() && !input.need_return);

    let input = Stdin.receive(&b"\r\rx".to_vec());
    assert_eq!(input.line, b"\n\r\n\rx");
    assert!(input.need_return);
}

fn frames(n: usize) -> Vec<Frame> {
    (0..n).map(|i| Frame::new(0x8000_0000 + i * 4096)).collect()
}

#[test]
fn ram_file_write_takes_the_frames_that_it_lacks() {
    let mut file = RamFile::new();
    assert_eq!(file.size(), 0);
    assert_eq!(file.frames_needed(0, 5000), 2);
    assert_eq!(file.frames_needed(0, 0), 0);
    assert_eq!(file.frames_needed(4096, 1), 2);
    let fresh = frames(3);
    let (written, chunks) = file.write_at(100, 5000, &fresh).unwrap();
    assert_eq!(written, 5000);
    assert_eq!(
        chunks,
        [
            FrameChunk { frame: fresh[0], offset: 100, len: 3996 },
            FrameChunk { frame: fresh[1], offset: 0, len: 1004 },
        ]
    );
    assert_eq!(file.size(), 5100);
    assert_eq!(file.frames_needed(0, 8192), 0);
    assert_eq!(file.frames_needed(0, 8193), 1);

    // A write within the file needs no frame and leaves the size.
    let (written, chunks) = file.write_at(4090, 10, &Vec::new()).unwrap();
    assert_eq!(written, 10);
    assert_eq!(
        chunks,
        [FrameChunk { frame: fresh[0], offset: 4090, len: 6 }, FrameChunk { frame: fresh[1], offset: 0, len: 4 }]
    );
    assert_eq!(file.size(), 5100);
    assert_eq!(file.write_at(0, 0, &Vec::new()), Ok((0, Vec::new())));
}

#[test]
fn ram_file_write_without_frames_is_out_of_memory() {
    let mut file = RamFile::new();
    let fresh = frames(1);
    assert_eq!(file.write_at(0, 3 * 4096, &fresh), Err(Error::new(Errno::ENOMEM)));
    assert_eq!(file.size(), 0);
    // The frame that came is kept: the next write lacks one frame less.
    assert_eq!(file.frames_needed(0, 3 * 4096), 2);
}

#[test]
fn ram_file_read_ends_with_the_file() {
    let mut file = RamFile::new();
    let fresh = frames(2);
    file.write_at(0, 5000, &fresh).unwrap();
    assert_eq!(file.read_at(0, 10), (10, vec![FrameChunk { frame: fresh[0], offset: 0, len: 10 }]));
    assert_eq!(
        file.read_at(4000, 5000),
        (
            1000,
            vec![
                FrameChunk { frame: fresh[0], offset: 4000, len: 96 },
                FrameChunk { frame: fresh[1], offset: 0, len: 904 },
            ]
        )
    );
    assert_eq!(file.read_at(5000, 10), (0, Vec::new()));
    assert_eq!(file.read_at(9000, 10), (0, Vec::new()));
    assert_eq!(file.read_at(0, 0), (0, Vec::new()));
    assert_eq!(file.chunks(4096, 904), [FrameChunk { frame: fresh[1], offset: 0, len: 904 }]);
}

#[test]
fn ram_directory() {
    let mut fs = RamFS::new();
    assert_eq!(fs.name(), "ramfs");
    assert_eq!(fs.root_inode().typ(), InodeType::Directory);
    assert_eq!(fs.root_inode().size(), 12);
    assert_eq!(fs.root_inode().metadata().size, 0);
    let root = fs.root_inode_mut();
    assert_eq!(root.lookup("a").err(), Some(Error::new(Errno::ENOENT)));
    assert_eq!(root.create("a", InodeType::File), Ok(()));
    assert_eq!(root.create("d", InodeType::Directory), Ok(()));
    assert_eq!(root.lookup("a").unwrap().typ(), InodeType::File);
    assert_eq!(root.lookup("d").unwrap().typ(), InodeType::Directory);
    assert_eq!(root.lookup("a").unwrap().size(), 0);
    assert_eq!(root.lookup("a").unwrap().lookup("x").err(), Some(Error::new(Errno::ENOTDIR)));
    assert_eq!(root.read_at(0, 1), Err(Error::new(Errno::EISDIR)));
    assert_eq!(root.write_at(0, 1, &frames(1)), Err(Error::new(Errno::EISDIR)));

    // A file in the directory is written in place.
    let fresh = frames(1);
    assert_eq!(root.open("a"), Some(0));
    assert_eq!(root.inode_mut(0).write_at(0, 5, &fresh).map(|r| r.0), Ok(5));
    assert_eq!(root.lookup("a").unwrap().size(), 5);
    assert_eq!(root.lookup("a").unwrap().read_at(2, 100), Ok((3, vec![FrameChunk { frame: fresh[0], offset: 2, len: 3 }])));
    assert_eq!(root.entry(0).name, "a");

    // Creating under a name that is taken starts anew.
    assert_eq!(root.create("a", InodeType::File), Ok(()));
    assert_eq!(root.lookup("a").unwrap().size(), 0);
    assert_eq!(root.open("b"), Some(2));
    assert_eq!(root.open("b"), Some(2));
    assert_eq!(root.lookup("b").unwrap().typ(), InodeType::File);

    let mut file = RamInode::new_file();
    assert_eq!(file.create("x", InodeType::File), Err(Error::new(Errno::ENOTDIR)));
    assert_eq!(file.open("x"), None);
    assert_eq!(file.typ(), InodeType::File);
    assert_eq!(RamInode::new_directory().typ(), InodeType::Directory);
}

#[test]
fn numbers_on_the_disk_lie_low_byte_first() {
    let bytes = [0x53, 0xef, 0x78, 0x56, 0x34, 0x12, 0xff, 0xff, 0xff, 0xff];
    assert_eq!(u16_at(&bytes, 0), 0xef53);
    assert_eq!(u32_at(&bytes, 2), 0x1234_5678);
    assert_eq!(u32_at(&bytes, 6), u32::MAX);
    assert_eq!(u16_at(&bytes, 8), u16::MAX);
    assert_eq!(bytes_at::<3>(&bytes, 1), [0xef, 0x78, 0x56]);
}

#[test]
fn super_block_from_bytes() {
    let mut bytes = vec![0u8; 136];
    bytes[0..4].copy_from_slice(&128u32.to_le_bytes());
    bytes[4..8].copy_from_slice(&1024u32.to_le_bytes());
    bytes[24..28].copy_from_slice(&2u32.to_le_bytes());
    bytes[32..36].copy_from_slice(&1024u32.to_le_bytes());
    bytes[40..44].copy_from_slice(&128u32.to_le_bytes());
    bytes[56..58].copy_from_slice(&0xEF53u16.to_le_bytes());
    bytes[88..90].copy_from_slice(&256u16.to_le_bytes());
    bytes[90..92].copy_from_slice(&7u16.to_le_bytes());
    bytes[104] = 0xaa;
    bytes[135] = b'z';
    let raw = RawSuperBlock::from_bytes(&bytes);
    assert_eq!(raw.inodes_count, 128);
    assert_eq!(raw.blocks_count, 1024);
    assert_eq!(raw.log_block_size, 2);
    assert_eq!(raw.blocks_per_group, 1024);
    assert_eq!(raw.inodes_per_group, 128);
    assert_eq!(raw.magic, EXT2_MAGIC);
    assert_eq!(raw.inode_size, 256);
    assert_eq!(raw.block_group_idx, 7);
    assert_eq!(raw.uuid[0], 0xaa);
    assert_eq!(raw.volume_name[15], b'z');
    assert_eq!(raw.free_blocks_count, 0);
    let descriptor = RawGroupDescriptor::from_bytes(&[3, 0, 0, 0, 4, 0, 0, 0, 5, 1, 0, 0]);
    assert_eq!(descriptor, RawGroupDescriptor { block_bitmap: 3, inode_bitmap: 4, inode_table: 261 });
}

#[test]
fn inode_from_bytes() {
    let mut bytes = vec![0u8; 128];
    bytes[0..2].copy_from_slice(&0x81a4u16.to_le_bytes());
    bytes[4..8].copy_from_slice(&6000u32.to_le_bytes());
    bytes[8..12].copy_from_slice(&100u32.to_le_bytes());
    bytes[12..16].copy_from_slice(&200u32.to_le_bytes());
    bytes[16..20].copy_from_slice(&300u32.to_le_bytes());
    for i in 0..12u32 {
        bytes[40 + 4 * i as usize..44 + 4 * i as usize].copy_from_slice(&(20 + i).to_le_bytes());
    }
    bytes[88..92].copy_from_slice(&77u32.to_le_bytes());
    bytes[108..112].copy_from_slice(&1u32.to_le_bytes());
    bytes[120..122].copy_from_slice(&9u16.to_le_bytes());
    let raw = RawInode::from_bytes(&bytes);
    assert_eq!(raw.mode, 0x81a4);
    assert_eq!((raw.atime, raw.ctime, raw.mtime), (100, 200, 300));
    assert_eq!(raw.size(InodeType::File), (1u64 << 32) + 6000);
    let direct: Vec<u32> = raw.block_ptrs.direct_pointers.iter().map(|bid| bid.0).collect();
    assert_eq!(direct, (20..32).collect::<Vec<u32>>());
    assert_eq!(raw.block_ptrs.single_indirect_pointer, Ext2Bid(77));
    assert_eq!(raw.block_ptrs.double_indirect_pointer, Ext2Bid(0));
    assert_eq!(raw.os_dependent_2.uid_high, 9);
}

fn dir_entry(inode: u32, length: u16, name: &[u8]) -> Vec<u8> {
    let mut bytes = Vec::new();
    bytes.extend_from_slice(&inode.to_le_bytes());
    bytes.extend_from_slice(&length.to_le_bytes());
    bytes.push(name.len() as u8);
    bytes.push(1);
    bytes.extend_from_slice(name);
    bytes.resize(length as usize, 0);
    bytes
}

#[test]
fn directory_block_is_read_entry_by_entry() {
    let mut block = Vec::new();
    block.extend(dir_entry(2, 12, b"."));
    block.extend(dir_entry(2, 12, b".."));
    block.extend(dir_entry(12, 20, b"hello.txt"));
    block.extend(dir_entry(0, 16, b"gone"));
    block.extend(dir_entry(13, 16, b"behind"));
    let mut entries = vec![Ext2DirEntry { inode: 99, name: b"kept".to_vec() }];
    read_dir_block(&block, &mut entries);
    let read: Vec<(u32, &[u8])> = entries.iter().map(|e| (e.inode, e.name.as_slice())).collect();
    assert_eq!(read, [(99, &b"kept"[..]), (2, b"."), (2, b".."), (12, b"hello.txt")]);
}

#[test]
fn directory_block_ends_where_no_entry_lies() {
    let mut entries = Vec::new();
    read_dir_block(&[], &mut entries);
    read_dir_block(&[1, 0, 0, 0, 8, 0, 0], &mut entries);
    assert!(entries.is_empty());
    // An entry without a length would never lead on.
    let mut block = dir_entry(5, 12, b"a");
    block[4] = 0;
    read_dir_block(&block, &mut entries);
    assert!(entries.is_empty());
    // A name that runs over the end of the block.
    let mut block = dir_entry(5, 12, b"abcd");
    block[6] = 5;
    read_dir_block(&block, &mut entries);
    assert!(entries.is_empty());
    // The last entry takes the rest of the block and more.
    let mut block = dir_entry(5, 12, b"abcd");
    block[4] = 200;
    read_dir_block(&block, &mut entries);
    assert_eq!(entries.len(), 1);
    assert_eq!(entries[0].name, b"abcd");
    // An entry with an empty name that fills the block exactly.
    let mut entries = Vec::new();
    read_dir_block(&dir_entry(6, 8, b""), &mut entries);
    assert_eq!(entries.len(), 1);
    assert_eq!((entries[0].inode, entries[0].name.len()), (6, 0));
}
