//! The structures of an ext2 file system as bytes on the disk.
//!
//! Numbers lie with their low byte first.

use crate::fs::ext2::inode::{BlockPointers, Ext2DirEntry, OsDependent2, RawInode};
use crate::fs::ext2::super_block::RawSuperBlock;
use crate::fs::ext2::{Ext2Bid, RawGroupDescriptor};
use vstd::prelude::*;

verus! {

/// The size of a superblock as far as it is read, in bytes.
pub const RAW_SUPER_BLOCK_SIZE: usize = 136;

/// The size of an inode as far as it is read, in bytes.
pub const RAW_INODE_SIZE: usize = 128;

/// The size of a group descriptor as far as it is read, in bytes.
pub const RAW_GROUP_DESCRIPTOR_SIZE: usize = 12;

/// The size of the head of a directory entry, before the name, in bytes.
pub const DIR_ENTRY_HEAD_SIZE: usize = 8;

/// The 16-bit number that lies at `at`.
pub open spec fn spec_u16_at(bytes: Seq<u8>, at: int) -> u16 {
    (bytes[at] + bytes[at + 1] * 0x100) as u16
}

/// The 32-bit number that lies at `at`.
pub open spec fn spec_u32_at(bytes: Seq<u8>, at: int) -> u32 {
    (bytes[at] + bytes[at + 1] * 0x100 + bytes[at + 2] * 0x1_0000 + bytes[at + 3] * 0x100_0000) as u32
}

/// The 16-bit number that lies at `at`.
pub fn u16_at(bytes: &[u8], at: usize) -> (n: u16)
    requires
        at + 2 <= bytes@.len(),
    ensures
        n == spec_u16_at(bytes@, at as int),
{
    bytes[at] as u16 + (bytes[at + 1] as u16) * 0x100
}

/// The 32-bit number that lies at `at`.
pub fn u32_at(bytes: &[u8], at: usize) -> (n: u32)
    requires
        at + 4 <= bytes@.len(),
    ensures
        n == spec_u32_at(bytes@, at as int),
{
    bytes[at] as u32 + (bytes[at + 1] as u32) * 0x100 + (bytes[at + 2] as u32) * 0x1_0000 + (bytes[at
        + 3] as u32) * 0x100_0000
}

/// The `N` bytes that lie at `at`.
pub fn bytes_at<const N: usize>(bytes: &[u8], at: usize) -> (r: [u8; N])
    requires
        at + N <= bytes@.len(),
    ensures
        r@ == bytes@.subrange(at as int, at + N),
{
    let mut r: [u8; N] = [0u8; N];
    let mut i: usize = 0;
    let len: usize = bytes.len();
    while i < N
        invariant
            i <= N,
            len == bytes@.len(),
            at + N <= len,
            r@.len() == N,
            forall|k: int| 0 <= k < i ==> r@[k] == bytes@[at + k],
        decreases N - i,
    {
        r[i] = bytes[at + i];
        i += 1;
    }
    assert(r@ =~= bytes@.subrange(at as int, at + N));
    r
}

impl RawSuperBlock {
    /// Whether `sb` is the superblock that the bytes `b` hold.
    pub open spec fn is_read_from(sb: RawSuperBlock, b: Seq<u8>) -> bool {
        &&& sb.inodes_count == spec_u32_at(b, 0)
        &&& sb.blocks_count == spec_u32_at(b, 4)
        &&& sb.reserved_blocks_count == spec_u32_at(b, 8)
        &&& sb.free_blocks_count == spec_u32_at(b, 12)
        &&& sb.free_inodes_count == spec_u32_at(b, 16)
        &&& sb.first_data_block == spec_u32_at(b, 20)
        &&& sb.log_block_size == spec_u32_at(b, 24)
        &&& sb.log_frag_size == spec_u32_at(b, 28)
        &&& sb.blocks_per_group == spec_u32_at(b, 32)
        &&& sb.frags_per_group == spec_u32_at(b, 36)
        &&& sb.inodes_per_group == spec_u32_at(b, 40)
        &&& sb.mtime == spec_u32_at(b, 44)
        &&& sb.wtime == spec_u32_at(b, 48)
        &&& sb.mnt_count == spec_u16_at(b, 52)
        &&& sb.max_mnt_count == spec_u16_at(b, 54)
        &&& sb.magic == spec_u16_at(b, 56)
        &&& sb.state == spec_u16_at(b, 58)
        &&& sb.errors == spec_u16_at(b, 60)
        &&& sb.min_rev_level == spec_u16_at(b, 62)
        &&& sb.last_check_time == spec_u32_at(b, 64)
        &&& sb.check_interval == spec_u32_at(b, 68)
        &&& sb.creator_os == spec_u32_at(b, 72)
        &&& sb.rev_level == spec_u32_at(b, 76)
        &&& sb.def_resuid == spec_u16_at(b, 80)
        &&& sb.def_resgid == spec_u16_at(b, 82)
        &&& sb.first_ino == spec_u32_at(b, 84)
        &&& sb.inode_size == spec_u16_at(b, 88)
        &&& sb.block_group_idx == spec_u16_at(b, 90)
        &&& sb.feature_compat == spec_u32_at(b, 92)
        &&& sb.feature_incompat == spec_u32_at(b, 96)
        &&& sb.feature_ro_compat == spec_u32_at(b, 100)
        &&& sb.uuid@ == b.subrange(104, 120)
        &&& sb.volume_name@ == b.subrange(120, 136)
    }

    /// The superblock that the bytes `b` hold.
    pub fn from_bytes(b: &[u8]) -> (sb: RawSuperBlock)
        requires
            b@.len() >= RAW_SUPER_BLOCK_SIZE,
        ensures
            Self::is_read_from(sb, b@),
    {
        RawSuperBlock {
            inodes_count: u32_at(b, 0),
            blocks_count: u32_at(b, 4),
            reserved_blocks_count: u32_at(b, 8),
            free_blocks_count: u32_at(b, 12),
            free_inodes_count: u32_at(b, 16),
            first_data_block: u32_at(b, 20),
            log_block_size: u32_at(b, 24),
            log_frag_size: u32_at(b, 28),
            blocks_per_group: u32_at(b, 32),
            frags_per_group: u32_at(b, 36),
            inodes_per_group: u32_at(b, 40),
            mtime: u32_at(b, 44),
            wtime: u32_at(b, 48),
            mnt_count: u16_at(b, 52),
            max_mnt_count: u16_at(b, 54),
            magic: u16_at(b, 56),
            state: u16_at(b, 58),
            errors: u16_at(b, 60),
            min_rev_level: u16_at(b, 62),
            last_check_time: u32_at(b, 64),
            check_interval: u32_at(b, 68),
            creator_os: u32_at(b, 72),
            rev_level: u32_at(b, 76),
            def_resuid: u16_at(b, 80),
            def_resgid: u16_at(b, 82),
            first_ino: u32_at(b, 84),
            inode_size: u16_at(b, 88),
            block_group_idx: u16_at(b, 90),
            feature_compat: u32_at(b, 92),
            feature_incompat: u32_at(b, 96),
            feature_ro_compat: u32_at(b, 100),
            uuid: bytes_at::<16>(b, 104),
            volume_name: bytes_at::<16>(b, 120),
        }
    }
}

impl RawGroupDescriptor {
    /// The group descriptor that the bytes `b` hold.
    pub fn from_bytes(b: &[u8]) -> (d: RawGroupDescriptor)
        requires
            b@.len() >= RAW_GROUP_DESCRIPTOR_SIZE,
        ensures
            d == (RawGroupDescriptor {
                block_bitmap: spec_u32_at(b@, 0),
                inode_bitmap: spec_u32_at(b@, 4),
                inode_table: spec_u32_at(b@, 8),
            }),
    {
        RawGroupDescriptor { block_bitmap: u32_at(b, 0), inode_bitmap: u32_at(b, 4), inode_table: u32_at(b, 8) }
    }
}

impl RawInode {
    /// Whether `inode` is the inode that the bytes `b` hold.
    pub open spec fn is_read_from(inode: RawInode, b: Seq<u8>) -> bool {
        &&& inode.mode == spec_u16_at(b, 0)
        &&& inode.uid == spec_u16_at(b, 2)
        &&& inode.size_low == spec_u32_at(b, 4)
        &&& inode.atime == spec_u32_at(b, 8)
        &&& inode.ctime == spec_u32_at(b, 12)
        &&& inode.mtime == spec_u32_at(b, 16)
        &&& inode.dtime == spec_u32_at(b, 20)
        &&& inode.gid == spec_u16_at(b, 24)
        &&& inode.hard_links == spec_u16_at(b, 26)
        &&& inode.blocks_count == spec_u32_at(b, 28)
        &&& inode.flags == spec_u32_at(b, 32)
        &&& inode.reserved1 == spec_u32_at(b, 36)
        &&& forall|i: int|
            0 <= i < 12 ==> (#[trigger] inode.block_ptrs.direct_pointers[i]).0 == spec_u32_at(b, 40 + 4 * i)
        &&& inode.block_ptrs.single_indirect_pointer.0 == spec_u32_at(b, 88)
        &&& inode.block_ptrs.double_indirect_pointer.0 == spec_u32_at(b, 92)
        &&& inode.block_ptrs.triple_indirect_pointer.0 == spec_u32_at(b, 96)
        &&& inode.generation == spec_u32_at(b, 100)
        &&& inode.file_acl == spec_u32_at(b, 104)
        &&& inode.size_high == spec_u32_at(b, 108)
        &&& inode.frag_addr == spec_u32_at(b, 112)
        &&& inode.os_dependent_2.fragment_number == b[116]
        &&& inode.os_dependent_2.fragment_size == b[117]
        &&& inode.os_dependent_2.pad@ == b.subrange(118, 120)
        &&& inode.os_dependent_2.uid_high == spec_u16_at(b, 120)
        &&& inode.os_dependent_2.gid_high == spec_u16_at(b, 122)
        &&& inode.os_dependent_2.reserved == spec_u32_at(b, 124)
    }

    /// The inode that the bytes `b` hold.
    pub fn from_bytes(b: &[u8]) -> (inode: RawInode)
        requires
            b@.len() >= RAW_INODE_SIZE,
        ensures
            Self::is_read_from(inode, b@),
    {
        let mut direct_pointers: [Ext2Bid; 12] = [Ext2Bid(0); 12];
        let mut i: usize = 0;
        while i < 12
            invariant
                i <= 12,
                b@.len() >= RAW_INODE_SIZE,
                forall|k: int| 0 <= k < i ==> (#[trigger] direct_pointers[k]).0 == spec_u32_at(b@, 40 + 4 * k),
            decreases 12 - i,
        {
            direct_pointers[i] = Ext2Bid(u32_at(b, 40 + 4 * i));
            i += 1;
        }
        RawInode {
            mode: u16_at(b, 0),
            uid: u16_at(b, 2),
            size_low: u32_at(b, 4),
            atime: u32_at(b, 8),
            ctime: u32_at(b, 12),
            mtime: u32_at(b, 16),
            dtime: u32_at(b, 20),
            gid: u16_at(b, 24),
            hard_links: u16_at(b, 26),
            blocks_count: u32_at(b, 28),
            flags: u32_at(b, 32),
            reserved1: u32_at(b, 36),
            block_ptrs: BlockPointers {
                direct_pointers,
                single_indirect_pointer: Ext2Bid(u32_at(b, 88)),
                double_indirect_pointer: Ext2Bid(u32_at(b, 92)),
                triple_indirect_pointer: Ext2Bid(u32_at(b, 96)),
            },
            generation: u32_at(b, 100),
            file_acl: u32_at(b, 104),
            size_high: u32_at(b, 108),
            frag_addr: u32_at(b, 112),
            os_dependent_2: OsDependent2 {
                fragment_number: b[116],
                fragment_size: b[117],
                pad: bytes_at::<2>(b, 118),
                uid_high: u16_at(b, 120),
                gid_high: u16_at(b, 122),
                reserved: u32_at(b, 124),
            },
        }
    }
}

/// Whether a directory entry lies at `offset` in the block `block`: its head
/// and its name lie within the block, it names an inode, and it has a
/// length.
pub open spec fn entry_at(block: Seq<u8>, offset: int) -> bool {
    &&& 0 <= offset
    &&& offset + DIR_ENTRY_HEAD_SIZE <= block.len()
    &&& spec_u32_at(block, offset) != 0
    &&& spec_u16_at(block, offset + 4) != 0
    &&& offset + DIR_ENTRY_HEAD_SIZE + block[offset + 6] <= block.len()
}

/// The number of bytes of `block` from `offset` on.
pub open spec fn remaining(block: Seq<u8>, offset: int) -> nat {
    if offset < block.len() {
        (block.len() - offset) as nat
    } else {
        0
    }
}

/// The inode numbers of the directory entries that lie in `block` from
/// `offset` on: each entry leads to the next by its length, and the list ends
/// where no entry lies.
pub open spec fn entry_inodes(block: Seq<u8>, offset: int) -> Seq<u32>
    decreases remaining(block, offset),
{
    if entry_at(block, offset) {
        seq![spec_u32_at(block, offset)] + entry_inodes(block, offset + spec_u16_at(block, offset + 4))
    } else {
        Seq::<u32>::empty()
    }
}

/// The names of those entries.
pub open spec fn entry_names(block: Seq<u8>, offset: int) -> Seq<Seq<u8>>
    decreases remaining(block, offset),
{
    if entry_at(block, offset) {
        seq![
            block.subrange(
                offset + DIR_ENTRY_HEAD_SIZE,
                offset + DIR_ENTRY_HEAD_SIZE + block[offset + 6],
            ),
        ] + entry_names(block, offset + spec_u16_at(block, offset + 4))
    } else {
        Seq::<Seq<u8>>::empty()
    }
}

/// Reads the directory entries of one block of a directory and puts them
/// behind `entries`.
///
/// An entry is its inode number in 4 bytes, its length in 2, the length of
/// its name in 1, one byte more, and the name. The entries are read from the
/// start of the block on, each where the one before it ends, up to the first
/// place at which no entry lies: where the block ends, the inode number or
/// the length is 0, or the name would run over the end of the block.
pub fn read_dir_block(block: &[u8], entries: &mut Vec<Ext2DirEntry>)
    ensures
        final(entries)@.len() == old(entries)@.len() + entry_inodes(block@, 0).len(),
        entry_names(block@, 0).len() == entry_inodes(block@, 0).len(),
        forall|k: int| 0 <= k < old(entries)@.len() ==> final(entries)@[k] == old(entries)@[k],
        forall|k: int|
            0 <= k < entry_inodes(block@, 0).len() ==> {
                &&& (#[trigger] final(entries)@[old(entries)@.len() + k]).inode == entry_inodes(block@, 0)[k]
                &&& final(entries)@[old(entries)@.len() + k].name@ == entry_names(block@, 0)[k]
            },
{
    let n: usize = block.len();
    let mut offset: usize = 0;
    let ghost base = entries@.len() as int;
    let ghost mut done: int = 0;
    assert(Seq::<u32>::empty() + entry_inodes(block@, 0) =~= entry_inodes(block@, 0));
    assert(Seq::<Seq<u8>>::empty() + entry_names(block@, 0) =~= entry_names(block@, 0));
    let ghost mut inodes: Seq<u32> = Seq::empty();
    let ghost mut names: Seq<Seq<u8>> = Seq::empty();
    loop
        invariant_except_break
            entry_inodes(block@, 0) == inodes + entry_inodes(block@, offset as int),
            entry_names(block@, 0) == names + entry_names(block@, offset as int),
        invariant
            n == block@.len(),
            offset <= n,
            done == inodes.len(),
            done == names.len(),
            entries@.len() == base + done,
            base == old(entries)@.len(),
            forall|k: int| 0 <= k < base ==> entries@[k] == old(entries)@[k],
            forall|k: int|
                0 <= k < done ==> (#[trigger] entries@[base + k]).inode == inodes[k] && entries@[base
                    + k].name@ == names[k],
        ensures
            done == inodes.len(),
            done == names.len(),
            entries@.len() == base + done,
            entry_inodes(block@, 0) == inodes,
            entry_names(block@, 0) == names,
            forall|k: int| 0 <= k < base ==> entries@[k] == old(entries)@[k],
            forall|k: int|
                0 <= k < done ==> (#[trigger] entries@[base + k]).inode == inodes[k] && entries@[base
                    + k].name@ == names[k],
        decreases n - offset,
    {
        if n - offset < DIR_ENTRY_HEAD_SIZE {
            proof {
                assert(inodes + Seq::<u32>::empty() =~= inodes);
                assert(names + Seq::<Seq<u8>>::empty() =~= names);
            }
            break ;
        }
        let inode = u32_at(block, offset);
        let length = u16_at(block, offset + 4);
        let name_length = block[offset + 6];
        if inode == 0 || length == 0 || n - offset - DIR_ENTRY_HEAD_SIZE < name_length as usize {
            proof {
                assert(inodes + Seq::<u32>::empty() =~= inodes);
                assert(names + Seq::<Seq<u8>>::empty() =~= names);
            }
            break ;
        }
        let mut name: Vec<u8> = Vec::new();
        let start: usize = offset + DIR_ENTRY_HEAD_SIZE;
        let mut i: usize = 0;
        while i < name_length as usize
            invariant
                i <= name_length,
                start + name_length <= n,
                n == block@.len(),
                name@ == block@.subrange(start as int, start + i),
            decreases name_length - i,
        {
            name.push(block[start + i]);
            i += 1;
            assert(name@ =~= block@.subrange(start as int, start + i));
        }
        proof {
            let next = offset + length;
            let rest_inodes = entry_inodes(block@, next);
            let rest_names = entry_names(block@, next);
            assert(inodes + (seq![inode] + rest_inodes) =~= inodes.push(inode) + rest_inodes);
            assert(names + (seq![name@] + rest_names) =~= names.push(name@) + rest_names);
            inodes = inodes.push(inode);
            names = names.push(name@);
            done = done + 1;
        }
        entries.push(Ext2DirEntry { inode, name });
        if n - offset < length as usize {
            // The entry runs over the end of the block: nothing lies behind.
            proof {
                assert(!entry_at(block@, offset + length));
                assert(inodes + Seq::<u32>::empty() =~= inodes);
                assert(names + Seq::<Seq<u8>>::empty() =~= names);
            }
            break ;
        }
        offset = offset + length as usize;
    }
}

} // verus!
