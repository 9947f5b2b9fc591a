//! The superblock of an ext2 file system.

use crate::fs::ext2::Ext2Bid;
use vstd::arithmetic::power2::{lemma2_to64, lemma_pow2_strictly_increases, pow2};
use vstd::bits::lemma_u32_shl_is_mul;
use vstd::prelude::*;

verus! {

/// The distance of the first superblock from the start of the disk, in
/// bytes.
pub const EXT2_FIRST_SUPERBLOCK_OFFSET: usize = 1024;

/// The size of a superblock, in bytes.
pub const EXT2_SUPERBLOCK_SIZE: usize = 1024;

/// What the file system keeps of its superblock.
#[derive(Clone, Copy, Debug)]
pub struct SuperBlock {
    /// The block group that holds this copy of the superblock.
    pub idx: u32,
    /// The size of a block, in bytes.
    pub block_size: u32,
    pub inodes_count: u32,
    pub blocks_count: u32,
    pub reserved_blocks_count: u32,
    pub free_blocks_count: u32,
    pub free_inodes_count: u32,
    pub first_data_block: u32,
    pub log_frag_size: u32,
    pub blocks_per_group: u32,
    pub frags_per_group: u32,
    pub inodes_per_group: u32,
    pub mnt_count: u16,
    pub max_mnt_count: u16,
    pub first_ino: u32,
    pub inode_size: u16,
}

impl SuperBlock {
    /// The block in which the table of group descriptors starts: the block
    /// behind the first block of the group that holds the superblock.
    pub open spec fn spec_group_descriptor_table_bid(&self) -> Ext2Bid {
        Ext2Bid((self.idx * self.blocks_per_group + 1) as u32)
    }

    /// The block in which the table of group descriptors starts: the block
    /// behind the first block of the group that holds the superblock.
    #[verifier::when_used_as_spec(spec_group_descriptor_table_bid)]
    pub fn group_descriptor_table_bid(&self) -> (bid: Ext2Bid)
        requires
            self.idx * self.blocks_per_group + 1 <= u32::MAX,
        ensures
            bid == self.group_descriptor_table_bid(),
            bid.0 == self.idx * self.blocks_per_group + 1,
    {
        assert(self.idx * self.blocks_per_group >= 0) by (nonlinear_arith);
        Ext2Bid::from(self.idx * self.blocks_per_group + 1)
    }

    /// The size of a block whose size the disk records as `log_block_size`:
    /// 1024 bytes, doubled that many times; 0 where that is more than 32
    /// bits hold.
    pub open spec fn block_size_of(log_block_size: u32) -> nat {
        if log_block_size <= 21 {
            1024 * pow2(log_block_size as nat)
        } else {
            0
        }
    }

    /// Whether `sb` is what the file system keeps of the superblock `value`
    /// as it lies on the disk: the block size worked out, the other fields
    /// taken over.
    pub open spec fn converts(value: RawSuperBlock, sb: SuperBlock) -> bool {
        &&& sb.block_size == Self::block_size_of(value.log_block_size)
        &&& sb.inodes_count == value.inodes_count
        &&& sb.blocks_count == value.blocks_count
        &&& sb.reserved_blocks_count == value.reserved_blocks_count
        &&& sb.free_blocks_count == value.free_blocks_count
        &&& sb.free_inodes_count == value.free_inodes_count
        &&& sb.first_data_block == value.first_data_block
        &&& sb.log_frag_size == value.log_frag_size
        &&& sb.blocks_per_group == value.blocks_per_group
        &&& sb.frags_per_group == value.frags_per_group
        &&& sb.inodes_per_group == value.inodes_per_group
        &&& sb.mnt_count == value.mnt_count
        &&& sb.max_mnt_count == value.max_mnt_count
        &&& sb.first_ino == value.first_ino
        &&& sb.inode_size == value.inode_size
        &&& sb.idx == value.block_group_idx
    }

    /// What the file system keeps of the superblock `value` as it lies on the
    /// disk.
    pub fn from(value: RawSuperBlock) -> (sb: SuperBlock)
        requires
            value.log_block_size < 32,
        ensures
            Self::converts(value, sb),
    {
        let log: u32 = value.log_block_size;
        proof {
            if log <= 21 {
                lemma2_to64();
                if log < 21 {
                    lemma_pow2_strictly_increases(log as nat, 21);
                }
                assert(1024 * pow2(log as nat) <= u32::MAX) by (nonlinear_arith)
                    requires
                        pow2(log as nat) <= 0x200000,
                ;
                lemma_u32_shl_is_mul(1024u32, log);
            } else {
                assert(1024u32 << log == 0) by (bit_vector)
                    requires
                        21 < log < 32,
                ;
            }
        }
        SuperBlock {
            block_size: 1024u32 << log,
            inodes_count: value.inodes_count,
            blocks_count: value.blocks_count,
            reserved_blocks_count: value.reserved_blocks_count,
            free_blocks_count: value.free_blocks_count,
            free_inodes_count: value.free_inodes_count,
            first_data_block: value.first_data_block,
            log_frag_size: value.log_frag_size,
            blocks_per_group: value.blocks_per_group,
            frags_per_group: value.frags_per_group,
            inodes_per_group: value.inodes_per_group,
            mnt_count: value.mnt_count,
            max_mnt_count: value.max_mnt_count,
            first_ino: value.first_ino,
            inode_size: value.inode_size,
            idx: value.block_group_idx as u32,
        }
    }
}

/// The superblock as it lies on the disk, field by field.
#[derive(Clone, Copy, Debug, Default)]
pub struct RawSuperBlock {
    pub inodes_count: u32,
    pub blocks_count: u32,
    pub reserved_blocks_count: u32,
    pub free_blocks_count: u32,
    pub free_inodes_count: u32,
    pub first_data_block: u32,
    pub log_block_size: u32,
    pub log_frag_size: u32,
    pub blocks_per_group: u32,
    pub frags_per_group: u32,
    pub inodes_per_group: u32,
    pub mtime: u32,
    pub wtime: u32,
    pub mnt_count: u16,
    pub max_mnt_count: u16,
    pub magic: u16,
    pub state: u16,
    pub errors: u16,
    pub min_rev_level: u16,
    pub last_check_time: u32,
    pub check_interval: u32,
    pub creator_os: u32,
    pub rev_level: u32,
    pub def_resuid: u16,
    pub def_resgid: u16,
    pub first_ino: u32,
    pub inode_size: u16,
    pub block_group_idx: u16,
    pub feature_compat: u32,
    pub feature_incompat: u32,
    pub feature_ro_compat: u32,
    pub uuid: [u8; 16],
    pub volume_name: [u8; 16],
}

} // verus!
