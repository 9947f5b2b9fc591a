//! The ext2 file system: where its structures lie on the disk.

pub mod disk;
pub mod inode;
pub mod super_block;

use crate::drivers::virtio::blk::SECTOR_SIZE;
use crate::error::{Errno, Error};
use crate::fs::ext2::super_block::{RawSuperBlock, SuperBlock};
use vstd::prelude::*;
use vstd::std_specs::convert::FromSpecImpl;
use vstd::std_specs::ops::AddSpecImpl;

verus! {

/// The number by which an ext2 file system is known.
pub const EXT2_MAGIC: u16 = 0xEF53;

/// The inode number of the root directory.
pub const ROOT_INO: u32 = 2;

/// The number of a block of the file system.
#[derive(Clone, Copy, Debug, PartialEq, Eq, Structural)]
pub struct Ext2Bid(pub u32);

impl Default for Ext2Bid {
    fn default() -> (bid: Ext2Bid)
        ensures
            bid == Ext2Bid(0),
    {
        Ext2Bid(0)
    }
}

impl From<u32> for Ext2Bid {
    fn from(value: u32) -> (bid: Ext2Bid) {
        Ext2Bid(value)
    }
}

impl FromSpecImpl<u32> for Ext2Bid {
    open spec fn obeys_from_spec() -> bool {
        true
    }

    open spec fn from_spec(value: u32) -> Ext2Bid {
        Ext2Bid(value)
    }
}

impl core::ops::Add for Ext2Bid {
    type Output = Ext2Bid;

    fn add(self, rhs: Ext2Bid) -> (sum: Ext2Bid) {
        Ext2Bid(self.0 + rhs.0)
    }
}

impl AddSpecImpl for Ext2Bid {
    open spec fn obeys_add_spec() -> bool {
        true
    }

    open spec fn add_req(self, rhs: Ext2Bid) -> bool {
        self.0 + rhs.0 <= u32::MAX
    }

    open spec fn add_spec(self, rhs: Ext2Bid) -> Ext2Bid {
        Ext2Bid((self.0 + rhs.0) as u32)
    }
}

/// What the table of group descriptors records of one block group, as far
/// as this file system reads it.
#[derive(Clone, Copy, Debug, PartialEq, Eq, Structural)]
pub struct RawGroupDescriptor {
    /// The block that holds the bitmap of used blocks.
    pub block_bitmap: u32,
    /// The block that holds the bitmap of used inodes.
    pub inode_bitmap: u32,
    /// The first block of the inode table.
    pub inode_table: u32,
}

/// One block group.
#[derive(Clone, Copy, Debug, PartialEq, Eq, Structural)]
pub struct BlockGroup {
    inode_table: Ext2Bid,
}

impl BlockGroup {
    /// The block in which the inode table of the group starts.
    pub closed spec fn spec_inode_table_start_bid(&self) -> Ext2Bid {
        self.inode_table
    }

    /// The block group that `raw` describes.
    pub fn new(raw: RawGroupDescriptor) -> (group: BlockGroup)
        ensures
            group.inode_table_start_bid() == Ext2Bid(raw.inode_table),
    {
        BlockGroup { inode_table: Ext2Bid(raw.inode_table) }
    }

    /// The block in which the inode table of the group starts.
    #[verifier::when_used_as_spec(spec_inode_table_start_bid)]
    pub fn inode_table_start_bid(&self) -> (bid: Ext2Bid)
        ensures
            bid == self.inode_table_start_bid(),
    {
        self.inode_table
    }
}

/// Where an inode lies on the disk.
#[derive(Clone, Copy, Debug, PartialEq, Eq, Structural)]
pub struct InodeLocation {
    /// The sector in which the inode starts.
    pub sector: usize,
    /// The distance of the inode from the start of that sector, in bytes.
    pub sector_offset: usize,
    /// The block group that holds the inode.
    pub block_group_idx: usize,
}

/// The geometry of a mounted ext2 file system.
#[derive(Debug)]
pub struct Ext2Fs {
    super_block: SuperBlock,
    block_groups: Vec<BlockGroup>,
    inodes_per_group: u32,
    blocks_per_group: u32,
    inode_size: usize,
    block_size: usize,
}

/// The size of block that is supported, in bytes.
pub const SUPPORTED_BLOCK_SIZE: u32 = 4096;

impl Ext2Fs {
    /// The superblock.
    pub closed spec fn spec_super_block(&self) -> SuperBlock {
        self.super_block
    }

    /// The block groups.
    pub closed spec fn block_groups(&self) -> Seq<BlockGroup> {
        self.block_groups@
    }

    /// The size of a block, in bytes.
    pub closed spec fn spec_block_size(&self) -> usize {
        self.block_size
    }

    /// The size of an inode on the disk, in bytes.
    pub closed spec fn spec_inode_size(&self) -> usize {
        self.inode_size
    }

    /// The number of inodes in a block group.
    pub closed spec fn spec_inodes_per_group(&self) -> u32 {
        self.inodes_per_group
    }

    /// The number of blocks in a block group.
    pub closed spec fn spec_blocks_per_group(&self) -> u32 {
        self.blocks_per_group
    }

    /// Whether a file system with the superblock `sb` can be mounted: it has
    /// one block group, and blocks of 4096 bytes.
    pub open spec fn spec_supports(sb: SuperBlock) -> bool {
        &&& sb.inodes_per_group == sb.inodes_count
        &&& sb.blocks_per_group == sb.blocks_count
        &&& sb.block_size == SUPPORTED_BLOCK_SIZE
    }

    /// The invariant of a mounted file system: its geometry is that of its
    /// superblock, which is supported, and it knows its one block group.
    pub open spec fn wf(&self) -> bool {
        &&& Self::supports(self.super_block())
        &&& self.block_groups().len() == 1
        &&& self.inodes_per_group() == self.super_block().inodes_per_group
        &&& self.blocks_per_group() == self.super_block().blocks_per_group
        &&& self.block_size() == self.super_block().block_size
        &&& self.inode_size() == self.super_block().inode_size
    }

    /// Reads the superblock `raw` of a disk: `EACCES` unless it carries the
    /// number of an ext2 file system.
    pub fn check_super_block(raw: RawSuperBlock) -> (r: Result<SuperBlock, Error>)
        requires
            raw.magic == EXT2_MAGIC ==> raw.log_block_size < 32,
        ensures
            raw.magic != EXT2_MAGIC ==> r == Err::<SuperBlock, Error>(Error { code: Errno::EACCES }),
            raw.magic == EXT2_MAGIC ==> r is Ok && SuperBlock::converts(raw, r.unwrap()),
    {
        if raw.magic != EXT2_MAGIC {
            return Err(Error::new(Errno::EACCES));
        }
        Ok(SuperBlock::from(raw))
    }

    /// Whether a file system with the superblock `sb` can be mounted: it has
    /// one block group, and blocks of 4096 bytes.
    #[verifier::when_used_as_spec(spec_supports)]
    pub fn supports(sb: SuperBlock) -> (r: bool)
        ensures
            r == Self::supports(sb),
    {
        sb.inodes_per_group == sb.inodes_count && sb.blocks_per_group == sb.blocks_count && sb.block_size
            == SUPPORTED_BLOCK_SIZE
    }

    /// The sector in which the descriptor of the first block group lies.
    pub fn first_descriptor_sector(sb: SuperBlock) -> (sector: usize)
        requires
            sb.idx * sb.blocks_per_group + 1 <= u32::MAX,
            (sb.idx * sb.blocks_per_group + 1) * sb.block_size <= usize::MAX,
        ensures
            sector == (sb.idx * sb.blocks_per_group + 1) * sb.block_size / (SECTOR_SIZE as int),
    {
        let first_group_bid = sb.group_descriptor_table_bid();
        first_group_bid.0 as usize * sb.block_size as usize / SECTOR_SIZE
    }

    /// The file system with the superblock `super_block`, whose one block
    /// group `raw_descriptor` describes.
    pub fn new(super_block: SuperBlock, raw_descriptor: RawGroupDescriptor) -> (fs: Ext2Fs)
        requires
            Self::supports(super_block),
        ensures
            fs.wf(),
            fs.super_block() == super_block,
            fs.block_groups().len() == 1,
            fs.block_groups()[0].inode_table_start_bid() == Ext2Bid(raw_descriptor.inode_table),
    {
        let mut blk_groups = Vec::new();
        blk_groups.push(BlockGroup::new(raw_descriptor));
        Ext2Fs {
            inodes_per_group: super_block.inodes_per_group,
            blocks_per_group: super_block.blocks_per_group,
            block_size: super_block.block_size as usize,
            inode_size: super_block.inode_size as usize,
            super_block,
            block_groups: blk_groups,
        }
    }

    /// The superblock.
    #[verifier::when_used_as_spec(spec_super_block)]
    pub fn super_block(&self) -> (sb: SuperBlock)
        ensures
            sb == self.super_block(),
    {
        self.super_block
    }

    /// The size of a block, in bytes.
    #[verifier::when_used_as_spec(spec_block_size)]
    pub fn block_size(&self) -> (n: usize)
        ensures
            n == self.block_size(),
    {
        self.block_size
    }

    /// The size of an inode on the disk, in bytes.
    #[verifier::when_used_as_spec(spec_inode_size)]
    pub fn inode_size(&self) -> (n: usize)
        ensures
            n == self.inode_size(),
    {
        self.inode_size
    }

    /// The number of inodes in a block group.
    #[verifier::when_used_as_spec(spec_inodes_per_group)]
    pub fn inodes_per_group(&self) -> (n: u32)
        ensures
            n == self.inodes_per_group(),
    {
        self.inodes_per_group
    }

    /// The number of blocks in a block group.
    #[verifier::when_used_as_spec(spec_blocks_per_group)]
    pub fn blocks_per_group(&self) -> (n: u32)
        ensures
            n == self.blocks_per_group(),
    {
        self.blocks_per_group
    }

    /// The sector in which the block `bid` starts.
    pub open spec fn spec_bid_to_sector(&self, bid: Ext2Bid) -> int {
        bid.0 * self.block_size() / (SECTOR_SIZE as int)
    }

    /// The sector in which the block `bid` starts.
    pub fn bid_to_sector(&self, bid: Ext2Bid) -> (sector: usize)
        requires
            bid.0 * self.block_size() <= usize::MAX,
        ensures
            sector == self.spec_bid_to_sector(bid),
    {
        bid.0 as usize * self.block_size / SECTOR_SIZE
    }

    /// The number of inodes that a block of the inode table holds.
    pub open spec fn inodes_per_block(&self) -> int {
        self.block_size() as int / self.inode_size() as int
    }

    /// Where the inode with the number `inode_number` lies: inodes are
    /// numbered from 1 and lie in the inode table one behind the other, each
    /// within one block.
    pub open spec fn location_of(&self, inode_number: u32) -> InodeLocation {
        let idx = inode_number - 1;
        let table = self.block_groups()[0].inode_table_start_bid().0;
        let bid = table + idx / self.inodes_per_block();
        let byte_in_block = (idx % self.inodes_per_block()) * self.inode_size();
        InodeLocation {
            sector: (bid * self.block_size() / (SECTOR_SIZE as int) + byte_in_block / (
            SECTOR_SIZE as int)) as usize,
            sector_offset: (byte_in_block % (SECTOR_SIZE as int)) as usize,
            block_group_idx: 0,
        }
    }

    /// Whether the numbers that lead to the inode `inode_number` fit the
    /// machine: the inode has a place in its block, and the block of the
    /// inode table that holds it has a number and starts at an address.
    pub open spec fn can_locate(&self, inode_number: u32) -> bool {
        &&& inode_number >= 1
        &&& inode_number - 1 < self.super_block().inodes_count ==> {
            &&& 0 < self.inode_size() <= self.block_size()
            &&& (self.block_groups()[0].inode_table_start_bid().0 + (inode_number - 1)
                / self.inodes_per_block()) * self.block_size() + self.block_size() <= usize::MAX
            &&& self.block_groups()[0].inode_table_start_bid().0 + (inode_number - 1)
                / self.inodes_per_block() <= u32::MAX
        }
    }

    /// Where the inode with the number `inode_number` lies on the disk:
    /// inodes are numbered from 1 and lie in the inode table one behind the
    /// other. `ENOENT` for a number that the file system has no inode for.
    pub fn inode_location(&self, inode_number: u32) -> (r: Result<InodeLocation, Error>)
        requires
            self.wf(),
            self.can_locate(inode_number),
        ensures
            inode_number - 1 >= self.super_block().inodes_count ==> r == Err::<InodeLocation, Error>(
                Error { code: Errno::ENOENT },
            ),
            inode_number - 1 < self.super_block().inodes_count ==> r == Ok::<InodeLocation, Error>(
                self.location_of(inode_number),
            ),
    {
        let idx: u32 = inode_number - 1;
        if idx >= self.super_block.inodes_count {
            return Err(Error::new(Errno::ENOENT));
        }
        let group: u32 = idx / self.inodes_per_group;
        assert(group == 0) by {
            vstd::arithmetic::div_mod::lemma_basic_div(idx as int, self.inodes_per_group as int);
        }
        let inode_table_block = self.block_groups[group as usize].inode_table_start_bid();
        let inodes_per_block: u32 = (self.block_size / self.inode_size) as u32;
        assert(inodes_per_block >= 1 && inodes_per_block == self.inodes_per_block()) by {
            vstd::arithmetic::div_mod::lemma_div_is_ordered(
                self.inode_size as int,
                self.block_size as int,
                self.inode_size as int,
            );
            vstd::arithmetic::div_mod::lemma_div_basics(self.inode_size as int);
        }
        let bid_offset = Ext2Bid::from(idx / inodes_per_block);
        let offset_in_block: u32 = idx % inodes_per_block;
        assert(bid_offset.0 == idx as int / self.inodes_per_block());
        assert(inode_table_block == self.block_groups()[0].inode_table_start_bid());
        let bid_num = inode_table_block + bid_offset;

        // Convert to sector number and offset within sector
        proof {
            let per = inodes_per_block as int;
            let size = self.inode_size as int;
            let block = self.block_size as int;
            assert(offset_in_block < per);
            assert(per * size <= block) by {
                vstd::arithmetic::div_mod::lemma_fundamental_div_mod(block, size);
                vstd::arithmetic::div_mod::lemma_mod_bound(block, size);
                assert(size * per == per * size) by (nonlinear_arith);
            }
            assert(offset_in_block * size <= per * size) by (nonlinear_arith)
                requires
                    offset_in_block < per,
                    size > 0,
            ;
            assert(bid_num.0 * block >= 0) by (nonlinear_arith)
                requires
                    bid_num.0 >= 0,
                    block >= 0,
            ;
        }
        let sector = self.bid_to_sector(bid_num) + offset_in_block as usize * self.inode_size / SECTOR_SIZE;
        let sector_offset = (offset_in_block as usize * self.inode_size) % SECTOR_SIZE;
        Ok(InodeLocation { sector, sector_offset, block_group_idx: group as usize })
    }
}

} // verus!
