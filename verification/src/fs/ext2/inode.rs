//! The inodes of an ext2 file system.

use crate::drivers::virtio::blk::SECTOR_SIZE;
use crate::error::{Errno, Error};
use crate::fs::ext2::{Ext2Bid, Ext2Fs};
use crate::fs::{InodeMeta, InodeType, Timestamp};
use vstd::math::min;
use vstd::prelude::*;

verus! {

/// The block numbers that an inode records for its data.
#[derive(Clone, Copy, Debug, Default)]
pub struct BlockPointers {
    /// The first twelve blocks of the data.
    pub direct_pointers: [Ext2Bid; 12],
    /// A block of block numbers.
    pub single_indirect_pointer: Ext2Bid,
    /// A block of numbers of such blocks.
    pub double_indirect_pointer: Ext2Bid,
    /// A block of numbers of those.
    pub triple_indirect_pointer: Ext2Bid,
}

/// The last words of an inode, as Linux uses them.
#[derive(Clone, Copy, Debug, Default)]
pub struct OsDependent2 {
    pub fragment_number: u8,
    pub fragment_size: u8,
    pub pad: [u8; 2],
    pub uid_high: u16,
    pub gid_high: u16,
    pub reserved: u32,
}

/// An inode as it lies on the disk, field by field.
#[derive(Clone, Copy, Debug, Default)]
pub struct RawInode {
    /// The kind of the file and who may do what with it.
    pub mode: u16,
    /// The low 16 bits of the owner's id.
    pub uid: u16,
    /// The low 32 bits of the size, in bytes.
    pub size_low: u32,
    /// When the file was last accessed.
    pub atime: u32,
    /// When the inode was last changed.
    pub ctime: u32,
    /// When the contents were last changed.
    pub mtime: u32,
    /// When the file was deleted.
    pub dtime: u32,
    /// The low 16 bits of the group's id.
    pub gid: u16,
    pub hard_links: u16,
    pub blocks_count: u32,
    pub flags: u32,
    pub reserved1: u32,
    /// Where the data lies.
    pub block_ptrs: BlockPointers,
    pub generation: u32,
    pub file_acl: u32,
    /// Of a file, the high 32 bits of the size.
    pub size_high: u32,
    pub frag_addr: u32,
    pub os_dependent_2: OsDependent2,
}

/// The bits of the mode that say what an inode is.
pub const MODE_TYPE_MASK: u16 = 0xF000;

/// The kind of inode that the mode `mode` stands for, if it is one of the
/// three that are supported.
pub open spec fn spec_inode_type_of(mode: u16) -> Option<InodeType> {
    if mode & MODE_TYPE_MASK == 0x4000 {
        Some(InodeType::Directory)
    } else if mode & MODE_TYPE_MASK == 0x8000 {
        Some(InodeType::File)
    } else if mode & MODE_TYPE_MASK == 0xA000 {
        Some(InodeType::SymbolLink)
    } else {
        None
    }
}

/// The kind of inode that the mode `mode` stands for, if it is one of the
/// three that are supported.
#[verifier::when_used_as_spec(spec_inode_type_of)]
pub fn inode_type_of(mode: u16) -> (r: Option<InodeType>)
    ensures
        r == inode_type_of(mode),
{
    let kind: u16 = mode & MODE_TYPE_MASK;
    if kind == 0x4000 {
        Some(InodeType::Directory)
    } else if kind == 0x8000 {
        Some(InodeType::File)
    } else if kind == 0xA000 {
        Some(InodeType::SymbolLink)
    } else {
        None
    }
}

impl RawInode {
    /// The size that the inode records for a file of the kind `type_`, in
    /// bytes: 64 bits of it for a file, the low 32 bits for anything else.
    pub open spec fn spec_size(&self, type_: InodeType) -> u64 {
        if type_ == InodeType::File {
            (self.size_high * 0x1_0000_0000 + self.size_low) as u64
        } else {
            self.size_low as u64
        }
    }

    /// The size that the inode records for a file of the kind `type_`, in
    /// bytes: 64 bits of it for a file, the low 32 bits for anything else.
    #[verifier::when_used_as_spec(spec_size)]
    pub fn size(&self, type_: InodeType) -> (size: u64)
        ensures
            size == self.size(type_),
    {
        let high: u32 = self.size_high;
        let low: u32 = self.size_low;
        if type_ == InodeType::File {
            assert((((high as u64) << 32) | (low as u64)) == high * 0x1_0000_0000 + low) by (bit_vector);
            ((high as u64) << 32) | (low as u64)
        } else {
            low as u64
        }
    }
}

/// One entry of a directory: a name, and the number of the inode that it
/// names.
#[derive(Debug)]
pub struct Ext2DirEntry {
    pub inode: u32,
    pub name: Vec<u8>,
}

/// What an inode holds besides its data blocks.
#[derive(Debug)]
pub enum Inner {
    File,
    Directory(Vec<Ext2DirEntry>),
}

/// A request to the disk: read `sectors` sectors, from sector `sector` on.
#[derive(Clone, Copy, Debug, PartialEq, Eq, Structural)]
pub struct BlockRead {
    pub sector: usize,
    pub sectors: usize,
}

/// The number of direct block pointers in an inode.
pub const DIRECT_POINTERS: usize = 12;

/// The bytes that a read takes from the block with index `block_index`,
/// from `offset_in_block` on, when `remaining` bytes are still wanted.
pub open spec fn bytes_from_block(block_size: int, offset_in_block: int, remaining: int) -> int {
    min(block_size - offset_in_block, remaining)
}

/// Whether a read that still wants `remaining` bytes goes on with the block
/// with index `block_index`: the inode has a direct pointer for it, and the
/// pointer names a block.
pub open spec fn reads_block(ptrs: Seq<Ext2Bid>, block_index: int, remaining: int) -> bool {
    remaining > 0 && 0 <= block_index < DIRECT_POINTERS && ptrs[block_index].0 != 0
}

/// The requests by which `remaining` bytes are read from the data of an
/// inode, from `offset_in_block` bytes into block `block_index` on: one for
/// each block, for the sectors from the one in which the read starts to the
/// one in which it ends, as long as the inode has direct pointers.
pub open spec fn read_plan(
    ptrs: Seq<Ext2Bid>,
    block_size: int,
    block_index: int,
    offset_in_block: int,
    remaining: int,
) -> Seq<BlockRead>
    decreases DIRECT_POINTERS - block_index,
{
    if reads_block(ptrs, block_index, remaining) {
        let to_read = bytes_from_block(block_size, offset_in_block, remaining);
        seq![
            BlockRead {
                sector: (ptrs[block_index].0 * block_size / (SECTOR_SIZE as int) + offset_in_block / (
                SECTOR_SIZE as int)) as usize,
                sectors: ((to_read + SECTOR_SIZE - 1) / (SECTOR_SIZE as int)) as usize,
            },
        ] + read_plan(ptrs, block_size, block_index + 1, 0, remaining - to_read)
    } else {
        Seq::<BlockRead>::empty()
    }
}

/// The number of bytes that those requests read.
pub open spec fn planned_bytes(
    ptrs: Seq<Ext2Bid>,
    block_size: int,
    block_index: int,
    offset_in_block: int,
    remaining: int,
) -> int
    decreases DIRECT_POINTERS - block_index,
{
    if reads_block(ptrs, block_index, remaining) {
        let to_read = bytes_from_block(block_size, offset_in_block, remaining);
        to_read + planned_bytes(ptrs, block_size, block_index + 1, 0, remaining - to_read)
    } else {
        0
    }
}

/// A read takes no more bytes than are wanted, and one request for each block
/// from which it takes bytes.
pub proof fn lemma_read_plan_bounds(
    ptrs: Seq<Ext2Bid>,
    block_size: int,
    block_index: int,
    offset_in_block: int,
    remaining: int,
)
    requires
        0 <= block_index,
        0 <= offset_in_block < block_size,
    ensures
        0 <= planned_bytes(ptrs, block_size, block_index, offset_in_block, remaining),
        remaining >= 0 ==> planned_bytes(ptrs, block_size, block_index, offset_in_block, remaining)
            <= remaining,
        read_plan(ptrs, block_size, block_index, offset_in_block, remaining).len() <= DIRECT_POINTERS,
        block_index <= DIRECT_POINTERS ==> read_plan(
            ptrs,
            block_size,
            block_index,
            offset_in_block,
            remaining,
        ).len() <= DIRECT_POINTERS - block_index,
    decreases DIRECT_POINTERS - block_index,
{
    if reads_block(ptrs, block_index, remaining) {
        let to_read = bytes_from_block(block_size, offset_in_block, remaining);
        lemma_read_plan_bounds(ptrs, block_size, block_index + 1, 0, remaining - to_read);
    }
}

/// An inode of the file system, as it is kept in memory.
#[derive(Debug)]
pub struct Inode {
    inode_id: u32,
    type_: InodeType,
    block_group_idx: usize,
    inner: Inner,
    meta: InodeMeta,
}

impl Inode {
    /// The number of the inode.
    pub closed spec fn spec_inode_id(&self) -> u32 {
        self.inode_id
    }

    /// What the inode is.
    pub closed spec fn spec_typ(&self) -> InodeType {
        self.type_
    }

    /// The block group that holds the inode.
    pub closed spec fn spec_block_group_idx(&self) -> usize {
        self.block_group_idx
    }

    /// What the file system records about the inode.
    pub closed spec fn spec_metadata(&self) -> InodeMeta {
        self.meta
    }

    /// The entries of the inode, if it is a directory.
    pub closed spec fn entries(&self) -> Option<Seq<Ext2DirEntry>> {
        match self.inner {
            Inner::File => None,
            Inner::Directory(entries) => Some(entries@),
        }
    }

    /// The inode with the number `inode_id` of which the disk holds
    /// `raw_inode`. `dir_entries` are the entries that were read for it; they
    /// are kept if the inode is a directory.
    pub fn new(raw_inode: RawInode, inode_id: u32, block_group_idx: usize, dir_entries: Vec<Ext2DirEntry>) -> (inode:
        Inode)
        requires
            inode_type_of(raw_inode.mode) is Some,
            raw_inode.size(inode_type_of(raw_inode.mode).unwrap()) <= usize::MAX,
        ensures
            inode.inode_id() == inode_id,
            inode.typ() == inode_type_of(raw_inode.mode).unwrap(),
            inode.block_group_idx() == block_group_idx,
            inode.entries() == if inode.typ() == InodeType::Directory {
                Some(dir_entries@)
            } else {
                None
            },
            inode.metadata() == (InodeMeta {
                size: raw_inode.size(inode.typ()) as usize,
                atime: Timestamp { secs: raw_inode.atime as u64, nanos: 0 },
                mtime: Timestamp { secs: raw_inode.mtime as u64, nanos: 0 },
                ctime: Timestamp { secs: raw_inode.ctime as u64, nanos: 0 },
            }),
    {
        let type_ = match inode_type_of(raw_inode.mode) {
            Some(type_) => type_,
            None => InodeType::File,
        };
        let inner = match type_ {
            InodeType::Directory => Inner::Directory(dir_entries),
            InodeType::File | InodeType::SymbolLink => Inner::File,
        };
        let size = raw_inode.size(type_) as usize;
        let meta = InodeMeta {
            size,
            atime: Timestamp::from_secs(raw_inode.atime as u64),
            mtime: Timestamp::from_secs(raw_inode.mtime as u64),
            ctime: Timestamp::from_secs(raw_inode.ctime as u64),
        };
        Inode { inode_id, type_, block_group_idx, inner, meta }
    }

    /// The number of the inode.
    #[verifier::when_used_as_spec(spec_inode_id)]
    pub fn inode_id(&self) -> (id: u32)
        ensures
            id == self.inode_id(),
    {
        self.inode_id
    }

    /// What the inode is.
    #[verifier::when_used_as_spec(spec_typ)]
    pub fn typ(&self) -> (type_: InodeType)
        ensures
            type_ == self.typ(),
    {
        self.type_
    }

    /// The block group that holds the inode.
    #[verifier::when_used_as_spec(spec_block_group_idx)]
    pub fn block_group_idx(&self) -> (idx: usize)
        ensures
            idx == self.block_group_idx(),
    {
        self.block_group_idx
    }

    /// What the file system records about the inode.
    #[verifier::when_used_as_spec(spec_metadata)]
    pub fn metadata(&self) -> (meta: InodeMeta)
        ensures
            meta == self.metadata(),
    {
        self.meta
    }

    /// The number of the inode that the first entry with the name `name`
    /// names, where there is such an entry.
    pub open spec fn named(entries: Seq<Ext2DirEntry>, name: Seq<u8>) -> Option<u32>
        decreases entries.len(),
    {
        if entries.len() == 0 {
            None
        } else if entries[0].name@ == name {
            Some(entries[0].inode)
        } else {
            Self::named(entries.drop_first(), name)
        }
    }

    /// The number of the inode that `name` names in this directory: that of
    /// the first entry with that name. `ENOTDIR` if the inode is no
    /// directory, `ENOENT` if no entry has the name.
    pub fn lookup(&self, name: &Vec<u8>) -> (r: Result<u32, Error>)
        ensures
            r == match self.entries() {
                None => Err::<u32, Error>(Error { code: Errno::ENOTDIR }),
                Some(entries) => match Self::named(entries, name@) {
                    Some(inode) => Ok::<u32, Error>(inode),
                    None => Err::<u32, Error>(Error { code: Errno::ENOENT }),
                },
            },
    {
        match &self.inner {
            Inner::File => Err(Error::new(Errno::ENOTDIR)),
            Inner::Directory(entries) => {
                let n: usize = entries.len();
                let mut i: usize = 0;
                assert(entries@.skip(0) =~= entries@);
                while i < n
                    invariant
                        i <= n,
                        n == entries@.len(),
                        self.entries() == Some(entries@),
                        Self::named(entries@, name@) == Self::named(entries@.skip(i as int), name@),
                    decreases n - i,
                {
                    let entry = &entries[i];
                    proof {
                        let rest = entries@.skip(i as int);
                        assert(rest[0] == entries@[i as int]);
                        assert(rest.drop_first() =~= entries@.skip(i + 1));
                    }
                    if same_bytes(&entry.name, name) {
                        assert(Self::named(entries@.skip(i as int), name@) == Some(entry.inode));
                        return Ok(entry.inode);
                    }
                    i += 1;
                }
                assert(entries@.skip(n as int).len() == 0);
                Err(Error::new(Errno::ENOENT))
            },
        }
    }

    /// Whether block numbers and byte counts of a read fit the machine: each
    /// block that a direct pointer names starts and ends at an address.
    pub open spec fn can_read(raw_inode: RawInode, fs: Ext2Fs) -> bool {
        forall|i: int|
            0 <= i < DIRECT_POINTERS ==> (#[trigger] raw_inode.block_ptrs.direct_pointers[i]).0
                * fs.block_size() + fs.block_size() <= usize::MAX
    }

    /// Plans a read of up to `avail` bytes of the file from `offset` on.
    /// `raw_inode` is the inode as the disk holds it now.
    ///
    /// `EISDIR` if the inode is no file. Nothing is read at or behind the end
    /// of the file. Else the read takes the bytes up to the end of the file,
    /// or `avail` of them if that is less, block by block through the direct
    /// pointers, and ends early at a pointer that names no block. The result
    /// is the number of bytes and the requests to the disk, in order.
    pub fn read_at(&self, raw_inode: &RawInode, fs: &Ext2Fs, offset: usize, avail: usize) -> (r: Result<
        (usize, Vec<BlockRead>),
        Error,
    >)
        requires
            fs.wf(),
            Self::can_read(*raw_inode, *fs),
            raw_inode.size(self.typ()) <= usize::MAX,
        ensures
            self.typ() != InodeType::File ==> r == Err::<(usize, Vec<BlockRead>), Error>(
                Error { code: Errno::EISDIR },
            ),
            self.typ() == InodeType::File ==> r is Ok && ({
                let file_size = raw_inode.size(self.typ()) as int;
                let wanted = if offset >= file_size {
                    0
                } else {
                    min(avail as int, file_size - offset)
                };
                let block_size = fs.block_size() as int;
                &&& r.unwrap().0 == planned_bytes(
                    raw_inode.block_ptrs.direct_pointers@,
                    block_size,
                    offset as int / block_size,
                    offset as int % block_size,
                    wanted,
                )
                &&& r.unwrap().1@ == read_plan(
                    raw_inode.block_ptrs.direct_pointers@,
                    block_size,
                    offset as int / block_size,
                    offset as int % block_size,
                    wanted,
                )
            }),
    {
        if self.type_ != InodeType::File {
            return Err(Error::new(Errno::EISDIR));
        }
        let block_size: usize = fs.block_size();
        let file_size: usize = raw_inode.size(self.type_) as usize;
        let mut reads: Vec<BlockRead> = Vec::new();

        if offset >= file_size {
            return Ok((0, reads));
        }
        let mut bytes_read: usize = 0;
        let max_to_read: usize = if avail < file_size - offset {
            avail
        } else {
            file_size - offset
        };

        // Find start block and offset within block
        let mut block_index: usize = offset / block_size;
        let mut offset_in_block: usize = offset % block_size;
        let ghost ptrs = raw_inode.block_ptrs.direct_pointers@;
        let ghost start_index = block_index as int;
        let ghost start_offset = offset_in_block as int;

        // Read data block by block
        while bytes_read < max_to_read
            invariant
                fs.wf(),
                block_size == fs.block_size(),
                block_size == 4096,
                Self::can_read(*raw_inode, *fs),
                ptrs == raw_inode.block_ptrs.direct_pointers@,
                bytes_read <= max_to_read,
                offset_in_block < block_size,
                start_index <= block_index,
                planned_bytes(ptrs, block_size as int, start_index, start_offset, max_to_read as int)
                    == bytes_read + planned_bytes(
                    ptrs,
                    block_size as int,
                    block_index as int,
                    offset_in_block as int,
                    max_to_read - bytes_read,
                ),
                read_plan(ptrs, block_size as int, start_index, start_offset, max_to_read as int)
                    == reads@ + read_plan(
                    ptrs,
                    block_size as int,
                    block_index as int,
                    offset_in_block as int,
                    max_to_read - bytes_read,
                ),
            ensures
                planned_bytes(ptrs, block_size as int, start_index, start_offset, max_to_read as int)
                    == bytes_read,
                read_plan(ptrs, block_size as int, start_index, start_offset, max_to_read as int)
                    == reads@,
            decreases max_to_read - bytes_read,
        {
            let block_ptr = if block_index < DIRECT_POINTERS {
                raw_inode.block_ptrs.direct_pointers[block_index]
            } else {
                // Only the direct pointers are followed.
                assert(reads@ + Seq::<BlockRead>::empty() =~= reads@);
                break ;
            };
            if block_ptr.0 == 0 {
                assert(reads@ + Seq::<BlockRead>::empty() =~= reads@);
                break ;
            }
            assert(block_ptr.0 * block_size + block_size <= usize::MAX);
            let sector = fs.bid_to_sector(block_ptr);
            let remaining_in_file: usize = max_to_read - bytes_read;
            let remaining_in_block: usize = block_size - offset_in_block;
            let to_read: usize = if remaining_in_block < remaining_in_file {
                remaining_in_block
            } else {
                remaining_in_file
            };
            assert(sector * 512 <= block_ptr.0 * block_size);
            let request = BlockRead {
                sector: sector + offset_in_block / SECTOR_SIZE,
                sectors: (to_read + SECTOR_SIZE - 1) / SECTOR_SIZE,
            };
            proof {
                let rest = read_plan(
                    ptrs,
                    block_size as int,
                    block_index as int + 1,
                    0,
                    max_to_read - bytes_read - to_read,
                );
                assert(reads@ + (seq![request] + rest) =~= reads@.push(request) + rest);
            }
            reads.push(request);

            bytes_read += to_read;
            offset_in_block = 0;  // After first block, offset is 0
            block_index += 1;
        }
        proof {
            if bytes_read >= max_to_read {
                assert(reads@ + Seq::<BlockRead>::empty() =~= reads@);
            }
        }
        Ok((bytes_read, reads))
    }
}

/// Whether two byte strings are the same.
pub fn same_bytes(a: &Vec<u8>, b: &Vec<u8>) -> (r: bool)
    ensures
        r == (a@ == b@),
{
    if a.len() != b.len() {
        return false;
    }
    let n: usize = a.len();
    let mut i: usize = 0;
    while i < n
        invariant
            i <= n,
            n == a@.len(),
            n == b@.len(),
            forall|k: int| 0 <= k < i ==> a@[k] == b@[k],
        decreases n - i,
    {
        if a[i] != b[i] {
            return false;
        }
        i += 1;
    }
    assert(a@ =~= b@);
    true
}

} // verus!
