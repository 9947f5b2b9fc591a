//! A file system whose files live in page frames.

use crate::error::{Errno, Error};
use crate::fs::{InodeMeta, InodeType, Timestamp};
use crate::mm::frame::{Frame, PAGE_SIZE};
use vstd::math::min;
use vstd::prelude::*;

verus! {

/// A run of bytes within one frame: `len` bytes, from `offset` bytes into
/// `frame` on.
#[derive(Clone, Copy, Debug, PartialEq, Eq, Structural)]
pub struct FrameChunk {
    pub frame: Frame,
    pub offset: usize,
    pub len: usize,
}

/// The runs of bytes that make up the `total` bytes from `offset` on of a
/// file whose pages lie in `frames`: the run from `offset` to the end of its
/// page, then whole pages, then what is left.
pub open spec fn chunks_of(frames: Seq<Frame>, offset: int, total: int) -> Seq<FrameChunk>
    decreases total,
{
    if total <= 0 || offset < 0 {
        Seq::<FrameChunk>::empty()
    } else {
        let len = min(PAGE_SIZE - offset % (PAGE_SIZE as int), total);
        seq![
            FrameChunk {
                frame: frames[offset / (PAGE_SIZE as int)],
                offset: (offset % (PAGE_SIZE as int)) as usize,
                len: len as usize,
            },
        ] + chunks_of(frames, offset + len, total - len)
    }
}

/// The number of bytes in the runs `chunks`.
pub open spec fn total_len(chunks: Seq<FrameChunk>) -> int
    decreases chunks.len(),
{
    if chunks.len() == 0 {
        0
    } else {
        chunks[0].len + total_len(chunks.drop_first())
    }
}

/// The runs that make up `total` bytes hold `total` bytes between them, and
/// each is a run of at least one byte within one page.
pub proof fn lemma_chunks_cover(frames: Seq<Frame>, offset: int, total: int)
    requires
        0 <= offset,
        0 <= total,
        offset + total <= usize::MAX,
    ensures
        total_len(chunks_of(frames, offset, total)) == total,
        forall|k: int|
            0 <= k < chunks_of(frames, offset, total).len() ==> {
                &&& 0 < (#[trigger] chunks_of(frames, offset, total)[k]).len
                &&& chunks_of(frames, offset, total)[k].offset + chunks_of(frames, offset, total)[k].len
                    <= PAGE_SIZE
            },
    decreases total,
{
    if total > 0 {
        let len = min(PAGE_SIZE - offset % (PAGE_SIZE as int), total);
        let first = FrameChunk {
            frame: frames[offset / (PAGE_SIZE as int)],
            offset: (offset % (PAGE_SIZE as int)) as usize,
            len: len as usize,
        };
        let rest = chunks_of(frames, offset + len, total - len);
        lemma_chunks_cover(frames, offset + len, total - len);
        let all = chunks_of(frames, offset, total);
        assert(all == seq![first] + rest);
        assert(all.drop_first() =~= rest);
        assert forall|k: int| 0 <= k < all.len() implies {
            &&& 0 < (#[trigger] all[k]).len
            &&& all[k].offset + all[k].len <= PAGE_SIZE
        } by {
            if k > 0 {
                assert(all[k] == rest[k - 1]);
            }
        }
    }
}

/// The number of frames that hold `bytes` bytes.
pub open spec fn frames_for(bytes: int) -> int {
    (bytes + PAGE_SIZE - 1) / (PAGE_SIZE as int)
}

/// A file: the frames that hold its pages, and its size in bytes.
#[derive(Debug)]
pub struct RamFile {
    data: Vec<Frame>,
    size: usize,
}

impl RamFile {
    /// The frames that hold the pages of the file, the first page first.
    pub closed spec fn frames(&self) -> Seq<Frame> {
        self.data@
    }

    /// The size of the file, in bytes.
    pub closed spec fn spec_size(&self) -> usize {
        self.size
    }

    /// The invariant of a file: its frames hold all its bytes.
    pub open spec fn wf(&self) -> bool {
        self.size() <= self.frames().len() * PAGE_SIZE
    }

    /// The number of bytes that a read of up to `avail` bytes from `offset`
    /// on takes: those up to the end of the file, or `avail` if that is
    /// less; none at or behind the end.
    pub open spec fn readable_bytes(&self, offset: usize, avail: usize) -> int {
        if offset >= self.size() {
            0
        } else {
            min(self.size() - offset, avail as int)
        }
    }

    /// The number of frames that the file lacks for a write of `len` bytes at
    /// `offset`.
    pub open spec fn lacking(&self, offset: usize, len: usize) -> int {
        if frames_for(offset + len) > self.frames().len() {
            frames_for(offset + len) - self.frames().len()
        } else {
            0
        }
    }

    /// Whether a write of `len` bytes at `offset`, for which the allocator
    /// gave the frames `fresh`, takes this file to `after` with the result
    /// `r`.
    ///
    /// The file takes as many of the frames as it lacks for the write, from
    /// the first on; where there are fewer, it takes them all and the write
    /// fails with `ENOMEM`. Else the result is `len` and the runs into which
    /// the bytes go, in order, and the file ends where the write ends unless
    /// it was longer.
    pub open spec fn write_step(
        &self,
        after: RamFile,
        offset: usize,
        len: usize,
        fresh: Seq<Frame>,
        r: Result<(usize, Vec<FrameChunk>), Error>,
    ) -> bool {
        if fresh.len() < self.lacking(offset, len) {
            &&& r == Err::<(usize, Vec<FrameChunk>), Error>(Error { code: Errno::ENOMEM })
            &&& after.frames() == self.frames() + fresh
            &&& after.size() == self.size()
        } else {
            &&& r is Ok
            &&& r.unwrap().0 == len
            &&& r.unwrap().1@ == chunks_of(after.frames(), offset as int, len as int)
            &&& after.frames() == self.frames() + fresh.take(self.lacking(offset, len))
            &&& after.size() == if offset + len > self.size() {
                (offset + len) as usize
            } else {
                self.size()
            }
        }
    }

    /// An empty file.
    pub fn new() -> (file: RamFile)
        ensures
            file.wf(),
            file.size() == 0,
            file.frames() == Seq::<Frame>::empty(),
    {
        RamFile { data: Vec::new(), size: 0 }
    }

    /// The size of the file, in bytes.
    #[verifier::when_used_as_spec(spec_size)]
    pub fn size(&self) -> (n: usize)
        ensures
            n == self.size(),
    {
        self.size
    }

    /// The runs of bytes that make up the `total` bytes from `offset` on.
    pub fn chunks(&self, offset: usize, total: usize) -> (r: Vec<FrameChunk>)
        requires
            offset + total <= self.frames().len() * PAGE_SIZE,
            offset + total <= usize::MAX,
        ensures
            r@ == chunks_of(self.frames(), offset as int, total as int),
    {
        let mut chunks: Vec<FrameChunk> = Vec::new();
        let mut current_offset: usize = offset;
        let mut done: usize = 0;
        assert(chunks@ + chunks_of(self.frames(), offset as int, total as int) =~= chunks_of(
            self.frames(),
            offset as int,
            total as int,
        ));
        while done < total
            invariant
                done <= total,
                current_offset == offset + done,
                offset + total <= self.frames().len() * PAGE_SIZE,
                offset + total <= usize::MAX,
                chunks_of(self.frames(), offset as int, total as int) == chunks@ + chunks_of(
                    self.frames(),
                    current_offset as int,
                    total - done,
                ),
            decreases total - done,
        {
            let page_idx: usize = current_offset / PAGE_SIZE;
            let page_offset: usize = current_offset % PAGE_SIZE;
            assert(page_idx < self.frames().len()) by {
                assert(current_offset < self.frames().len() * PAGE_SIZE);
            }
            let frame = self.data[page_idx];

            let remaining_in_page: usize = PAGE_SIZE - page_offset;
            let len: usize = if remaining_in_page < total - done {
                remaining_in_page
            } else {
                total - done
            };
            let chunk = FrameChunk { frame, offset: page_offset, len };
            proof {
                let rest = chunks_of(self.frames(), current_offset + len, total - done - len);
                assert(chunks@ + (seq![chunk] + rest) =~= chunks@.push(chunk) + rest);
            }
            chunks.push(chunk);

            done += len;
            current_offset += len;
        }
        assert(chunks@ + Seq::<FrameChunk>::empty() =~= chunks@);
        chunks
    }

    /// Plans a read of up to `avail` bytes from `offset` on: the number of
    /// bytes that it takes, and the runs in which they lie, in order.
    pub fn read_at(&self, offset: usize, avail: usize) -> (r: (usize, Vec<FrameChunk>))
        requires
            self.wf(),
        ensures
            r.0 == self.readable_bytes(offset, avail),
            r.1@ == chunks_of(self.frames(), offset as int, r.0 as int),
    {
        if offset >= self.size {
            return (0, Vec::new());
        }
        let total_to_read: usize = if self.size - offset < avail {
            self.size - offset
        } else {
            avail
        };
        (total_to_read, self.chunks(offset, total_to_read))
    }

    /// The number of frames that the file lacks for a write of `len` bytes at
    /// `offset`.
    pub fn frames_needed(&self, offset: usize, len: usize) -> (n: usize)
        requires
            offset + len + PAGE_SIZE <= usize::MAX,
        ensures
            n == self.lacking(offset, len),
    {
        let needed_frames: usize = (offset + len + PAGE_SIZE - 1) / PAGE_SIZE;
        if needed_frames > self.data.len() {
            needed_frames - self.data.len()
        } else {
            0
        }
    }

    /// Plans a write of `len` bytes at `offset`. `fresh` are the frames of
    /// zeroes that the allocator gave for it, in the order in which it gave
    /// them.
    pub fn write_at(&mut self, offset: usize, len: usize, fresh: &Vec<Frame>) -> (r: Result<
        (usize, Vec<FrameChunk>),
        Error,
    >)
        requires
            old(self).wf(),
            offset + len + PAGE_SIZE <= usize::MAX,
        ensures
            final(self).wf(),
            old(self).write_step(*final(self), offset, len, fresh@, r),
    {
        let write_end: usize = offset + len;

        // Ensure enough frames are allocated
        let needed_frames: usize = (write_end + PAGE_SIZE - 1) / PAGE_SIZE;
        let mut taken: usize = 0;
        let ghost had: int = self.data@.len() as int;
        let ghost size_before: int = self.size as int;
        assert(fresh@.take(0) =~= Seq::<Frame>::empty());
        assert(self.data@ + Seq::<Frame>::empty() =~= self.data@);
        while self.data.len() < needed_frames
            invariant
                taken <= fresh@.len(),
                self.data@ == old(self).data@ + fresh@.take(taken as int),
                self.size == old(self).size,
                old(self).wf(),
                had == old(self).data@.len(),
                size_before == old(self).size,
                needed_frames == frames_for(offset + len),
                had >= needed_frames ==> taken == 0,
                had < needed_frames ==> had + taken <= needed_frames,
            decreases needed_frames - self.data.len(),
        {
            if taken >= fresh.len() {
                assert(fresh@.take(taken as int) =~= fresh@);
                let ghost now: int = self.data@.len() as int;
                assert(size_before <= now * PAGE_SIZE) by (nonlinear_arith)
                    requires
                        size_before <= had * PAGE_SIZE,
                        now >= had,
                ;
                return Err(Error::new(Errno::ENOMEM));
            }
            let frame = fresh[taken];
            assert(fresh@.take(taken + 1) =~= fresh@.take(taken as int).push(frame));
            assert(old(self).data@ + fresh@.take(taken as int).push(frame) =~= (old(self).data@
                + fresh@.take(taken as int)).push(frame));
            self.data.push(frame);
            taken += 1;
        }
        let ghost now: int = self.data@.len() as int;
        assert(write_end <= now * PAGE_SIZE) by {
            assert(needed_frames * PAGE_SIZE >= write_end);
            assert(now * PAGE_SIZE >= needed_frames * PAGE_SIZE) by (nonlinear_arith)
                requires
                    now >= needed_frames,
            ;
        }
        assert(size_before <= now * PAGE_SIZE) by (nonlinear_arith)
            requires
                size_before <= had * PAGE_SIZE,
                now >= had,
        ;
        let chunks = self.chunks(offset, len);

        if write_end > self.size {
            self.size = write_end;
        }
        Ok((len, chunks))
    }
}

/// An entry of a directory: a name and the inode that it names.
#[derive(Debug)]
pub struct RamDirEntry {
    pub name: String,
    pub inode: RamInode,
}

/// What an inode holds.
#[derive(Debug)]
pub enum Inner {
    File(RamFile),
    Directory(Vec<RamDirEntry>),
}

/// An inode: a file or a directory.
#[derive(Debug)]
pub struct RamInode {
    inner: Inner,
    metadata: InodeMeta,
}

/// The size that a directory reports, in bytes.
pub const DIRECTORY_SIZE: usize = 12;

/// The index of the entry with the name `name`, where there is one.
pub open spec fn position(entries: Seq<RamDirEntry>, name: Seq<char>) -> Option<int> {
    if exists|i: int| 0 <= i < entries.len() && (#[trigger] entries[i]).name@ == name {
        Some(choose|i: int| 0 <= i < entries.len() && (#[trigger] entries[i]).name@ == name)
    } else {
        None
    }
}

/// Whether no two of the entries have the same name.
pub open spec fn distinct_names(entries: Seq<RamDirEntry>) -> bool {
    forall|i: int, j: int|
        0 <= i < j < entries.len() ==> (#[trigger] entries[i]).name@ != (#[trigger] entries[j]).name@
}

impl RamInode {
    /// The file, if the inode is one.
    pub closed spec fn file(&self) -> Option<RamFile> {
        match self.inner {
            Inner::File(file) => Some(file),
            Inner::Directory(_) => None,
        }
    }

    /// The entries, if the inode is a directory.
    pub closed spec fn entries(&self) -> Option<Seq<RamDirEntry>> {
        match self.inner {
            Inner::File(_) => None,
            Inner::Directory(entries) => Some(entries@),
        }
    }

    /// What the file system records about the inode.
    pub closed spec fn spec_metadata(&self) -> InodeMeta {
        self.metadata
    }

    /// What the inode is.
    pub open spec fn spec_typ(&self) -> InodeType {
        if self.entries() is Some {
            InodeType::Directory
        } else {
            InodeType::File
        }
    }

    /// The invariant of an inode, as far as it goes without its children: a
    /// file is well formed, and no two entries of a directory have the same
    /// name.
    pub open spec fn wf(&self) -> bool {
        &&& self.file() matches Some(file) ==> file.wf()
        &&& self.entries() matches Some(entries) ==> distinct_names(entries)
    }

    /// The metadata of a new inode: no size, and all times at the epoch.
    pub open spec fn fresh_metadata() -> InodeMeta {
        InodeMeta {
            size: 0,
            atime: Timestamp { secs: 0, nanos: 0 },
            mtime: Timestamp { secs: 0, nanos: 0 },
            ctime: Timestamp { secs: 0, nanos: 0 },
        }
    }

    /// An empty file.
    pub fn new_file() -> (inode: RamInode)
        ensures
            inode.wf(),
            inode.file() is Some,
            inode.file().unwrap().size() == 0,
            inode.file().unwrap().frames() == Seq::<Frame>::empty(),
            inode.metadata() == Self::fresh_metadata(),
    {
        RamInode {
            inner: Inner::File(RamFile::new()),
            metadata: InodeMeta {
                size: 0,
                atime: Timestamp { secs: 0, nanos: 0 },
                mtime: Timestamp { secs: 0, nanos: 0 },
                ctime: Timestamp { secs: 0, nanos: 0 },
            },
        }
    }

    /// An empty directory.
    pub fn new_directory() -> (inode: RamInode)
        ensures
            inode.wf(),
            inode.entries() == Some(Seq::<RamDirEntry>::empty()),
            inode.metadata() == Self::fresh_metadata(),
    {
        RamInode {
            inner: Inner::Directory(Vec::new()),
            metadata: InodeMeta {
                size: 0,
                atime: Timestamp { secs: 0, nanos: 0 },
                mtime: Timestamp { secs: 0, nanos: 0 },
                ctime: Timestamp { secs: 0, nanos: 0 },
            },
        }
    }

    /// Plans a read of up to `avail` bytes from `offset` on. `EISDIR` for a
    /// directory.
    pub fn read_at(&self, offset: usize, avail: usize) -> (r: Result<(usize, Vec<FrameChunk>), Error>)
        requires
            self.wf(),
        ensures
            match self.file() {
                None => r == Err::<(usize, Vec<FrameChunk>), Error>(Error { code: Errno::EISDIR }),
                Some(file) => {
                    &&& r is Ok
                    &&& r.unwrap().0 == file.readable_bytes(offset, avail)
                    &&& r.unwrap().1@ == chunks_of(file.frames(), offset as int, r.unwrap().0 as int)
                },
            },
    {
        match &self.inner {
            Inner::File(file) => Ok(file.read_at(offset, avail)),
            Inner::Directory(_) => Err(Error::new(Errno::EISDIR)),
        }
    }

    /// The size of the inode, in bytes: that of the file, or 12 for a
    /// directory.
    pub fn size(&self) -> (n: usize)
        ensures
            n == match self.file() {
                Some(file) => file.size(),
                None => DIRECTORY_SIZE,
            },
    {
        match &self.inner {
            Inner::File(file) => file.size(),
            Inner::Directory(_) => DIRECTORY_SIZE,
        }
    }

    /// What the file system records about the inode.
    #[verifier::when_used_as_spec(spec_metadata)]
    pub fn metadata(&self) -> (meta: InodeMeta)
        ensures
            meta == self.metadata(),
    {
        self.metadata
    }

    /// What the inode is.
    #[verifier::when_used_as_spec(spec_typ)]
    pub fn typ(&self) -> (type_: InodeType)
        ensures
            type_ == self.typ(),
    {
        match &self.inner {
            Inner::Directory(_) => InodeType::Directory,
            Inner::File(_) => InodeType::File,
        }
    }

    /// The inode that `name` names in this directory. `ENOTDIR` if the inode
    /// is no directory, `ENOENT` if no entry has the name.
    pub fn lookup(&self, name: &str) -> (r: Result<&RamInode, Error>)
        requires
            self.wf(),
        ensures
            match self.entries() {
                None => r == Err::<&RamInode, Error>(Error { code: Errno::ENOTDIR }),
                Some(entries) => match position(entries, name@) {
                    None => r == Err::<&RamInode, Error>(Error { code: Errno::ENOENT }),
                    Some(i) => r == Ok::<&RamInode, Error>(&entries[i].inode),
                },
            },
    {
        match &self.inner {
            Inner::File(_) => Err(Error::new(Errno::ENOTDIR)),
            Inner::Directory(entries) => {
                match find_entry(entries, name) {
                    Some(i) => Ok(&entries[i].inode),
                    None => Err(Error::new(Errno::ENOENT)),
                }
            },
        }
    }

    /// Plans a write of `len` bytes at `offset`, with `fresh` as the frames
    /// that the allocator gave for it. `EISDIR` for a directory, which stays
    /// as it is.
    pub fn write_at(&mut self, offset: usize, len: usize, fresh: &Vec<Frame>) -> (r: Result<
        (usize, Vec<FrameChunk>),
        Error,
    >)
        requires
            old(self).wf(),
            offset + len + PAGE_SIZE <= usize::MAX,
        ensures
            final(self).wf(),
            final(self).metadata() == old(self).metadata(),
            final(self).entries() == old(self).entries(),
            match old(self).file() {
                None => r == Err::<(usize, Vec<FrameChunk>), Error>(Error { code: Errno::EISDIR }),
                Some(file) => final(self).file() is Some && file.write_step(
                    final(self).file().unwrap(),
                    offset,
                    len,
                    fresh@,
                    r,
                ),
            },
    {
        match &mut self.inner {
            Inner::File(file) => file.write_at(offset, len, fresh),
            Inner::Directory(_) => Err(Error::new(Errno::EISDIR)),
        }
    }

    /// Makes an empty file or directory with the name `name` in this
    /// directory, in place of what had that name before. `ENOTDIR` if the
    /// inode is no directory.
    pub fn create(&mut self, name: &str, type_: InodeType) -> (r: Result<(), Error>)
        requires
            old(self).wf(),
            type_ != InodeType::SymbolLink,
        ensures
            final(self).wf(),
            final(self).metadata() == old(self).metadata(),
            final(self).file() == old(self).file(),
            match old(self).entries() {
                None => r == Err::<(), Error>(Error { code: Errno::ENOTDIR }),
                Some(entries) => {
                    &&& r == Ok::<(), Error>(())
                    &&& final(self).entries() is Some
                    &&& ({
                        let after = final(self).entries().unwrap();
                        let at = match position(entries, name@) {
                            Some(i) => i,
                            None => entries.len() as int,
                        };
                        &&& after.len() == if position(entries, name@) is Some {
                            entries.len()
                        } else {
                            entries.len() + 1
                        }
                        &&& forall|k: int| 0 <= k < entries.len() && k != at ==> after[k] == entries[k]
                        &&& after[at].name@ == name@
                        &&& after[at].inode.typ() == type_
                        &&& after[at].inode.is_empty()
                    })
                },
            },
    {
        match &mut self.inner {
            Inner::File(_) => Err(Error::new(Errno::ENOTDIR)),
            Inner::Directory(entries) => {
                let inode = match type_ {
                    InodeType::File => RamInode::new_file(),
                    _ => RamInode::new_directory(),
                };
                let ghost before = entries@;
                match find_entry(entries, name) {
                    Some(i) => {
                        entries[i].inode = inode;
                        proof {
                            assert forall|a: int, b: int| 0 <= a < b < entries@.len() implies (
                            #[trigger] entries@[a]).name@ != (#[trigger] entries@[b]).name@ by {
                                assert(entries@[a].name@ == before[a].name@);
                                assert(entries@[b].name@ == before[b].name@);
                            }
                        }
                    },
                    None => {
                        entries.push(RamDirEntry { name: name.to_owned(), inode });
                        proof {
                            assert forall|a: int, b: int| 0 <= a < b < entries@.len() implies (
                            #[trigger] entries@[a]).name@ != (#[trigger] entries@[b]).name@ by {
                                assert(entries@[a] == before[a]);
                                if b < before.len() {
                                    assert(entries@[b] == before[b]);
                                }
                            }
                        }
                    },
                }
                Ok(())
            },
        }
    }

    /// Opens the file with the name `name` in this directory, and makes an
    /// empty file of that name if there is none: the index of its entry. An
    /// inode that is no directory stays as it is and answers for itself.
    pub fn open(&mut self, name: &str) -> (r: Option<usize>)
        requires
            old(self).wf(),
        ensures
            final(self).wf(),
            final(self).metadata() == old(self).metadata(),
            final(self).file() == old(self).file(),
            match old(self).entries() {
                None => r is None && final(self).entries() is None,
                Some(entries) => match position(entries, name@) {
                    Some(i) => r == Some(i as usize) && final(self).entries() == Some(entries),
                    None => {
                        &&& r == Some(entries.len() as usize)
                        &&& final(self).entries() is Some
                        &&& final(self).entries().unwrap().len() == entries.len() + 1
                        &&& final(self).entries().unwrap().drop_last() == entries
                        &&& final(self).entries().unwrap().last().name@ == name@
                        &&& final(self).entries().unwrap().last().inode.typ() == InodeType::File
                        &&& final(self).entries().unwrap().last().inode.is_empty()
                    },
                },
            },
    {
        match &mut self.inner {
            Inner::File(_) => None,
            Inner::Directory(entries) => {
                match find_entry(entries, name) {
                    Some(i) => Some(i),
                    None => {
                        let ghost before = entries@;
                        let at: usize = entries.len();
                        entries.push(RamDirEntry { name: name.to_owned(), inode: RamInode::new_file() });
                        proof {
                            assert(entries@.drop_last() =~= before);
                            assert forall|a: int, b: int| 0 <= a < b < entries@.len() implies (
                            #[trigger] entries@[a]).name@ != (#[trigger] entries@[b]).name@ by {
                                assert(entries@[a] == before[a]);
                                if b < before.len() {
                                    assert(entries@[b] == before[b]);
                                }
                            }
                        }
                        Some(at)
                    },
                }
            },
        }
    }

    /// The entry with index `i` of this directory.
    pub fn entry(&self, i: usize) -> (r: &RamDirEntry)
        requires
            self.entries() matches Some(entries) && i < entries.len(),
        ensures
            *r == self.entries().unwrap()[i as int],
    {
        match &self.inner {
            Inner::Directory(entries) => &entries[i],
            Inner::File(_) => vstd::pervasive::unreached(),
        }
    }

    /// The inode of the entry with index `i` of this directory, to be changed
    /// in place.
    pub fn inode_mut(&mut self, i: usize) -> (r: &mut RamInode)
        requires
            old(self).entries() matches Some(entries) && i < entries.len(),
        ensures
            *r == old(self).entries().unwrap()[i as int].inode,
            final(self).metadata() == old(self).metadata(),
            final(self).file() == old(self).file(),
            final(self).entries() is Some,
            final(self).entries().unwrap().len() == old(self).entries().unwrap().len(),
            forall|k: int|
                0 <= k < old(self).entries().unwrap().len() && k != i ==> final(self).entries().unwrap()[k]
                    == old(self).entries().unwrap()[k],
            final(self).entries().unwrap()[i as int].name == old(self).entries().unwrap()[i as int].name,
            final(self).entries().unwrap()[i as int].inode == *final(r),
            old(self).wf() ==> final(self).wf(),
    {
        match &mut self.inner {
            Inner::Directory(entries) => &mut entries[i].inode,
            Inner::File(_) => vstd::pervasive::unreached(),
        }
    }

    /// Whether the inode is as it was made: a file without bytes, or a
    /// directory without entries.
    pub open spec fn is_empty(&self) -> bool {
        &&& self.metadata() == Self::fresh_metadata()
        &&& self.file() matches Some(file) ==> file.size() == 0 && file.frames().len() == 0
        &&& self.entries() matches Some(entries) ==> entries.len() == 0
    }
}

/// The index of the entry with the name `name`, where there is one.
pub fn find_entry(entries: &Vec<RamDirEntry>, name: &str) -> (r: Option<usize>)
    requires
        distinct_names(entries@),
    ensures
        match r {
            Some(i) => position(entries@, name@) == Some(i as int) && i < entries@.len(),
            None => position(entries@, name@) is None,
        },
{
    let wanted: String = name.to_owned();
    let n: usize = entries.len();
    let mut i: usize = 0;
    while i < n
        invariant
            i <= n,
            n == entries@.len(),
            wanted@ == name@,
            distinct_names(entries@),
            forall|k: int| 0 <= k < i ==> (#[trigger] entries@[k]).name@ != name@,
        decreases n - i,
    {
        if entries[i].name == wanted {
            proof {
                let found = choose|k: int| 0 <= k < entries@.len() && (#[trigger] entries@[k]).name@ == name@;
                if found < i {
                    assert(entries@[found].name@ != name@);
                }
                if i < found {
                    assert(entries@[i as int].name@ != entries@[found].name@);
                }
            }
            return Some(i);
        }
        i += 1;
    }
    None
}

/// The file system in memory.
#[derive(Debug)]
pub struct RamFS {
    root: RamInode,
}

impl RamFS {
    /// The root directory.
    pub closed spec fn root(&self) -> RamInode {
        self.root
    }

    /// A file system with an empty root directory.
    pub fn new() -> (fs: RamFS)
        ensures
            fs.root().wf(),
            fs.root().entries() == Some(Seq::<RamDirEntry>::empty()),
    {
        RamFS { root: RamInode::new_directory() }
    }

    /// The name of this kind of file system.
    pub fn name(&self) -> (name: &'static str)
        ensures
            name@ == "ramfs"@,
    {
        "ramfs"
    }

    /// The root directory.
    pub fn root_inode(&self) -> (inode: &RamInode)
        ensures
            *inode == self.root(),
    {
        &self.root
    }

    /// The root directory, to be changed in place.
    pub fn root_inode_mut(&mut self) -> (inode: &mut RamInode)
        ensures
            *inode == old(self).root(),
            final(self).root() == *final(inode),
    {
        &mut self.root
    }
}

} // verus!
