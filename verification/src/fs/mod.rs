//! What this crate knows of the virtual file system.

pub mod ext2;
pub mod file;
pub mod ramfs;

use vstd::prelude::*;

verus! {

/// Names one inode of the virtual file system.
///
/// The file system hands these out and resolves them; to this crate a handle
/// is a token that it stores and hands back.
#[derive(Clone, Copy, Debug, PartialEq, Eq, Structural)]
pub struct InodeRef {
    pub id: usize,
}

/// What an inode is.
#[derive(Clone, Copy, Debug, PartialEq, Eq, Structural)]
pub enum InodeType {
    File,
    Directory,
    SymbolLink,
}

/// A point in time: seconds since the epoch, and the nanoseconds of the
/// second that has begun.
#[derive(Clone, Copy, Debug, PartialEq, Eq, Structural)]
pub struct Timestamp {
    pub secs: u64,
    pub nanos: u32,
}

impl Timestamp {
    /// The point in time `secs` whole seconds after the epoch.
    pub fn from_secs(secs: u64) -> (t: Timestamp)
        ensures
            t == (Timestamp { secs, nanos: 0 }),
    {
        Timestamp { secs, nanos: 0 }
    }
}

/// What the file system records about an inode besides its contents.
#[derive(Clone, Copy, Debug, PartialEq, Eq, Structural)]
pub struct InodeMeta {
    /// The size of the file, in bytes.
    pub size: usize,
    /// When the file was last accessed.
    pub atime: Timestamp,
    /// When the contents of the file were last changed.
    pub mtime: Timestamp,
    /// When the inode was last changed.
    pub ctime: Timestamp,
}

} // verus!
