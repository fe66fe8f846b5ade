//! POSIX-style attributes synthesised for nodes.

use vstd::prelude::*;

verus! {

/// A point in time: seconds and nanoseconds since the epoch.
#[derive(Debug, Clone, Copy, PartialEq, Eq, Structural)]
pub struct Timestamp {
    pub sec: i64,
    pub nsec: u32,
}

impl Timestamp {
    /// The timestamp with the given component parts.
    pub fn new(sec: i64, nsec: u32) -> (r: Timestamp)
        ensures
            r == (Timestamp { sec, nsec }),
    {
        Timestamp { sec, nsec }
    }
}

/// The kind of a node as reported to the kernel: this filesystem only
/// ever exposes directories and regular files.
#[derive(Debug, Clone, Copy, PartialEq, Eq, Structural)]
pub enum FileType {
    Directory,
    RegularFile,
}

/// The `S_IFMT` bit pattern of a kind: `S_IFDIR` for a directory,
/// `S_IFREG` for a regular file.
pub open spec fn spec_kind_bits(kind: FileType) -> u32 {
    match kind {
        FileType::Directory => 0o040000u32,
        FileType::RegularFile => 0o100000u32,
    }
}

/// The permission word the kernel adapter reports for a node of kind
/// `kind` whose stored mode is `mode`.
pub open spec fn spec_perm(kind: FileType, mode: u32) -> u16 {
    (spec_kind_bits(kind) ^ mode) as u16
}

/// Relies on `fuse3::perm_from_mode_and_kind`: it returns the exclusive
/// or of the mode and the kind's `S_IFMT` bits, truncated to 16 bits.
#[verifier::external_body]
pub(crate) fn perm_from_mode_and_kind(kind: FileType, mode: u32) -> (r: u16)
    ensures
        r == spec_perm(kind, mode),
{
    let outer = match kind {
        FileType::Directory => fuse3::FileType::Directory,
        FileType::RegularFile => fuse3::FileType::RegularFile,
    };
    fuse3::perm_from_mode_and_kind(outer, mode)
}

/// File attributes as handed to the kernel adapter.
#[derive(Debug, Clone, Copy, PartialEq, Eq, Structural)]
pub struct FileAttr {
    pub ino: u64,
    pub size: u64,
    pub blocks: u64,
    pub atime: Timestamp,
    pub mtime: Timestamp,
    pub ctime: Timestamp,
    pub kind: FileType,
    pub perm: u16,
    pub nlink: u32,
    pub uid: u32,
    pub gid: u32,
    pub rdev: u32,
    pub blksize: u32,
}

} // verus!
