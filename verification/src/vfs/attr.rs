//! Attributes of files and directories as the kernel is told them.

use crate::vfs::tree::EntryKind;
use vstd::prelude::*;

verus! {

/// Kind of a file as the kernel distinguishes them.
#[derive(Debug, Clone, Copy, PartialEq, Eq, Structural)]
pub enum FileType {
    NamedPipe,
    CharDevice,
    BlockDevice,
    Directory,
    RegularFile,
    Symlink,
    Socket,
}

/// A point in time as seconds since the Unix epoch and nanoseconds after that second.
#[derive(Debug, Clone, Copy, PartialEq, Eq, Structural)]
pub struct FileTime {
    pub seconds: i64,
    pub nanos: u32,
}

/// Attributes of a file.
#[derive(Debug, Clone, Copy, PartialEq, Eq, Structural)]
pub struct FileAttr {
    pub ino: u64,
    pub size: u64,
    pub blocks: u64,
    pub atime: FileTime,
    pub mtime: FileTime,
    pub ctime: FileTime,
    pub crtime: FileTime,
    pub kind: FileType,
    pub perm: u16,
    pub nlink: u32,
    pub uid: u32,
    pub gid: u32,
    pub rdev: u32,
    pub blksize: u32,
    pub flags: u32,
}

/// The user and group that projected entries belong to.
#[derive(Debug, Clone, Copy, PartialEq, Eq, Structural)]
pub struct Owner {
    pub uid: u32,
    pub gid: u32,
}

/// What the file system says of a file on disk.
#[derive(Debug, Clone, Copy, PartialEq, Eq, Structural)]
pub struct Metadata {
    /// The type of the file, where it is one that the kernel distinguishes.
    pub file_type: Option<FileType>,
    /// When the file was last modified, where that is known.
    pub modified: Option<FileTime>,
    pub len: u64,
    pub blocks: u64,
    pub mode: u32,
    pub nlink: u64,
    pub uid: u32,
    pub gid: u32,
    pub rdev: u64,
}

/// The point in time `ms` milliseconds after the Unix epoch.
pub open spec fn time_at_ms(ms: u64) -> FileTime {
    FileTime { seconds: (ms / 1000) as i64, nanos: ((ms % 1000) * 1_000_000) as u32 }
}

/// Milliseconds since the Unix epoch as a point in time.
pub fn ms_to_system_time(ms: u64) -> (r: FileTime)
    ensures
        r == time_at_ms(ms),
        r.seconds * 1000 + r.nanos as int / 1_000_000 == ms,
        r.nanos < 1_000_000_000,
{
    FileTime { seconds: (ms / 1000) as i64, nanos: ((ms % 1000) * 1_000_000) as u32 }
}

/// The file type of a projected entry.
pub open spec fn projected_type(kind: EntryKind) -> FileType {
    match kind {
        EntryKind::Directory => FileType::Directory,
        EntryKind::File => FileType::RegularFile,
    }
}

/// The file type of a projected entry.
pub fn entry_kind_to_file_type(kind: EntryKind) -> (r: FileType)
    ensures
        r == projected_type(kind),
{
    match kind {
        EntryKind::Directory => FileType::Directory,
        EntryKind::File => FileType::RegularFile,
    }
}

/// The attributes of a projected entry: a directory can be entered, a file read, and only the
/// owner can write; all times are that of the revision.
pub open spec fn projected_attr(
    inode: u64,
    kind: EntryKind,
    size: u64,
    mtime_ms: u64,
    owner: Owner,
) -> FileAttr {
    let time = time_at_ms(mtime_ms);
    let directory = kind == EntryKind::Directory;
    FileAttr {
        ino: inode,
        size,
        blocks: ((size + 511) / 512) as u64,
        atime: time,
        mtime: time,
        ctime: time,
        crtime: time,
        kind: projected_type(kind),
        perm: if directory {
            0o755
        } else {
            0o644
        },
        nlink: if directory {
            2
        } else {
            1
        },
        uid: owner.uid,
        gid: owner.gid,
        rdev: 0,
        blksize: 4096,
        flags: 0,
    }
}

/// Build attributes for a projected entry from its kind, size, and revision timestamp.
pub fn file_attr(inode: u64, kind: EntryKind, size: u64, mtime_ms: u64, owner: Owner) -> (r:
    FileAttr)
    ensures
        r == projected_attr(inode, kind, size, mtime_ms, owner),
{
    let time = ms_to_system_time(mtime_ms);
    let perm: u16 = match kind {
        EntryKind::Directory => 0o755,
        EntryKind::File => 0o644,
    };
    let nlink: u32 = match kind {
        EntryKind::Directory => 2,
        EntryKind::File => 1,
    };
    let part: u64 = if size % 512 == 0 {
        0
    } else {
        1
    };
    FileAttr {
        ino: inode,
        size,
        blocks: size / 512 + part,
        atime: time,
        mtime: time,
        ctime: time,
        crtime: time,
        kind: entry_kind_to_file_type(kind),
        perm,
        nlink,
        uid: owner.uid,
        gid: owner.gid,
        rdev: 0,
        blksize: 4096,
        flags: 0,
    }
}

/// The attributes of a pass-through entry: what the file system says of it, with the permission
/// bits alone of its mode, and its modification time (the Unix epoch where that is not known) for
/// all times.
pub open spec fn backing_attr(inode: u64, metadata: Metadata) -> FileAttr {
    let mtime = match metadata.modified {
        Some(time) => time,
        None => FileTime { seconds: 0, nanos: 0 },
    };
    FileAttr {
        ino: inode,
        size: metadata.len,
        blocks: metadata.blocks,
        atime: mtime,
        mtime,
        ctime: mtime,
        crtime: mtime,
        kind: match metadata.file_type {
            Some(file_type) => file_type,
            None => FileType::RegularFile,
        },
        perm: (metadata.mode % 0o10000) as u16,
        nlink: (metadata.nlink % 0x1_0000_0000) as u32,
        uid: metadata.uid,
        gid: metadata.gid,
        rdev: (metadata.rdev % 0x1_0000_0000) as u32,
        blksize: 4096,
        flags: 0,
    }
}

/// Build attributes for a pass-through entry from its on-disk metadata.
pub fn attr_from_metadata(inode: u64, metadata: &Metadata) -> (r: FileAttr)
    ensures
        r == backing_attr(inode, *metadata),
{
    let mtime = match metadata.modified {
        Some(time) => time,
        None => FileTime { seconds: 0, nanos: 0 },
    };
    let kind = match metadata.file_type {
        Some(file_type) => file_type,
        None => FileType::RegularFile,
    };
    let mode: u32 = metadata.mode;
    let nlink: u64 = metadata.nlink;
    let rdev: u64 = metadata.rdev;
    assert(mode & 0o7777 == mode % 0o10000 && (mode & 0o7777) < 0x10000) by (bit_vector);
    assert(nlink as u32 == nlink % 0x1_0000_0000) by (bit_vector);
    assert(rdev as u32 == rdev % 0x1_0000_0000) by (bit_vector);
    FileAttr {
        ino: inode,
        size: metadata.len,
        blocks: metadata.blocks,
        atime: mtime,
        mtime,
        ctime: mtime,
        crtime: mtime,
        kind,
        perm: (mode & 0o7777) as u16,
        nlink: nlink as u32,
        uid: metadata.uid,
        gid: metadata.gid,
        rdev: rdev as u32,
        blksize: 4096,
        flags: 0,
    }
}

} // verus!
