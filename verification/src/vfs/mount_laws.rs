//! What a mount answers to each request, said of what it knows, of what the backing directory and
//! the projection hold, and of what was deleted.

use crate::text::{last_index, lemma_last_index};
use crate::vfs::attr::{
    backing_attr, projected_attr, projected_type, FileAttr, FileTime, FileType, Metadata, Owner,
};
use crate::vfs::directory::{
    backing_type, resume_index, rows_read, BackingEntryView, RowView,
};
use crate::vfs::fuse::{
    anchor_advanced, attr_got, attr_set, child_path, child_refusal, copy_up_of, data_written, deleted_among, directory_made,
    entry_removed, entry_renamed, file_created, file_opened, looked_up, open_refusal,
    projection_shows, read_source_of, reconciled, release_report, shown_attr, visible_among, with_revision_ms, write_path, AccessMode, Anchor,
    CopyUp, CreatedFile, DirtyPath, DirtyReportView, Errno, ExplicitDirty, MountView, ReadSource,
};
use crate::vfs::handles::{marked_modified, opened, released, HandlesView, WriteHandleView};
use crate::vfs::inodes::{
    inode_for, interned, lemma_inode_for, path_of, paths_valid, ROOT_INODE,
};
use crate::vfs::paths::{joined_path, parent_path};
use crate::vfs::tree::{DirEntryView, EntryKind, ResolvedNode, Source};
use vstd::prelude::*;

verus! {

/// Whether an inode is known, and is that of a path: inodes count the known paths from one.
pub open spec fn knows(v: MountView, ino: u64, relative: Seq<char>) -> bool {
    1 <= ino <= v.paths.len() && v.paths[ino - 1] == relative
}

/// Whether an inode is one that was never handed out.
pub open spec fn is_unknown(v: MountView, ino: u64) -> bool {
    ino == 0 || ino > v.paths.len()
}

/// Whether attributes are those of a projected node on a mount: its size and kind, the mount's owner,
/// and the revision timestamp that the mount settled on, or else the given one.
pub open spec fn is_projection_of(
    v: MountView,
    resolved: ResolvedNode,
    ms: u64,
    attr: FileAttr,
) -> bool {
    attr == projected_attr(
        attr.ino,
        if resolved.node.directory {
            EntryKind::Directory
        } else {
            EntryKind::File
        },
        resolved.node.size,
        if v.revision_ms is Some {
            v.revision_ms->0
        } else {
            ms
        },
        v.owner,
    )
}

/// A read of a known path that nothing passes through and that was not deleted is answered with the
/// very node that the projection resolves it to, when that is a file, whether or not the mount has a
/// backing directory and whatever the size of the file.
pub proof fn law_read_hydrates_what_the_projection_resolves(
    v: MountView,
    ino: u64,
    relative: Seq<char>,
    backing_is_file: bool,
    resolved: ResolvedNode,
)
    requires
        knows(v, ino, relative),
        !v.has_backing || !backing_is_file,
        !v.whiteouts.contains(relative),
        !resolved.node.directory,
    ensures
        read_source_of(v, ino, backing_is_file, Some(resolved)) == Ok::<ReadSource, Errno>(
            ReadSource::Projected { resolved },
        ),
{
}

/// A read is served from the backing directory exactly where a file is there; a deleted path, one
/// that neither source holds and an unknown inode are "no entry", and a projected directory is "is a
/// directory".
pub proof fn law_read_is_answered_from_where_the_content_is(
    v: MountView,
    ino: u64,
    relative: Seq<char>,
    backing_is_file: bool,
    resolved: Option<ResolvedNode>,
)
    ensures
        is_unknown(v, ino) ==> read_source_of(v, ino, backing_is_file, resolved) == Err::<
            ReadSource,
            Errno,
        >(Errno::ENOENT),
        knows(v, ino, relative) && v.has_backing && backing_is_file ==> read_source_of(
            v,
            ino,
            backing_is_file,
            resolved,
        ) == Ok::<ReadSource, Errno>(ReadSource::Backing),
        knows(v, ino, relative) && !(v.has_backing && backing_is_file) ==> {
            let answer = read_source_of(v, ino, backing_is_file, resolved);
            &&& answer != Ok::<ReadSource, Errno>(ReadSource::Backing)
            &&& v.whiteouts.contains(relative) || resolved is None ==> answer == Err::<
                ReadSource,
                Errno,
            >(Errno::ENOENT)
            &&& !v.whiteouts.contains(relative) && resolved is Some && resolved->0.node.directory
                ==> answer == Err::<ReadSource, Errno>(Errno::EISDIR)
        },
{
}

/// Materializing a path that the projection resolves to a file copies the content of that very node,
/// whatever its size; a projected directory is made; an empty file is made only where the projection
/// resolves nothing. What is on the backing directory already is left as it is, and without a
/// backing directory nothing is materialized.
pub proof fn law_copy_up_copies_the_content_of_files(
    v: MountView,
    present: bool,
    resolved: Option<ResolvedNode>,
)
    ensures
        copy_up_of(v, present, resolved) is Refused <==> !v.has_backing,
        copy_up_of(v, present, resolved) is Present <==> v.has_backing && present,
        copy_up_of(v, present, resolved) is StartEmpty <==> v.has_backing && !present
            && resolved is None,
        copy_up_of(v, present, resolved) is MakeDirectory <==> v.has_backing && !present
            && resolved is Some && resolved->0.node.directory,
        v.has_backing && !present && resolved is Some && !resolved->0.node.directory ==> copy_up_of(
            v,
            present,
            resolved,
        ) == (CopyUp::CopyContent { resolved: resolved->0 }),
{
}

/// A projected entry is shown with its own size and kind and as its owner's; a directory can be
/// entered by all and a file read by all, and only the owner writes; every time is the revision's.
pub proof fn law_projected_attributes(
    ino: u64,
    kind: EntryKind,
    size: u64,
    ms: u64,
    owner: Owner,
)
    ensures
        ({
            let attr = projected_attr(ino, kind, size, ms, owner);
            &&& attr.ino == ino
            &&& attr.size == size
            &&& attr.blocks * 512 >= size && (attr.blocks - 1) * 512 < size
            &&& attr.kind == FileType::Directory <==> kind == EntryKind::Directory
            &&& attr.kind == FileType::RegularFile <==> kind == EntryKind::File
            &&& attr.perm == if kind == EntryKind::Directory { 0o755u16 } else { 0o644u16 }
            &&& attr.nlink == if kind == EntryKind::Directory { 2u32 } else { 1u32 }
            &&& attr.uid == owner.uid && attr.gid == owner.gid
            &&& attr.mtime == attr.atime && attr.mtime == attr.ctime && attr.mtime == attr.crtime
            &&& attr.mtime.seconds * 1000 + attr.mtime.nanos as int / 1_000_000 == ms
            &&& attr.mtime.nanos as int % 1_000_000 == 0 && attr.mtime.nanos < 1_000_000_000
            &&& attr.rdev == 0 && attr.blksize == 4096 && attr.flags == 0
        }),
{
}

/// An entry that passes through is shown as the file system describes it: its length, type, owner,
/// links and permission bits, with its modification time for every time.
pub proof fn law_backing_attributes(ino: u64, metadata: Metadata)
    ensures
        ({
            let attr = backing_attr(ino, metadata);
            &&& attr.ino == ino
            &&& attr.size == metadata.len
            &&& attr.blocks == metadata.blocks
            &&& metadata.file_type is Some ==> attr.kind == metadata.file_type->0
            &&& metadata.file_type is None ==> attr.kind == FileType::RegularFile
            &&& metadata.modified is Some ==> attr.mtime == metadata.modified->0
            &&& metadata.modified is None ==> attr.mtime == (FileTime { seconds: 0, nanos: 0 })
            &&& attr.mtime == attr.atime && attr.mtime == attr.ctime && attr.mtime == attr.crtime
            &&& metadata.mode < 0o10000 ==> attr.perm == metadata.mode
            &&& metadata.nlink <= u32::MAX ==> attr.nlink == metadata.nlink
            &&& metadata.rdev <= u32::MAX ==> attr.rdev == metadata.rdev
            &&& attr.uid == metadata.uid && attr.gid == metadata.gid
        }),
{
}

/// The bits of a mode beyond its permissions do not show.
pub proof fn law_only_permission_bits_show(ino: u64, a: Metadata, b: Metadata)
    requires
        a.mode % 0o10000 == b.mode % 0o10000,
        a == (Metadata { mode: a.mode, ..b }),
    ensures
        backing_attr(ino, a) == backing_attr(ino, b),
{
}

/// What a mount shows at a path: what passes through, and else what is projected and was not
/// deleted, as of the revision that the mount settled on.
pub proof fn law_shown_attributes(
    v: MountView,
    ino: u64,
    relative: Seq<char>,
    backing: Option<Metadata>,
    resolved: Option<ResolvedNode>,
    ms: u64,
)
    ensures
        v.has_backing && backing is Some ==> shown_attr(v, ino, relative, backing, resolved, ms)
            == Some(backing_attr(ino, backing->0)),
        (!v.has_backing || backing is None) && (resolved is None || v.whiteouts.contains(relative))
            ==> shown_attr(v, ino, relative, backing, resolved, ms) is None,
        (!v.has_backing || backing is None) && resolved is Some && !v.whiteouts.contains(relative)
            ==> shown_attr(v, ino, relative, backing, resolved, ms) == Some(
            projected_attr(
                ino,
                if resolved->0.node.directory {
                    EntryKind::Directory
                } else {
                    EntryKind::File
                },
                resolved->0.node.size,
                if v.revision_ms is Some {
                    v.revision_ms->0
                } else {
                    ms
                },
                v.owner,
            ),
        ),
{
}

/// A lookup answers what the mount shows at the path, under an inode that the mount then knows for
/// it, and "no entry" where it shows nothing or there is no such path. Besides the inode and the
/// revision timestamp it changes nothing.
pub proof fn law_lookup_answers_what_is_shown(
    v: MountView,
    child: Option<Seq<char>>,
    backing: Option<Metadata>,
    resolved: Option<ResolvedNode>,
    ms: u64,
)
    requires
        paths_valid(v.paths),
        v.paths.len() < u64::MAX - 1,
    ensures
        ({
            let (after, reply) = looked_up(v, child, backing, resolved, ms);
            &&& child is None ==> reply == Err::<FileAttr, Errno>(Errno::ENOENT) && after == v
            &&& child matches Some(relative) ==> {
                &&& reply matches Ok(attr) ==> {
                    &&& knows(after, attr.ino, relative)
                    &&& Some(attr) == shown_attr(v, attr.ino, relative, backing, resolved, ms)
                    &&& after.paths == v.paths || after.paths == v.paths.push(relative)
                }
                &&& reply is Err ==> {
                    &&& reply == Err::<FileAttr, Errno>(Errno::ENOENT)
                    &&& after == v
                    &&& forall|ino: u64| #[trigger]
                        shown_attr(v, ino, relative, backing, resolved, ms) is None
                }
            }
            &&& after == (MountView { paths: after.paths, revision_ms: after.revision_ms, ..v })
            &&& v.revision_ms is Some ==> after.revision_ms == v.revision_ms
        }),
{
    if let Some(relative) = child {
        lemma_inode_for(v.paths, relative);
    }
}

/// The root is always a projected directory; any other known inode answers what the mount shows at
/// its path, and an unknown one "no entry". Besides the revision timestamp nothing changes.
pub proof fn law_getattr_answers_what_is_shown(
    v: MountView,
    ino: u64,
    relative: Seq<char>,
    backing: Option<Metadata>,
    resolved: Option<ResolvedNode>,
    ms: u64,
)
    ensures
        ({
            let (after, reply) = attr_got(v, ino, backing, resolved, ms);
            &&& ino == ROOT_INODE ==> reply == Ok::<FileAttr, Errno>(
                projected_attr(
                    ROOT_INODE,
                    EntryKind::Directory,
                    0,
                    if v.revision_ms is Some {
                        v.revision_ms->0
                    } else {
                        ms
                    },
                    v.owner,
                ),
            )
            &&& is_unknown(v, ino) && ino != ROOT_INODE ==> reply == Err::<FileAttr, Errno>(
                Errno::ENOENT,
            ) && after == v
            &&& knows(v, ino, relative) && ino != ROOT_INODE ==> {
                &&& reply matches Ok(attr) ==> Some(attr) == shown_attr(
                    v,
                    ino,
                    relative,
                    backing,
                    resolved,
                    ms,
                )
                &&& reply is Err ==> reply == Err::<FileAttr, Errno>(Errno::ENOENT) && shown_attr(
                    v,
                    ino,
                    relative,
                    backing,
                    resolved,
                    ms,
                ) is None
            }
            &&& after == (MountView { revision_ms: after.revision_ms, ..v })
            &&& v.revision_ms is Some ==> after.revision_ms == v.revision_ms
        }),
{
}

/// Opening for reading needs nothing and changes nothing. Opening for writing hands out the next
/// handle for the path of the inode, unmodified and not new; it is refused on a read-only mount, for
/// an unknown inode, and where the file could not be materialized.
pub proof fn law_open_hands_out_a_handle_for_the_path(
    v: MountView,
    ino: u64,
    relative: Seq<char>,
    mode: AccessMode,
    copied_up: bool,
)
    ensures
        file_opened(v, ino, AccessMode::ReadOnly, copied_up) == (v, Ok::<u64, Errno>(0)),
        mode != AccessMode::ReadOnly && !v.has_backing ==> file_opened(v, ino, mode, copied_up) == (
            v,
            Err::<u64, Errno>(Errno::EROFS),
        ),
        mode != AccessMode::ReadOnly && v.has_backing && is_unknown(v, ino) ==> file_opened(
            v,
            ino,
            mode,
            copied_up,
        ) == (v, Err::<u64, Errno>(Errno::ENOENT)),
        mode != AccessMode::ReadOnly && v.has_backing && knows(v, ino, relative) && !copied_up
            ==> file_opened(v, ino, mode, copied_up) == (v, Err::<u64, Errno>(Errno::EIO)),
        mode != AccessMode::ReadOnly && v.has_backing && knows(v, ino, relative) && copied_up ==> {
            let (after, reply) = file_opened(v, ino, mode, copied_up);
            &&& reply == Ok::<u64, Errno>(v.handles.next)
            &&& after.handles.open == v.handles.open.insert(
                v.handles.next,
                WriteHandleView { relative, modified: false, is_new: false },
            )
            &&& after == (MountView { handles: after.handles, ..v })
        },
{
}

/// A write through an open handle goes to the path of the handle. When it succeeds its count is
/// answered and the handle, and no other, counts as modified; a failed one changes nothing, and so
/// does one through a handle that is not open or on a read-only mount.
pub proof fn law_write_goes_to_the_path_of_the_handle(
    v: MountView,
    fh: u64,
    written: Option<usize>,
)
    ensures
        !v.handles.open.contains_key(fh) ==> {
            &&& write_path(v, fh) == Err::<Seq<char>, Errno>(Errno::EBADF)
            &&& data_written(v, fh, written) == (v, Err::<u32, Errno>(Errno::EBADF))
        },
        v.handles.open.contains_key(fh) && !v.has_backing ==> {
            &&& write_path(v, fh) == Err::<Seq<char>, Errno>(Errno::EROFS)
            &&& data_written(v, fh, written) == (v, Err::<u32, Errno>(Errno::EROFS))
        },
        v.handles.open.contains_key(fh) && v.has_backing ==> {
            let (after, reply) = data_written(v, fh, written);
            &&& write_path(v, fh) == Ok::<Seq<char>, Errno>(v.handles.open[fh].relative)
            &&& written is None ==> (after, reply) == (v, Err::<u32, Errno>(Errno::EIO))
            &&& written matches Some(count) ==> {
                &&& reply is Ok
                &&& count <= u32::MAX ==> reply->Ok_0 == count
                &&& after.handles.open == v.handles.open.insert(
                    fh,
                    WriteHandleView { modified: true, ..v.handles.open[fh] },
                )
                &&& after.handles.next == v.handles.next
                &&& after == (MountView { handles: after.handles, ..v })
            }
        },
{
}

/// A new size is refused on a read-only mount and where the file could not be resized, and is
/// reported as a modification of the path where it could; other changes of attributes are accepted
/// and not reported. The answer is what the mount shows at the path.
pub proof fn law_setattr_reports_resizing_alone(
    v: MountView,
    ino: u64,
    relative: Seq<char>,
    size: Option<u64>,
    truncated: bool,
    backing: Option<Metadata>,
    resolved: Option<ResolvedNode>,
    ms: u64,
)
    ensures
        ({
            let (after, reply, reports) = attr_set(v, ino, size, truncated, backing, resolved, ms);
            &&& is_unknown(v, ino) ==> reply == Err::<FileAttr, Errno>(Errno::ENOENT)
                && reports.len() == 0
            &&& knows(v, ino, relative) && size is Some && !v.has_backing ==> reply == Err::<
                FileAttr,
                Errno,
            >(Errno::EROFS) && reports.len() == 0
            &&& knows(v, ino, relative) && size is Some && v.has_backing && !truncated ==> reply
                == Err::<FileAttr, Errno>(Errno::EIO) && reports.len() == 0
            &&& knows(v, ino, relative) && (size is None || (v.has_backing && truncated)) ==> {
                &&& reports == if size is Some {
                    seq![DirtyReportView { relative, action: ExplicitDirty::Modify }]
                } else {
                    Seq::empty()
                }
                &&& reply matches Ok(attr) ==> Some(attr) == shown_attr(
                    v,
                    ino,
                    relative,
                    backing,
                    resolved,
                    ms,
                )
                &&& reply is Err ==> reply == Err::<FileAttr, Errno>(Errno::ENOENT) && shown_attr(
                    v,
                    ino,
                    relative,
                    backing,
                    resolved,
                    ms,
                ) is None
            }
            &&& after == (MountView { revision_ms: after.revision_ms, ..v })
            &&& v.revision_ms is Some ==> after.revision_ms == v.revision_ms
        }),
{
}

/// A release reports a modification of the path exactly when the file was written to and was there
/// before; it closes the handle and no other.
pub proof fn law_release_reports_and_closes(v: MountView, fh: u64)
    ensures
        release_report(v, fh) == if v.handles.open.contains_key(fh) && v.handles.open[fh].modified
            && !v.handles.open[fh].is_new {
            Some(
                DirtyReportView {
                    relative: v.handles.open[fh].relative,
                    action: ExplicitDirty::Modify,
                },
            )
        } else {
            None
        },
        released(v.handles, fh).open == v.handles.open.remove(fh),
        released(v.handles, fh).next == v.handles.next,
{
}

/// A created file is known and no longer hidden, is open under the next handle as a new one, is
/// reported as an add, and is answered as the mount then shows it. It is refused for a name that is
/// none, on a read-only mount, and where it could not be made, and then nothing changes.
pub proof fn law_create_makes_a_new_file(
    v: MountView,
    child: Option<Seq<char>>,
    made: bool,
    backing: Option<Metadata>,
    resolved: Option<ResolvedNode>,
    ms: u64,
)
    requires
        paths_valid(v.paths),
        v.paths.len() < u64::MAX - 1,
    ensures
        ({
            let (after, reply, reports) = file_created(v, child, made, backing, resolved, ms);
            let refused = |errno: Errno|
                (after, reply, reports) == (v, Err::<CreatedFile, Errno>(errno), Seq::<
                    DirtyReportView,
                >::empty());
            &&& child is None ==> refused(Errno::ENOENT)
            &&& child is Some && !v.has_backing ==> refused(Errno::EROFS)
            &&& child is Some && v.has_backing && !made ==> refused(Errno::EIO)
            &&& child is Some && v.has_backing && made ==> {
                let relative = child->0;
                &&& reports == seq![DirtyReportView { relative, action: ExplicitDirty::Add }]
                &&& after.whiteouts == v.whiteouts.remove(relative)
                &&& after.handles.open == v.handles.open.insert(
                    v.handles.next,
                    WriteHandleView { relative, modified: false, is_new: true },
                )
                &&& reply matches Ok(created) ==> {
                    &&& created.handle == v.handles.next
                    &&& knows(after, created.attr.ino, relative)
                    &&& backing is Some ==> created.attr == backing_attr(
                        created.attr.ino,
                        backing->0,
                    )
                    &&& backing is None ==> is_projection_of(v, resolved->0, ms, created.attr)
                }
                &&& backing is Some || resolved is Some <==> reply is Ok
                &&& after == (MountView {
                    paths: after.paths,
                    revision_ms: after.revision_ms,
                    whiteouts: after.whiteouts,
                    handles: after.handles,
                    ..v
                })
            }
        }),
{
    if let Some(relative) = child {
        lemma_inode_for(v.paths, relative);
    }
}

/// A made directory is known and no longer hidden, and is answered as the mount then shows it. It is
/// refused for a name that is none, on a read-only mount, and where it could not be made, and then
/// nothing changes.
pub proof fn law_mkdir_makes_a_directory(
    v: MountView,
    child: Option<Seq<char>>,
    made: bool,
    backing: Option<Metadata>,
    resolved: Option<ResolvedNode>,
    ms: u64,
)
    requires
        paths_valid(v.paths),
        v.paths.len() < u64::MAX - 1,
    ensures
        ({
            let (after, reply) = directory_made(v, child, made, backing, resolved, ms);
            let refused = |errno: Errno| (after, reply) == (v, Err::<FileAttr, Errno>(errno));
            &&& child is None ==> refused(Errno::ENOENT)
            &&& child is Some && !v.has_backing ==> refused(Errno::EROFS)
            &&& child is Some && v.has_backing && !made ==> refused(Errno::EIO)
            &&& child is Some && v.has_backing && made ==> {
                let relative = child->0;
                &&& after.whiteouts == v.whiteouts.remove(relative)
                &&& reply matches Ok(attr) ==> {
                    &&& knows(after, attr.ino, relative)
                    &&& backing is Some ==> attr == backing_attr(attr.ino, backing->0)
                    &&& backing is None ==> is_projection_of(v, resolved->0, ms, attr)
                }
                &&& backing is Some || resolved is Some <==> reply is Ok
                &&& after == (MountView {
                    paths: after.paths,
                    revision_ms: after.revision_ms,
                    whiteouts: after.whiteouts,
                    ..v
                })
            }
        }),
{
    if let Some(relative) = child {
        lemma_inode_for(v.paths, relative);
    }
}

/// A removed path is hidden and reported as a delete, and nothing else changes; a removal that is
/// refused or fails changes and reports nothing.
pub proof fn law_removal_hides_the_path_alone(
    v: MountView,
    child: Option<Seq<char>>,
    removed: bool,
)
    ensures
        ({
            let (after, reply, reports) = entry_removed(v, child, removed);
            let refused = |errno: Errno|
                (after, reply, reports) == (v, Err::<(), Errno>(errno), Seq::<
                    DirtyReportView,
                >::empty());
            &&& child is None ==> refused(Errno::ENOENT)
            &&& child is Some && !v.has_backing ==> refused(Errno::EROFS)
            &&& child is Some && v.has_backing && !removed ==> refused(Errno::EIO)
            &&& child is Some && v.has_backing && removed ==> {
                &&& reply == Ok::<(), Errno>(())
                &&& after == (MountView { whiteouts: v.whiteouts.insert(child->0), ..v })
                &&& reports == seq![
                    DirtyReportView { relative: child->0, action: ExplicitDirty::Delete },
                ]
            }
        }),
{
}

/// A rename hides its source, shows its destination again and reports both, and nothing else
/// changes; one that is refused or fails changes and reports nothing.
pub proof fn law_rename_hides_the_source_and_shows_the_destination(
    v: MountView,
    from: Option<Seq<char>>,
    to: Option<Seq<char>>,
    moved: bool,
)
    ensures
        ({
            let (after, reply, reports) = entry_renamed(v, from, to, moved);
            let refused = |errno: Errno|
                (after, reply, reports) == (v, Err::<(), Errno>(errno), Seq::<
                    DirtyReportView,
                >::empty());
            &&& from is None || to is None ==> refused(Errno::ENOENT)
            &&& from is Some && to is Some && !v.has_backing ==> refused(Errno::EROFS)
            &&& from is Some && to is Some && v.has_backing && !moved ==> refused(Errno::EIO)
            &&& from is Some && to is Some && v.has_backing && moved ==> {
                &&& reply == Ok::<(), Errno>(())
                &&& forall|p: Seq<char>| #[trigger]
                    after.whiteouts.contains(p) <==> p != to->0 && (p == from->0
                        || v.whiteouts.contains(p))
                &&& after == (MountView { whiteouts: after.whiteouts, ..v })
                &&& reports == seq![
                    DirtyReportView { relative: from->0, action: ExplicitDirty::Delete },
                    DirtyReportView { relative: to->0, action: ExplicitDirty::Add },
                ]
            }
        }),
{
}

/// A mount moves to an anchor exactly when it could be read, names a revision at all and names
/// another one than is served; it then serves that state and revision in its base layer, and keeps
/// everything else.
pub proof fn law_reconcile_follows_another_revision(v: MountView, anchor: Option<Anchor>)
    requires
        v.layers.len() > 0,
    ensures
        anchor is None ==> reconciled(v, anchor) == v && !anchor_advanced(v, anchor),
        anchor matches Some(anchor) ==> {
            let after = reconciled(v, Some(anchor));
            let named = exists|k: int| 0 <= k < anchor.revision@.len() && anchor.revision@[k] != 0;
            &&& anchor_advanced(v, Some(anchor)) <==> named && anchor.revision@ != v.served_revision
            &&& named && anchor.revision@ != v.served_revision ==> {
                &&& after.served_revision == anchor.revision@
                &&& after.layers[0] == (Source {
                    repository: v.layers[0].repository,
                    state: anchor.state,
                })
                &&& after.layers.len() == v.layers.len()
                &&& forall|i: int|
                    0 < i < v.layers.len() ==> #[trigger] after.layers[i] == v.layers[i]
                &&& after == (MountView {
                    layers: after.layers,
                    served_revision: after.served_revision,
                    ..v
                })
            }
            &&& !(named && anchor.revision@ != v.served_revision) ==> after == v
        },
{
}

/// A path is recorded as deleted exactly when some changed path is that one and leads, by a valid
/// link, to a node that is.
pub proof fn law_deletions_are_those_recorded(paths: Seq<DirtyPath>, path: Seq<char>)
    ensures
        deleted_among(paths).contains(path) <==> exists|i: int|
            {
                &&& 0 <= i < paths.len()
                &&& #[trigger] paths[i].path@ == path
                &&& paths[i].link is Some && paths[i].link->0.valid
                &&& paths[i].node is Some && paths[i].node->0.dirty_delete
            },
{
    if deleted_among(paths).contains(path) {
        let i = choose|i: int|
            0 <= i < paths.len() && #[trigger] paths[i].path@ == path
                && crate::vfs::fuse::is_deleted(paths[i]);
        assert(paths[i].path@ == path);
    }
}

/// An entry of a directory is visible exactly when it is projected there and its path is not hidden.
pub proof fn law_visible_entries_are_those_not_hidden(
    v: MountView,
    directory: Seq<char>,
    entries: Seq<DirEntryView>,
    entry: DirEntryView,
)
    ensures
        visible_among(v, directory, entries).contains(entry) <==> entries.contains(entry)
            && !v.whiteouts.contains(
            if directory.len() == 0 {
                entry.name
            } else {
                directory + seq!['/'] + entry.name
            },
        ),
{
    let shown = |e: DirEntryView|
        !v.whiteouts.contains(crate::vfs::paths::joined_path(directory, e.name));
    assert(directory.push('/') =~= directory + seq!['/']);
    let kept = entries.filter(shown);
    if entries.contains(entry) && shown(entry) {
        let i = choose|i: int| 0 <= i < entries.len() && entries[i] == entry;
        entries.lemma_filter_contains(shown, i);
    }
    if kept.contains(entry) {
        let i = choose|i: int| 0 <= i < kept.len() && kept[i] == entry;
        entries.lemma_filter_pred(shown, i);
        entries.lemma_filter_contains_rev(shown, entry);
    }
}

/// The first use of the revision timestamp settles it, and nothing else changes.
pub proof fn law_first_timestamp_is_kept(v: MountView, ms: u64)
    ensures
        v.revision_ms is None ==> with_revision_ms(v, ms) == (MountView {
            revision_ms: Some(ms),
            ..v
        }),
        v.revision_ms is Some ==> with_revision_ms(v, ms) == v,
{
}

/// A path that is looked up is known afterwards under an inode of its own, which leads to it and to
/// nothing else; a path that was known before keeps its inode, and no other path becomes known.
pub proof fn law_looked_up_path_has_its_inode(paths: Seq<Seq<char>>, path: Seq<char>, ino: u64)
    requires
        paths_valid(paths),
        paths.len() < u64::MAX - 1,
    ensures
        ({
            let after = interned(paths, path);
            let inode = inode_for(paths, path);
            &&& 1 <= inode <= after.len() && after[inode - 1] == path
            &&& path_of(after, inode) == Some(path)
            &&& paths.contains(path) ==> after == paths
            &&& !paths.contains(path) ==> after == paths.push(path) && inode == paths.len() + 1
            &&& 1 <= ino <= paths.len() ==> path_of(after, ino) == Some(paths[ino - 1])
            &&& ino == 0 || ino > after.len() ==> path_of(after, ino) is None
        }),
{
    lemma_inode_for(paths, path);
    let after = interned(paths, path);
    if !paths.contains(path) {
        assert(after[paths.len() as int] == path);
        assert(path_of(after, (paths.len() + 1) as u64) == Some(path));
    }
}

/// Opening a file takes the next handle number for it and leaves the others; a write marks its
/// handle alone; a release closes its handle alone.
pub proof fn law_handles_change_one_by_one(
    v: HandlesView,
    relative: Seq<char>,
    is_new: bool,
    fh: u64,
)
    ensures
        opened(v, relative, is_new).open == v.open.insert(
            v.next,
            WriteHandleView { relative, modified: false, is_new },
        ),
        v.next < u64::MAX ==> opened(v, relative, is_new).next == v.next + 1,
        v.open.contains_key(fh) ==> marked_modified(v, fh).open == v.open.insert(
            fh,
            WriteHandleView { modified: true, ..v.open[fh] },
        ),
        !v.open.contains_key(fh) ==> marked_modified(v, fh) == v,
        marked_modified(v, fh).next == v.next,
        released(v, fh).open == v.open.remove(fh),
{
}

/// Opening is refused outright only for writing: on a read-only mount, and for an unknown inode. A
/// change to a child is refused outright for a name that is none, and on a read-only mount.
pub proof fn law_refusals(
    v: MountView,
    ino: u64,
    mode: AccessMode,
    child: Option<Seq<char>>,
)
    ensures
        open_refusal(v, ino, mode) == if mode != AccessMode::ReadOnly && !v.has_backing {
            Some(Errno::EROFS)
        } else if mode != AccessMode::ReadOnly && is_unknown(v, ino) {
            Some(Errno::ENOENT)
        } else {
            None
        },
        child_refusal(v, child) == if child is None {
            Some(Errno::ENOENT)
        } else if !v.has_backing {
            Some(Errno::EROFS)
        } else {
            None
        },
{
}

/// The projection is asked about a path exactly where nothing passes through and the path was not
/// deleted.
pub proof fn law_projection_is_asked_where_it_shows(
    v: MountView,
    relative: Seq<char>,
    passed_through: bool,
)
    ensures
        projection_shows(v, relative, passed_through) <==> (!v.has_backing || !passed_through)
            && !v.whiteouts.contains(relative),
{
}

/// A child of a known directory has the name behind the directory's path and a slash, and a child of
/// the root its name alone; an unknown directory and a name that is no text have no child.
pub proof fn law_child_lies_in_its_directory(
    v: MountView,
    parent: u64,
    directory: Seq<char>,
    name: Seq<char>,
)
    ensures
        knows(v, parent, directory) && directory.len() > 0 ==> child_path(v, parent, Some(name))
            == Some(directory + seq!['/'] + name),
        knows(v, parent, directory) && directory.len() == 0 ==> child_path(v, parent, Some(name))
            == Some(name),
        is_unknown(v, parent) ==> child_path(v, parent, Some(name)) is None,
        child_path(v, parent, None) is None,
{
    assert(directory.push('/') =~= directory + seq!['/']);
}

/// The parent of a path is what stands before its last slash, and the root where there is none.
pub proof fn law_parent_is_what_stands_before_the_last_slash(
    path: Seq<char>,
    parent: Seq<char>,
    name: Seq<char>,
)
    requires
        !name.contains('/'),
        path == parent + seq!['/'] + name || (path == name && parent.len() == 0),
    ensures
        parent_path(path) == parent,
{
    lemma_last_index(path, '/');
    let slash = last_index(path, '/');
    if path == parent + seq!['/'] + name {
        assert(path[parent.len() as int] == '/');
        if slash > parent.len() {
            assert(name[slash - parent.len() - 1] == '/');
        }
        assert(path.take(slash) =~= parent);
    } else {
        if slash >= 0 {
            assert(name.contains(name[slash]));
        }
        assert(parent =~= Seq::<char>::empty());
    }
}

/// Joining a directory and a name puts a slash between them, but for the root, which has none.
pub proof fn law_joining_puts_a_slash_between(parent: Seq<char>, name: Seq<char>)
    ensures
        parent.len() > 0 ==> joined_path(parent, name) == parent + seq!['/'] + name,
        parent.len() == 0 ==> joined_path(parent, name) == name,
{
    assert(parent.push('/') =~= parent + seq!['/']);
}

/// A row of what passes through has the type that the file system gives, a regular file where it
/// gives none; a row of what is projected is a directory or a regular file.
pub proof fn law_row_types(entry: BackingEntryView, kind: EntryKind)
    ensures
        entry.file_type is Some ==> backing_type(entry) == entry.file_type->0,
        entry.file_type is None ==> backing_type(entry) == FileType::RegularFile,
        projected_type(EntryKind::Directory) == FileType::Directory,
        projected_type(EntryKind::File) == FileType::RegularFile,
{
}

/// A request at an offset is given the rows from that one on, as many as its reply has room for, and
/// none past the last.
pub proof fn law_request_is_given_rows_from_its_offset(
    rows: Seq<RowView>,
    offset: u64,
    room: nat,
    k: int,
)
    ensures
        ({
            let given = rows_read(rows, offset, room);
            &&& offset >= rows.len() ==> given.len() == 0
            &&& offset < rows.len() ==> given.len() == if offset + room <= rows.len() {
                room as int
            } else {
                rows.len() - offset
            }
            &&& 0 <= k < given.len() ==> given[k] == rows[offset + k]
            &&& resume_index(rows.len(), offset) == if offset <= rows.len() {
                offset as nat
            } else {
                rows.len()
            }
        }),
{
}

} // verus!
