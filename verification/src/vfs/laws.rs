//! What holds of a mount across operations.

use crate::vfs::attr::{backing_attr, FileAttr, FileType, Metadata};
use crate::vfs::directory::{
    all_rows_read, backing_has, directory_of, has_row, law_directory_is_union,
    law_directory_reads_the_same_again, law_readdir_keeps_inodes,
    law_readdir_reads_every_row_once, law_rows_are_the_visible_names, lemma_listing_leads,
    next_offset, parent_inode, projection_has, rooms_total, rows_read, shows_backing,
    shows_projected, BackingEntryView, RowView,
};
use crate::vfs::fuse::{
    anchor_advanced, attr_got, attr_set, data_written, deleted_among,
    directory_made, directory_read, entry_removed, entry_renamed, file_created, file_opened, is_deleted, looked_up,
    read_source_of, reconciled, release_report, shown_attr, with_revision_ms, AccessMode, Anchor,
    CreatedFile, DirtyPath, DirtyReportView, Errno, ExplicitDirty, LoreFuse, MountView, ReadSource,
};
use crate::vfs::inodes::{
    inode_for, law_intern_keeps_inodes, lemma_inode_for, path_of, paths_valid, ROOT_INODE,
};
use crate::vfs::paths::joined_path;
use crate::vfs::tree::{DirEntryView, ResolvedNode};
use vstd::prelude::*;

verus! {

/// What the backing directory holds wins over the projection, in attributes and in content, even
/// where the path was deleted before.
pub proof fn law_pass_through_wins(
    v: MountView,
    ino: u64,
    relative: Seq<char>,
    metadata: Metadata,
    resolved: Option<ResolvedNode>,
    timestamp_ms: u64,
)
    requires
        v.has_backing,
    ensures
        shown_attr(v, ino, relative, Some(metadata), resolved, timestamp_ms) == Some(
            backing_attr(ino, metadata),
        ),
        path_of(v.paths, ino) is Some ==> read_source_of(v, ino, true, resolved) == Ok::<
            ReadSource,
            Errno,
        >(ReadSource::Backing),
{
}

/// A removed path is gone: whatever the projection holds there, the mount neither shows nor reads
/// it, unless the backing directory comes to hold it again.
pub proof fn law_delete_hides_projection(
    v: MountView,
    relative: Seq<char>,
    resolved: Option<ResolvedNode>,
    timestamp_ms: u64,
)
    requires
        v.has_backing,
    ensures
        ({
            let (after, reply, reports) = entry_removed(v, Some(relative), true);
            &&& reply == Ok::<(), Errno>(())
            &&& reports == seq![DirtyReportView { relative, action: ExplicitDirty::Delete }]
            &&& looked_up(after, Some(relative), None, resolved, timestamp_ms) == (after, Err::<
                FileAttr,
                Errno,
            >(Errno::ENOENT))
            &&& forall|ino: u64|
                path_of(v.paths, ino) == Some(relative) ==> #[trigger] read_source_of(
                    after,
                    ino,
                    false,
                    resolved,
                ) == Err::<ReadSource, Errno>(Errno::ENOENT)
        }),
{
}

/// A hidden path stays hidden: whatever is looked up, asked, opened, written, resized, removed,
/// reconciled or seeded, and whatever is created, made or renamed elsewhere. Only a file, a
/// directory or the destination of a rename at that very path brings it back.
pub proof fn law_hidden_path_stays_hidden(
    v: MountView,
    path: Seq<char>,
    child: Option<Seq<char>>,
    other: Option<Seq<char>>,
    ino: u64,
    mode: AccessMode,
    fh: u64,
    size: Option<u64>,
    succeeded: bool,
    written: Option<usize>,
    backing: Option<Metadata>,
    resolved: Option<ResolvedNode>,
    timestamp_ms: u64,
    anchor: Option<Anchor>,
    paths: Seq<DirtyPath>,
)
    requires
        v.whiteouts.contains(path),
    ensures
        looked_up(v, child, backing, resolved, timestamp_ms).0.whiteouts.contains(path),
        attr_got(v, ino, backing, resolved, timestamp_ms).0.whiteouts.contains(path),
        file_opened(v, ino, mode, succeeded).0.whiteouts.contains(path),
        data_written(v, fh, written).0.whiteouts.contains(path),
        attr_set(
            v,
            ino,
            size,
            succeeded,
            backing,
            resolved,
            timestamp_ms,
        ).0.whiteouts.contains(path),
        entry_removed(v, child, succeeded).0.whiteouts.contains(path),
        reconciled(v, anchor).whiteouts.contains(path),
        v.whiteouts.union(deleted_among(paths)).contains(path),
        child != Some(path) ==> file_created(
            v,
            child,
            succeeded,
            backing,
            resolved,
            timestamp_ms,
        ).0.whiteouts.contains(path),
        child != Some(path) ==> directory_made(
            v,
            child,
            succeeded,
            backing,
            resolved,
            timestamp_ms,
        ).0.whiteouts.contains(path),
        other != Some(path) ==> entry_renamed(v, child, other, succeeded).0.whiteouts.contains(
            path,
        ),
{
}

/// A deletion that the staged state records is hidden again after a remount or a sync, and seeding
/// never brings a hidden path back.
pub proof fn law_deletes_survive_remount(v: MountView, paths: Seq<DirtyPath>, i: int)
    requires
        0 <= i < paths.len(),
        is_deleted(paths[i]),
    ensures
        v.whiteouts.union(deleted_among(paths)).contains(paths[i].path@),
        v.whiteouts.subset_of(v.whiteouts.union(deleted_among(paths))),
{
    assert(paths[i].path@ == paths[i].path@);
}

/// A created file is shown as the backing directory holds it, though its path was deleted before,
/// and its creation is reported as an add.
pub proof fn law_create_shows_file(
    v: MountView,
    relative: Seq<char>,
    metadata: Metadata,
    resolved: Option<ResolvedNode>,
    timestamp_ms: u64,
)
    requires
        v.has_backing,
        paths_valid(v.paths),
        v.paths.len() < u64::MAX - 1,
    ensures
        ({
            let (after, reply, reports) = file_created(
                v,
                Some(relative),
                true,
                Some(metadata),
                resolved,
                timestamp_ms,
            );
            &&& reply matches Ok(created) && created.attr == backing_attr(
                inode_for(v.paths, relative),
                metadata,
            )
            &&& reports == seq![DirtyReportView { relative, action: ExplicitDirty::Add }]
            &&& !after.whiteouts.contains(relative)
            &&& path_of(after.paths, inode_for(v.paths, relative)) == Some(relative)
        }),
{
    lemma_inode_for(v.paths, relative);
}

/// A rename hides its source and shows its destination, and is reported as a delete of the one and
/// an add of the other.
pub proof fn law_rename_moves(v: MountView, from: Seq<char>, to: Seq<char>)
    requires
        v.has_backing,
        from != to,
    ensures
        ({
            let (after, reply, reports) = entry_renamed(v, Some(from), Some(to), true);
            &&& reply == Ok::<(), Errno>(())
            &&& after.whiteouts.contains(from)
            &&& !after.whiteouts.contains(to)
            &&& reports == seq![
                DirtyReportView { relative: from, action: ExplicitDirty::Delete },
                DirtyReportView { relative: to, action: ExplicitDirty::Add },
            ]
        }),
{
}

/// A mount after a series of writes through one handle, each of which wrote some bytes or failed.
pub open spec fn after_writes(v: MountView, fh: u64, writes: Seq<Option<usize>>) -> MountView
    decreases writes.len(),
{
    if writes.len() == 0 {
        v
    } else {
        after_writes(data_written(v, fh, writes[0]).0, fh, writes.skip(1))
    }
}

/// Writes through a handle change nothing but whether it counts as modified.
proof fn lemma_after_writes(v: MountView, fh: u64, writes: Seq<Option<usize>>)
    requires
        v.has_backing,
        v.handles.open.contains_key(fh),
    ensures
        ({
            let after = after_writes(v, fh, writes);
            let handle = after.handles.open[fh];
            &&& after.handles.open.contains_key(fh)
            &&& handle.relative == v.handles.open[fh].relative
            &&& handle.is_new == v.handles.open[fh].is_new
            &&& handle.modified == (v.handles.open[fh].modified || exists|i: int|
                0 <= i < writes.len() && #[trigger] writes[i] is Some)
        }),
    decreases writes.len(),
{
    if writes.len() > 0 {
        let next = data_written(v, fh, writes[0]).0;
        let rest = writes.skip(1);
        lemma_after_writes(next, fh, rest);
        if exists|i: int| 0 <= i < rest.len() && #[trigger] rest[i] is Some {
            let i = choose|i: int| 0 <= i < rest.len() && #[trigger] rest[i] is Some;
            assert(writes[i + 1] is Some);
        }
        if exists|i: int| 0 <= i < writes.len() && #[trigger] writes[i] is Some {
            let i = choose|i: int| 0 <= i < writes.len() && #[trigger] writes[i] is Some;
            if i > 0 {
                assert(rest[i - 1] is Some);
            }
        }
    }
}

/// A file opened for writing is reported as modified on release exactly when some write through
/// its handle succeeded.
pub proof fn law_release_reports_modified_file(
    v: MountView,
    ino: u64,
    relative: Seq<char>,
    writes: Seq<Option<usize>>,
)
    requires
        v.has_backing,
        path_of(v.paths, ino) == Some(relative),
    ensures
        ({
            let (after, reply) = file_opened(v, ino, AccessMode::ReadWrite, true);
            &&& reply == Ok::<u64, Errno>(v.handles.next)
            &&& release_report(after_writes(after, v.handles.next, writes), v.handles.next) == (
            if exists|i: int| 0 <= i < writes.len() && #[trigger] writes[i] is Some {
                Some(DirtyReportView { relative, action: ExplicitDirty::Modify })
            } else {
                None
            })
        }),
{
    let (after, reply) = file_opened(v, ino, AccessMode::ReadWrite, true);
    lemma_after_writes(after, v.handles.next, writes);
}

/// A created file stays reported as an add: no write to it makes its release report a modify.
pub proof fn law_new_file_stays_added(
    v: MountView,
    relative: Seq<char>,
    backing: Option<Metadata>,
    resolved: Option<ResolvedNode>,
    timestamp_ms: u64,
    writes: Seq<Option<usize>>,
)
    requires
        v.has_backing,
    ensures
        ({
            let after = file_created(
                v,
                Some(relative),
                true,
                backing,
                resolved,
                timestamp_ms,
            ).0;
            release_report(after_writes(after, v.handles.next, writes), v.handles.next) is None
        }),
{
    let after = file_created(v, Some(relative), true, backing, resolved, timestamp_ms).0;
    lemma_after_writes(after, v.handles.next, writes);
}

/// Without a backing directory the mount is read-only: opening for writing, writing, resizing,
/// creating, making a directory, removing and renaming are refused as on a read-only file system,
/// change nothing and report nothing.
pub proof fn law_mount_without_backing_is_read_only(
    v: MountView,
    ino: u64,
    mode: AccessMode,
    fh: u64,
    size: u64,
    child: Seq<char>,
    other: Seq<char>,
    succeeded: bool,
    written: Option<usize>,
    backing: Option<Metadata>,
    resolved: Option<ResolvedNode>,
    timestamp_ms: u64,
)
    requires
        !v.has_backing,
        mode != AccessMode::ReadOnly,
        path_of(v.paths, ino) is Some,
        v.handles.open.contains_key(fh),
    ensures
        file_opened(v, ino, mode, succeeded) == (v, Err::<u64, Errno>(Errno::EROFS)),
        data_written(v, fh, written) == (v, Err::<u32, Errno>(Errno::EROFS)),
        attr_set(v, ino, Some(size), succeeded, backing, resolved, timestamp_ms) == (v, Err::<
            FileAttr,
            Errno,
        >(Errno::EROFS), Seq::<DirtyReportView>::empty()),
        file_created(v, Some(child), succeeded, backing, resolved, timestamp_ms) == (v, Err::<
            CreatedFile,
            Errno,
        >(Errno::EROFS), Seq::<DirtyReportView>::empty()),
        directory_made(v, Some(child), succeeded, backing, resolved, timestamp_ms) == (v, Err::<
            FileAttr,
            Errno,
        >(Errno::EROFS)),
        entry_removed(v, Some(child), succeeded) == (v, Err::<(), Errno>(Errno::EROFS), Seq::<
            DirtyReportView,
        >::empty()),
        entry_renamed(v, Some(child), Some(other), succeeded) == (v, Err::<(), Errno>(
            Errno::EROFS,
        ), Seq::<DirtyReportView>::empty()),
{
}

/// Reconciling moves the base layer to the state of the anchor and keeps its repository, the other
/// layers, the whiteouts, the open handles and the inodes. It never follows an unset anchor, and a
/// second time it does nothing.
pub proof fn law_reconcile_moves_base_layer_only(v: MountView, anchor: Anchor)
    requires
        v.layers.len() > 0,
    ensures
        ({
            let after = reconciled(v, Some(anchor));
            &&& after.whiteouts == v.whiteouts
            &&& after.handles == v.handles
            &&& after.paths == v.paths
            &&& after.layers.len() == v.layers.len()
            &&& after.layers.skip(1) == v.layers.skip(1)
            &&& after.layers[0].repository == v.layers[0].repository
            &&& anchor_advanced(v, Some(anchor)) ==> {
                &&& after.layers[0].state == anchor.state
                &&& after.served_revision == anchor.revision@
            }
            &&& !anchor_advanced(after, Some(anchor))
            &&& reconciled(after, Some(anchor)) == after
        }),
        reconciled(v, None) == v,
        crate::vfs::tree::all_zero(anchor.revision@) ==> reconciled(v, Some(anchor)) == v,
{
    assert(reconciled(v, Some(anchor)).layers.skip(1) =~= v.layers.skip(1));
}

/// What a lookup answered, a request for the attributes of the inode it handed out answers again,
/// as long as the backing directory and the projection hold the same.
pub proof fn law_getattr_agrees_with_lookup(
    v: MountView,
    relative: Seq<char>,
    backing: Option<Metadata>,
    resolved: Option<ResolvedNode>,
    timestamp_ms: u64,
    later_ms: u64,
)
    requires
        paths_valid(v.paths),
        v.paths.len() < u64::MAX - 1,
        relative.len() > 0,
    ensures
        ({
            let (after, reply) = looked_up(v, Some(relative), backing, resolved, timestamp_ms);
            reply matches Ok(attr) ==> attr_got(after, attr.ino, backing, resolved, later_ms) == (
                after,
                reply,
            )
        }),
{
    lemma_inode_for(v.paths, relative);
    let inode = inode_for(v.paths, relative);
    let (after, reply) = looked_up(v, Some(relative), backing, resolved, timestamp_ms);
    assert(inode != ROOT_INODE) by {
        if inode == ROOT_INODE {
            assert(path_of(after.paths, ROOT_INODE) == Some(after.paths[0]));
        }
    }
}

/// Looking up, creating and making a directory keep the inode of every known path.
pub proof fn law_operations_keep_inodes(
    v: MountView,
    child: Option<Seq<char>>,
    made: bool,
    backing: Option<Metadata>,
    resolved: Option<ResolvedNode>,
    timestamp_ms: u64,
    known: u64,
)
    requires
        path_of(v.paths, known) is Some,
    ensures
        path_of(looked_up(v, child, backing, resolved, timestamp_ms).0.paths, known) == path_of(
            v.paths,
            known,
        ),
        path_of(
            file_created(v, child, made, backing, resolved, timestamp_ms).0.paths,
            known,
        ) == path_of(v.paths, known),
        path_of(
            directory_made(v, child, made, backing, resolved, timestamp_ms).0.paths,
            known,
        ) == path_of(v.paths, known),
{
    if let Some(relative) = child {
        law_intern_keeps_inodes(v.paths, relative, known);
    }
}

/// What a series of requests that read a directory is given, from `offset` on: each request reads
/// the directory anew, is given as many rows as its reply has room for, and the next one resumes
/// where it stopped.
pub open spec fn directory_reading(
    v: MountView,
    ino: u64,
    backing: Seq<BackingEntryView>,
    projected: Seq<DirEntryView>,
    offset: u64,
    rooms: Seq<nat>,
) -> Result<Seq<RowView>, Errno>
    decreases rooms.len(),
{
    if rooms.len() == 0 {
        Ok(Seq::empty())
    } else {
        let (paths, reply) = directory_read(v, ino, backing, projected);
        match reply {
            Ok(rows) => match directory_reading(
                MountView { paths, ..v },
                ino,
                backing,
                projected,
                next_offset(rows, offset, rooms[0]),
                rooms.skip(1),
            ) {
                Ok(rest) => Ok(rows_read(rows, offset, rooms[0]) + rest),
                Err(errno) => Err(errno),
            },
            Err(errno) => Err(errno),
        }
    }
}

/// The entries that pass through a mount; none where it has no backing directory.
pub open spec fn passing_through(v: MountView, backing: Seq<BackingEntryView>) -> Seq<
    BackingEntryView,
> {
    if v.has_backing {
        backing
    } else {
        Seq::empty()
    }
}

/// Whether rows are those of the directory `relative` with the inode `ino`: first the directory
/// itself and the one above it, then each name that passes through or is projected and was not
/// deleted, exactly once; a name that passes through has the type of what passes through; and the
/// row `k` carries the cookie `k + 1`.
pub open spec fn is_directory_listing(
    v: MountView,
    ino: u64,
    relative: Seq<char>,
    backing: Seq<BackingEntryView>,
    projected: Seq<DirEntryView>,
    rows: Seq<RowView>,
) -> bool {
    &&& rows.len() >= 2
    &&& rows[0].name == "."@ && rows[0].ino == ino && rows[0].kind == FileType::Directory
    &&& rows[1].name == ".."@ && rows[1].ino == parent_inode(v.paths, relative) && rows[1].kind
        == FileType::Directory
    &&& forall|name: Seq<char>| #[trigger]
        has_row(rows, name) <==> backing_has(backing, name) || (projection_has(projected, name)
            && !v.whiteouts.contains(joined_path(relative, name)))
    &&& forall|i: int, j: int|
        2 <= i < j < rows.len() ==> #[trigger] rows[i].name != #[trigger] rows[j].name
    &&& forall|i: int|
        2 <= i < rows.len() ==> if backing_has(backing, (#[trigger] rows[i]).name) {
            shows_backing(backing, rows[i])
        } else {
            shows_projected(projected, relative, v.whiteouts, rows[i])
        }
    &&& forall|k: int| 0 <= k < rows.len() ==> (#[trigger] rows[k]).cookie == k + 1
}

/// While the tree does not change, a directory is read whole however the replies are sized. An
/// unknown inode is answered with "no entry". Otherwise there is one listing of the directory, the
/// requests from its start on are together given its rows in order, none twice and none skipped,
/// all of them once the replies had room, and a request at offset `k` starts at the row `k`.
pub proof fn law_readdir_lists_union(
    mount: LoreFuse,
    ino: u64,
    backing: Seq<BackingEntryView>,
    projected: Seq<DirEntryView>,
    rooms: Seq<nat>,
)
    requires
        mount.well_formed(),
        backing.len() + projected.len() + 2 < u64::MAX,
        rooms.len() > 0,
    ensures
        match path_of(mount@.paths, ino) {
            None => directory_reading(mount@, ino, backing, projected, 0, rooms) == Err::<
                Seq<RowView>,
                Errno,
            >(Errno::ENOENT),
            Some(relative) => {
                let listing = directory_read(mount@, ino, backing, projected).1;
                &&& listing matches Ok(rows)
                &&& is_directory_listing(
                    mount@,
                    ino,
                    relative,
                    passing_through(mount@, backing),
                    projected,
                    rows,
                )
                &&& directory_reading(mount@, ino, backing, projected, 0, rooms) == Ok::<
                    Seq<RowView>,
                    Errno,
                >(rows_read(rows, 0, rooms_total(rooms)))
                &&& forall|k: u64, room: nat|
                    k < rows.len() && room > 0 ==> (#[trigger] rows_read(rows, k, room)).len() > 0
                        && rows_read(rows, k, room)[0] == rows[k as int]
            },
        },
{
    let v = mount@;
    mount.lemma_paths_valid();
    if let Some(relative) = path_of(v.paths, ino) {
        let passed = passing_through(v, backing);
        let d = directory_of(v.paths, v.whiteouts, ino, relative, passed, projected);
        let rows = d.rows;
        law_directory_is_union(v.paths, v.whiteouts, ino, relative, passed, projected);
        lemma_listing_leads(v.paths, v.whiteouts, ino, relative, passed, projected);
        assert forall|name: Seq<char>| #[trigger]
            has_row(rows, name) <==> backing_has(passed, name) || (projection_has(projected, name)
                && !v.whiteouts.contains(joined_path(relative, name))) by {
            law_rows_are_the_visible_names(
                v.paths,
                v.whiteouts,
                ino,
                relative,
                passed,
                projected,
                name,
            );
        }
        lemma_directory_reading(v, v.paths, ino, relative, backing, projected, 0, rooms);
        law_readdir_reads_every_row_once(rows, rooms);
    }
}

/// Requests that resume over a directory that does not change are given the rows of one listing.
proof fn lemma_directory_reading(
    v: MountView,
    paths: Seq<Seq<char>>,
    ino: u64,
    relative: Seq<char>,
    backing: Seq<BackingEntryView>,
    projected: Seq<DirEntryView>,
    offset: u64,
    rooms: Seq<nat>,
)
    requires
        paths_valid(v.paths),
        path_of(v.paths, ino) == Some(relative),
        ({
            let passed = passing_through(v, backing);
            let d = directory_of(v.paths, v.whiteouts, ino, relative, passed, projected);
            paths == v.paths || paths == d.paths
        }),
    ensures
        ({
            let passed = passing_through(v, backing);
            let d = directory_of(v.paths, v.whiteouts, ino, relative, passed, projected);
            directory_reading(MountView { paths, ..v }, ino, backing, projected, offset, rooms)
                == Ok::<Seq<RowView>, Errno>(all_rows_read(d.rows, offset, rooms))
        }),
    decreases rooms.len(),
{
    if rooms.len() > 0 {
        let passed = passing_through(v, backing);
        let d = directory_of(v.paths, v.whiteouts, ino, relative, passed, projected);
        law_directory_reads_the_same_again(
            v.paths,
            v.whiteouts,
            ino,
            relative,
            passed,
            projected,
        );
        law_readdir_keeps_inodes(v.paths, v.whiteouts, ino, relative, passed, projected, ino);
        let now = MountView { paths, ..v };
        assert(directory_read(now, ino, backing, projected) == (d.paths, Ok::<
            Seq<RowView>,
            Errno,
        >(d.rows)));
        assert(MountView { paths: d.paths, ..now } == MountView { paths: d.paths, ..v });
        lemma_directory_reading(
            v,
            d.paths,
            ino,
            relative,
            backing,
            projected,
            next_offset(d.rows, offset, rooms[0]),
            rooms.skip(1),
        );
    }
}

/// The revision timestamp is settled by its first use: from then on projected entries are shown
/// with it, whatever is given later.
pub proof fn law_revision_timestamp_is_settled_once(v: MountView, first_ms: u64, later_ms: u64)
    ensures
        with_revision_ms(with_revision_ms(v, first_ms), later_ms) == with_revision_ms(v, first_ms),
        v.revision_ms matches Some(ms) ==> with_revision_ms(v, later_ms).revision_ms == Some(ms),
{
}

} // verus!
