//! State of a Lore workspace mounted over FUSE.
//!
//! The mount presents a *union* of two sources, so that externally managed files and
//! Lore-projected files coexist in the same directory tree:
//!
//! - **pass-through**: entries that exist on a real backing directory (a git working tree,
//!   untracked files, materialized files) are served straight from the file system;
//! - **projection**: entries that exist in Lore state but not on the backing directory are
//!   presented as lazily hydrated placeholders.
//!
//! Each operation takes what the backing directory and the projection said of the paths it is
//! about, and settles what the kernel is answered, what becomes of the mount, and what is reported
//! to Lore's dirty tracking.

use crate::vfs::attr::{
    attr_from_metadata, backing_attr, file_attr, projected_attr, FileAttr, Metadata, Owner,
};
use crate::vfs::directory::{
    backing_views, directory_of, list_directory, row_views, BackingEntry, BackingEntryView,
    DirectoryRow, RowView,
};
use crate::vfs::handles::{
    marked_modified, opened, released, HandleTable, HandlesView, READ_HANDLE,
};
use crate::vfs::inodes::{inode_for, interned, path_of, paths_valid, InodeTable, ROOT_INODE};
use crate::vfs::mount::VfsMountOptions;
use crate::vfs::paths::{join_path, joined_path};
use crate::vfs::tree::{
    all_zero, entry_views, layers_of, node_kind, workspace_layers, ContentHash, DirEntry,
    DirEntryView, EntryKind, Node, NodeLink, ResolvedNode, Source, StateId,
};
use vstd::hash_set::StringHashSet;
use vstd::prelude::*;

verus! {

/// How long, in seconds, the kernel may cache attributes and entries. The mount serves a single
/// revision, so the tree is stable and a modest time is safe.
pub const TTL_SECONDS: u64 = 1;

/// Why an operation is refused.
#[derive(Debug, Clone, Copy, PartialEq, Eq, Structural)]
pub enum Errno {
    /// No such path.
    ENOENT,
    /// The path is a directory.
    EISDIR,
    /// Reading or writing failed.
    EIO,
    /// The mount has no backing directory to write to.
    EROFS,
    /// No such file handle.
    EBADF,
}

/// How a file is opened.
#[derive(Debug, Clone, Copy, PartialEq, Eq, Structural)]
pub enum AccessMode {
    ReadOnly,
    WriteOnly,
    ReadWrite,
}

/// A change that is reported to Lore's dirty tracking.
#[derive(Debug, Clone, Copy, PartialEq, Eq, Structural)]
pub enum ExplicitDirty {
    Add,
    Modify,
    Delete,
}

/// A reported change and the path it is about.
#[derive(Debug)]
pub struct DirtyReport {
    pub relative: String,
    pub action: ExplicitDirty,
}

/// What a [`DirtyReport`] says, with its path as text.
pub struct DirtyReportView {
    pub relative: Seq<char>,
    pub action: ExplicitDirty,
}

impl View for DirtyReport {
    type V = DirtyReportView;

    open spec fn view(&self) -> DirtyReportView {
        DirtyReportView { relative: self.relative@, action: self.action }
    }
}

/// The views of a list of reports.
pub open spec fn report_views(reports: Seq<DirtyReport>) -> Seq<DirtyReportView> {
    reports.map_values(|r: DirtyReport| r@)
}

/// A mounted Lore workspace.
pub struct LoreFuse {
    /// The projection layers, the base layer first.
    layers: Vec<Source>,
    /// Whether a real directory backs writes and passes its contents through the mount. Without
    /// one the mount is read-only.
    has_backing: bool,
    owner: Owner,
    /// Revision timestamp reported for projected entries, known from its first use on.
    revision_ms: Option<u64>,
    /// Revision currently being served; compared against the branch anchor to detect syncs.
    served_revision: ContentHash,
    inodes: InodeTable,
    handles: HandleTable,
    /// Paths deleted this session. A projected entry with a whiteout is hidden, so a delete is not
    /// undone by the projection reappearing.
    whiteouts: StringHashSet,
    /// Set on unmount to stop the reconcile poller.
    stopped: bool,
    mount_options: VfsMountOptions,
}

/// What a [`LoreFuse`] holds.
#[verifier::ext_equal]
pub struct MountView {
    pub layers: Seq<Source>,
    pub has_backing: bool,
    pub owner: Owner,
    pub revision_ms: Option<u64>,
    pub served_revision: Seq<u8>,
    /// The known paths in the order of their inodes.
    pub paths: Seq<Seq<char>>,
    pub handles: HandlesView,
    pub whiteouts: Set<Seq<char>>,
    pub stopped: bool,
    pub mount_options: VfsMountOptions,
}

impl View for LoreFuse {
    type V = MountView;

    closed spec fn view(&self) -> MountView {
        MountView {
            layers: self.layers@,
            has_backing: self.has_backing,
            owner: self.owner,
            revision_ms: self.revision_ms,
            served_revision: self.served_revision@,
            paths: self.inodes@,
            handles: self.handles@,
            whiteouts: self.whiteouts@,
            stopped: self.stopped,
            mount_options: self.mount_options,
        }
    }
}

/// Whether a mount can know another `count` paths.
pub open spec fn has_inode_room(v: MountView, count: int) -> bool {
    v.paths.len() + count < u64::MAX
}

/// The path of `name` within the directory of the inode `parent`.
pub open spec fn child_path(v: MountView, parent: u64, name: Option<Seq<char>>) -> Option<
    Seq<char>,
> {
    match (path_of(v.paths, parent), name) {
        (Some(directory), Some(name)) => Some(joined_path(directory, name)),
        _ => None,
    }
}

/// A name as text, where the kernel's name is text.
pub open spec fn name_view(name: Option<&str>) -> Option<Seq<char>> {
    match name {
        Some(name) => Some(name@),
        None => None,
    }
}

/// What the backing directory holds at a path; nothing where the mount has none.
pub open spec fn on_backing(v: MountView, backing: Option<Metadata>) -> Option<Metadata> {
    if v.has_backing {
        backing
    } else {
        None
    }
}

/// Whether what the projection holds at a path is what the mount shows there: nothing passes
/// through, and the path was not deleted.
pub open spec fn projection_shows(v: MountView, relative: Seq<char>, passed_through: bool) -> bool {
    !(v.has_backing && passed_through) && !v.whiteouts.contains(relative)
}

/// The projected entries of a directory that were not deleted, in order.
pub open spec fn visible_among(
    v: MountView,
    directory: Seq<char>,
    entries: Seq<DirEntryView>,
) -> Seq<DirEntryView> {
    entries.filter(|e: DirEntryView| !v.whiteouts.contains(joined_path(directory, e.name)))
}

/// A mount that knows its revision timestamp: the one known before, or else the one given.
pub open spec fn with_revision_ms(v: MountView, timestamp_ms: u64) -> MountView {
    MountView {
        revision_ms: Some(
            match v.revision_ms {
                Some(ms) => ms,
                None => timestamp_ms,
            },
        ),
        ..v
    }
}

/// The attributes that the mount shows for a path: those of the backing file if there is one, else
/// those of the projected node. `None` when the path exists in neither.
pub open spec fn shown_attr(
    v: MountView,
    inode: u64,
    relative: Seq<char>,
    backing: Option<Metadata>,
    resolved: Option<ResolvedNode>,
    timestamp_ms: u64,
) -> Option<FileAttr> {
    match on_backing(v, backing) {
        Some(metadata) => Some(backing_attr(inode, metadata)),
        None => match resolved {
            Some(resolved) if !v.whiteouts.contains(relative) => Some(
                projected_attr(
                    inode,
                    node_kind(resolved.node),
                    resolved.node.size,
                    with_revision_ms(v, timestamp_ms).revision_ms->0,
                    v.owner,
                ),
            ),
            _ => None,
        },
    }
}

/// The mount after the attributes of a path were shown: showing projected ones makes the revision
/// timestamp known.
pub open spec fn after_shown(
    v: MountView,
    relative: Seq<char>,
    backing: Option<Metadata>,
    resolved: Option<ResolvedNode>,
    timestamp_ms: u64,
) -> MountView {
    if on_backing(v, backing) is None && resolved is Some && !v.whiteouts.contains(relative) {
        with_revision_ms(v, timestamp_ms)
    } else {
        v
    }
}

/// A mount that knows a path.
pub open spec fn knowing(v: MountView, path: Seq<char>) -> MountView {
    MountView { paths: interned(v.paths, path), ..v }
}

impl LoreFuse {
    /// Whether the mount has a base layer and its inodes are consistent.
    pub closed spec fn well_formed(&self) -> bool {
        self.inodes.well_formed() && self.layers@.len() > 0
    }

    /// The paths that a well-formed mount knows are ones that an inode table can hold.
    pub proof fn lemma_paths_valid(&self)
        requires
            self.well_formed(),
        ensures
            paths_valid(self@.paths),
            self@.layers.len() > 0,
    {
        self.inodes.lemma_paths_valid();
    }

    /// Build a mount over a base layer and an optional layer on top of it.
    pub fn new(
        base: Source,
        served_revision: ContentHash,
        extra_layer: Option<Source>,
        has_backing: bool,
        owner: Owner,
    ) -> (r: LoreFuse)
        ensures
            r.well_formed(),
            r@.layers == layers_of(base, extra_layer),
            r@.has_backing == has_backing,
            r@.owner == owner,
            r@.revision_ms is None,
            r@.served_revision == served_revision@,
            r@.paths == seq![Seq::<char>::empty()],
            r@.handles == (HandlesView { open: Map::empty(), next: 1 }),
            r@.whiteouts == Set::<Seq<char>>::empty(),
            !r@.stopped,
            r@.mount_options == (VfsMountOptions {
                allow_other: false,
                auto_unmount: false,
                read_only: false,
            }),
    {
        LoreFuse {
            layers: workspace_layers(base, extra_layer),
            has_backing,
            owner,
            revision_ms: None,
            served_revision,
            inodes: InodeTable::new(),
            handles: HandleTable::new(),
            whiteouts: StringHashSet::new(),
            stopped: false,
            mount_options: VfsMountOptions {
                allow_other: false,
                auto_unmount: false,
                read_only: false,
            },
        }
    }

    /// Apply kernel mount options to the mount this backend will establish.
    pub fn with_mount_options(self, options: VfsMountOptions) -> (r: LoreFuse)
        requires
            self.well_formed(),
        ensures
            r.well_formed(),
            r@ == (MountView { mount_options: options, ..self@ }),
    {
        LoreFuse { mount_options: options, ..self }
    }

    /// The kernel mount options of the mount.
    pub fn mount_options(&self) -> (r: VfsMountOptions)
        ensures
            r == self@.mount_options,
    {
        self.mount_options
    }

    /// The current projection layers.
    pub fn current_layers(&self) -> (r: Vec<Source>)
        ensures
            r@ == self@.layers,
    {
        vstd::slice::slice_to_vec(self.layers.as_slice())
    }

    /// The base layer.
    pub fn base_layer(&self) -> (r: Source)
        requires
            self.well_formed(),
        ensures
            self@.layers.len() > 0,
            r == self@.layers[0],
    {
        self.layers[0]
    }

    /// The revision timestamp, where it is known.
    pub fn known_revision_ms(&self) -> (r: Option<u64>)
        ensures
            r == self@.revision_ms,
    {
        self.revision_ms
    }

    /// Revision timestamp reported for projected entries. The first call settles it.
    pub fn revision_ms(&mut self, timestamp_ms: u64) -> (r: u64)
        requires
            old(self).well_formed(),
        ensures
            final(self).well_formed(),
            final(self)@ == with_revision_ms(old(self)@, timestamp_ms),
            final(self)@.revision_ms == Some(r),
    {
        match self.revision_ms {
            Some(ms) => {
                return ms;
            },
            None => {},
        }
        self.revision_ms = Some(timestamp_ms);
        timestamp_ms
    }

    /// How many paths the mount can still come to know.
    pub fn inode_room(&self) -> (r: u64)
        requires
            self.well_formed(),
        ensures
            has_inode_room(self@, r as int),
            !has_inode_room(self@, r + 1),
    {
        self.inodes.room()
    }

    /// The path of an inode.
    pub fn relative(&self, ino: u64) -> (r: Option<String>)
        requires
            self.well_formed(),
        ensures
            match r {
                Some(relative) => path_of(self@.paths, ino) == Some(relative@),
                None => path_of(self@.paths, ino) is None,
            },
    {
        match self.inodes.path(ino) {
            Some(path) => Some(path.to_owned()),
            None => None,
        }
    }

    /// Whether a path was deleted this session and should be hidden from projection.
    pub fn is_whiteout(&self, relative: &str) -> (r: bool)
        ensures
            r == self@.whiteouts.contains(relative@),
    {
        self.whiteouts.contains(relative)
    }

    /// Whether the projection has to be asked about a path.
    pub fn asks_projection(&self, relative: &str, passed_through: bool) -> (r: bool)
        ensures
            r == projection_shows(self@, relative@, passed_through),
    {
        !(self.has_backing && passed_through) && !self.is_whiteout(relative)
    }

    /// The projected entries of a directory that were not deleted, in order.
    pub fn visible_entries(&self, directory: &str, entries: Vec<DirEntry>) -> (r: Vec<DirEntry>)
        ensures
            entry_views(r@) == visible_among(self@, directory@, entry_views(entries@)),
    {
        let ghost all = entry_views(entries@);
        let ghost shown = |e: DirEntryView|
            !self@.whiteouts.contains(joined_path(directory@, e.name));
        let mut r: Vec<DirEntry> = Vec::new();
        let mut i: usize = 0;
        proof {
            reveal(Seq::filter);
            assert(all.take(0) =~= Seq::empty());
            assert(entry_views(r@) =~= all.take(0).filter(shown));
        }
        while i < entries.len()
            invariant
                i <= entries@.len(),
                all == entry_views(entries@),
                shown == (|e: DirEntryView|
                    !self@.whiteouts.contains(joined_path(directory@, e.name))),
                entry_views(r@) == all.take(i as int).filter(shown),
            decreases entries@.len() - i,
        {
            let entry = &entries[i];
            let path = join_path(directory, entry.name.as_str());
            let ghost before = entry_views(r@);
            proof {
                reveal(Seq::filter);
                assert(all[i as int] == entry@);
                assert(all.take(i + 1).drop_last() =~= all.take(i as int));
                assert(all.take(i + 1).last() == entry@);
            }
            if !self.is_whiteout(path.as_str()) {
                r.push(entry.clone());
                assert(entry_views(r@) =~= before.push(entry@));
            }
            i = i + 1;
        }
        assert(all.take(i as int) =~= all);
        r
    }

    /// Repository-relative path of `name` within the directory identified by `parent`. A name that
    /// is not text has none.
    pub fn child_relative(&self, parent: u64, name: Option<&str>) -> (r: Option<String>)
        requires
            self.well_formed(),
        ensures
            match r {
                Some(relative) => child_path(self@, parent, name_view(name)) == Some(relative@),
                None => child_path(self@, parent, name_view(name)) is None,
            },
    {
        match name {
            Some(name) => match self.inodes.path(parent) {
                Some(directory) => Some(join_path(directory, name)),
                None => None,
            },
            None => None,
        }
    }

    /// Current attributes for a path.
    pub fn current_attr(
        &mut self,
        inode: u64,
        relative: &str,
        backing: Option<Metadata>,
        resolved: Option<ResolvedNode>,
        timestamp_ms: u64,
    ) -> (r: Option<FileAttr>)
        requires
            old(self).well_formed(),
        ensures
            final(self).well_formed(),
            r == shown_attr(old(self)@, inode, relative@, backing, resolved, timestamp_ms),
            final(self)@ == after_shown(old(self)@, relative@, backing, resolved, timestamp_ms),
    {
        if self.has_backing {
            if let Some(metadata) = backing {
                return Some(attr_from_metadata(inode, &metadata));
            }
        }
        if self.is_whiteout(relative) {
            return None;
        }
        match resolved {
            Some(resolved) => {
                let owner = self.owner;
                let ms: u64 = self.revision_ms(timestamp_ms);
                Some(file_attr(inode, resolved.kind(), resolved.size(), ms, owner))
            },
            None => None,
        }
    }
}

/// What a lookup answers, and the mount after it: a path that is shown becomes known.
pub open spec fn looked_up(
    v: MountView,
    child: Option<Seq<char>>,
    backing: Option<Metadata>,
    resolved: Option<ResolvedNode>,
    timestamp_ms: u64,
) -> (MountView, Result<FileAttr, Errno>) {
    match child {
        Some(relative) => {
            let inode = inode_for(v.paths, relative);
            match shown_attr(v, inode, relative, backing, resolved, timestamp_ms) {
                Some(attr) => (
                    after_shown(knowing(v, relative), relative, backing, resolved, timestamp_ms),
                    Ok(attr),
                ),
                None => (v, Err(Errno::ENOENT)),
            }
        },
        None => (v, Err(Errno::ENOENT)),
    }
}

/// What a request for the attributes of an inode answers, and the mount after it. The root is
/// always a projected directory.
pub open spec fn attr_got(
    v: MountView,
    ino: u64,
    backing: Option<Metadata>,
    resolved: Option<ResolvedNode>,
    timestamp_ms: u64,
) -> (MountView, Result<FileAttr, Errno>) {
    if ino == ROOT_INODE {
        let known = with_revision_ms(v, timestamp_ms);
        (
            known,
            Ok(
                projected_attr(
                    ROOT_INODE,
                    EntryKind::Directory,
                    0,
                    known.revision_ms->0,
                    v.owner,
                ),
            ),
        )
    } else {
        match path_of(v.paths, ino) {
            Some(relative) => (
                after_shown(v, relative, backing, resolved, timestamp_ms),
                match shown_attr(v, ino, relative, backing, resolved, timestamp_ms) {
                    Some(attr) => Ok(attr),
                    None => Err(Errno::ENOENT),
                },
            ),
            None => (v, Err(Errno::ENOENT)),
        }
    }
}

/// Where the content of a read comes from.
#[derive(Debug, Clone, Copy)]
pub enum ReadSource {
    /// The file on the backing directory.
    Backing,
    /// A projected node, to be hydrated.
    Projected { resolved: ResolvedNode },
}

/// Where the content of a read of an inode comes from.
pub open spec fn read_source_of(
    v: MountView,
    ino: u64,
    backing_is_file: bool,
    resolved: Option<ResolvedNode>,
) -> Result<ReadSource, Errno> {
    match path_of(v.paths, ino) {
        Some(relative) => if v.has_backing && backing_is_file {
            Ok(ReadSource::Backing)
        } else {
            match resolved {
                Some(resolved) if !v.whiteouts.contains(relative) => if node_kind(resolved.node)
                    == EntryKind::Directory {
                    Err(Errno::EISDIR)
                } else {
                    Ok(ReadSource::Projected { resolved })
                },
                _ => Err(Errno::ENOENT),
            }
        },
        None => Err(Errno::ENOENT),
    }
}

/// Why opening an inode is refused before anything is written, if it is.
pub open spec fn open_refusal(v: MountView, ino: u64, mode: AccessMode) -> Option<Errno> {
    if mode == AccessMode::ReadOnly {
        None
    } else if !v.has_backing {
        Some(Errno::EROFS)
    } else if path_of(v.paths, ino) is None {
        Some(Errno::ENOENT)
    } else {
        None
    }
}

/// What opening an inode answers, and the mount after it, when materializing the file succeeded or
/// did not.
pub open spec fn file_opened(v: MountView, ino: u64, mode: AccessMode, copied_up: bool) -> (
    MountView,
    Result<u64, Errno>,
) {
    match open_refusal(v, ino, mode) {
        Some(errno) => (v, Err(errno)),
        None => if mode == AccessMode::ReadOnly {
            (v, Ok(READ_HANDLE))
        } else if !copied_up {
            (v, Err(Errno::EIO))
        } else {
            (
                MountView {
                    handles: opened(v.handles, path_of(v.paths, ino)->0, false),
                    ..v
                },
                Ok(v.handles.next),
            )
        },
    }
}

/// The path that a write through a handle goes to.
pub open spec fn write_path(v: MountView, fh: u64) -> Result<Seq<char>, Errno> {
    if !v.handles.open.contains_key(fh) {
        Err(Errno::EBADF)
    } else if !v.has_backing {
        Err(Errno::EROFS)
    } else {
        Ok(v.handles.open[fh].relative)
    }
}

/// What a write answers, and the mount after it, when `written` bytes were written or the write
/// failed.
pub open spec fn data_written(v: MountView, fh: u64, written: Option<usize>) -> (
    MountView,
    Result<u32, Errno>,
) {
    match write_path(v, fh) {
        Err(errno) => (v, Err(errno)),
        Ok(_) => match written {
            Some(count) => (
                MountView { handles: marked_modified(v.handles, fh), ..v },
                Ok((count as int % 0x1_0000_0000) as u32),
            ),
            None => (v, Err(Errno::EIO)),
        },
    }
}

/// What changing the attributes of an inode answers, the mount after it, and what is reported.
/// Only a new size is materialized; `truncated` says whether that succeeded.
pub open spec fn attr_set(
    v: MountView,
    ino: u64,
    size: Option<u64>,
    truncated: bool,
    backing: Option<Metadata>,
    resolved: Option<ResolvedNode>,
    timestamp_ms: u64,
) -> (MountView, Result<FileAttr, Errno>, Seq<DirtyReportView>) {
    match path_of(v.paths, ino) {
        Some(relative) => if size is Some && !v.has_backing {
            (v, Err(Errno::EROFS), Seq::empty())
        } else if size is Some && !truncated {
            (v, Err(Errno::EIO), Seq::empty())
        } else {
            (
                after_shown(v, relative, backing, resolved, timestamp_ms),
                match shown_attr(v, ino, relative, backing, resolved, timestamp_ms) {
                    Some(attr) => Ok(attr),
                    None => Err(Errno::ENOENT),
                },
                if size is Some {
                    seq![DirtyReportView { relative, action: ExplicitDirty::Modify }]
                } else {
                    Seq::empty()
                },
            )
        },
        None => (v, Err(Errno::ENOENT), Seq::empty()),
    }
}

/// What releasing a handle reports: a modify where the file was written to, unless it is new and
/// was reported as an add.
pub open spec fn release_report(v: MountView, fh: u64) -> Option<DirtyReportView> {
    if v.handles.open.contains_key(fh) && v.handles.open[fh].modified && !v.handles.open[fh].is_new {
        Some(
            DirtyReportView {
                relative: v.handles.open[fh].relative,
                action: ExplicitDirty::Modify,
            },
        )
    } else {
        None
    }
}

/// A created file: its attributes and the handle it was opened under.
#[derive(Debug, Clone, Copy, PartialEq, Eq, Structural)]
pub struct CreatedFile {
    pub attr: FileAttr,
    pub handle: u64,
}

/// A mount in which a path is no longer hidden.
pub open spec fn unhidden(v: MountView, relative: Seq<char>) -> MountView {
    MountView { whiteouts: v.whiteouts.remove(relative), ..v }
}

/// A mount in which a path is hidden from projection.
pub open spec fn hidden(v: MountView, relative: Seq<char>) -> MountView {
    MountView { whiteouts: v.whiteouts.insert(relative), ..v }
}

/// Why a change to a child is refused before anything is written, if it is.
pub open spec fn child_refusal(v: MountView, child: Option<Seq<char>>) -> Option<Errno> {
    if child is None {
        Some(Errno::ENOENT)
    } else if !v.has_backing {
        Some(Errno::EROFS)
    } else {
        None
    }
}

/// What creating a file answers, the mount after it, and what is reported. `made` says whether the
/// file could be made on the backing directory; what it and the projection hold afterwards is
/// given.
pub open spec fn file_created(
    v: MountView,
    child: Option<Seq<char>>,
    made: bool,
    backing: Option<Metadata>,
    resolved: Option<ResolvedNode>,
    timestamp_ms: u64,
) -> (MountView, Result<CreatedFile, Errno>, Seq<DirtyReportView>) {
    match child_refusal(v, child) {
        Some(errno) => (v, Err(errno), Seq::empty()),
        None => if !made {
            (v, Err(Errno::EIO), Seq::empty())
        } else {
            let relative = child->0;
            let inode = inode_for(v.paths, relative);
            let shown = unhidden(v, relative);
            let known = MountView {
                handles: opened(v.handles, relative, true),
                ..knowing(shown, relative)
            };
            (
                after_shown(known, relative, backing, resolved, timestamp_ms),
                match shown_attr(shown, inode, relative, backing, resolved, timestamp_ms) {
                    Some(attr) => Ok(CreatedFile { attr, handle: v.handles.next }),
                    None => Err(Errno::EIO),
                },
                seq![DirtyReportView { relative, action: ExplicitDirty::Add }],
            )
        },
    }
}

/// What making a directory answers, and the mount after it. A directory is not itself tracked;
/// files created under it carry the add.
pub open spec fn directory_made(
    v: MountView,
    child: Option<Seq<char>>,
    made: bool,
    backing: Option<Metadata>,
    resolved: Option<ResolvedNode>,
    timestamp_ms: u64,
) -> (MountView, Result<FileAttr, Errno>) {
    match child_refusal(v, child) {
        Some(errno) => (v, Err(errno)),
        None => if !made {
            (v, Err(Errno::EIO))
        } else {
            let relative = child->0;
            let inode = inode_for(v.paths, relative);
            let shown = unhidden(v, relative);
            (
                after_shown(knowing(shown, relative), relative, backing, resolved, timestamp_ms),
                match shown_attr(shown, inode, relative, backing, resolved, timestamp_ms) {
                    Some(attr) => Ok(attr),
                    None => Err(Errno::EIO),
                },
            )
        },
    }
}

/// What removing a file or directory answers, the mount after it, and what is reported. `removed`
/// says that the backing directory holds it no longer.
pub open spec fn entry_removed(v: MountView, child: Option<Seq<char>>, removed: bool) -> (
    MountView,
    Result<(), Errno>,
    Seq<DirtyReportView>,
) {
    match child_refusal(v, child) {
        Some(errno) => (v, Err(errno), Seq::empty()),
        None => if !removed {
            (v, Err(Errno::EIO), Seq::empty())
        } else {
            (
                hidden(v, child->0),
                Ok(()),
                seq![DirtyReportView { relative: child->0, action: ExplicitDirty::Delete }],
            )
        },
    }
}

/// What a rename answers, the mount after it, and what is reported: a delete of the source and an
/// add of the destination. `moved` says whether the file could be moved on the backing directory.
pub open spec fn entry_renamed(
    v: MountView,
    from: Option<Seq<char>>,
    to: Option<Seq<char>>,
    moved: bool,
) -> (MountView, Result<(), Errno>, Seq<DirtyReportView>) {
    if from is None || to is None {
        (v, Err(Errno::ENOENT), Seq::empty())
    } else if !v.has_backing {
        (v, Err(Errno::EROFS), Seq::empty())
    } else if !moved {
        (v, Err(Errno::EIO), Seq::empty())
    } else {
        (
            unhidden(hidden(v, from->0), to->0),
            Ok(()),
            seq![
                DirtyReportView { relative: from->0, action: ExplicitDirty::Delete },
                DirtyReportView { relative: to->0, action: ExplicitDirty::Add },
            ],
        )
    }
}

/// A single report.
fn report(relative: String, action: ExplicitDirty) -> (r: Vec<DirtyReport>)
    ensures
        report_views(r@) == seq![DirtyReportView { relative: relative@, action }],
{
    let mut reports: Vec<DirtyReport> = Vec::new();
    reports.push(DirtyReport { relative, action });
    assert(report_views(reports@) =~= seq![reports@[0]@]);
    reports
}

/// Nothing to report.
fn no_report() -> (r: Vec<DirtyReport>)
    ensures
        report_views(r@) == Seq::<DirtyReportView>::empty(),
{
    let reports: Vec<DirtyReport> = Vec::new();
    assert(report_views(reports@) =~= Seq::<DirtyReportView>::empty());
    reports
}

impl LoreFuse {
    /// The known inode of a path.
    fn intern(&mut self, relative: &str) -> (r: u64)
        requires
            old(self).well_formed(),
            has_inode_room(old(self)@, 1),
        ensures
            final(self).well_formed(),
            final(self)@ == knowing(old(self)@, relative@),
            r == inode_for(old(self)@.paths, relative@),
    {
        self.inodes.intern(relative)
    }

    /// Look a name up in a directory. Pass-through wins over projection, and a deleted path stays
    /// gone even though the projection still knows it.
    pub fn lookup(
        &mut self,
        parent: u64,
        name: Option<&str>,
        backing: Option<Metadata>,
        resolved: Option<ResolvedNode>,
        timestamp_ms: u64,
    ) -> (r: Result<FileAttr, Errno>)
        requires
            old(self).well_formed(),
            has_inode_room(old(self)@, 1),
        ensures
            final(self).well_formed(),
            (final(self)@, r) == looked_up(
                old(self)@,
                child_path(old(self)@, parent, name_view(name)),
                backing,
                resolved,
                timestamp_ms,
            ),
    {
        let relative = match self.child_relative(parent, name) {
            Some(relative) => relative,
            None => {
                return Err(Errno::ENOENT);
            },
        };
        let passed_through = self.has_backing && backing.is_some();
        let projected = resolved.is_some() && !self.is_whiteout(relative.as_str());
        if !passed_through && !projected {
            return Err(Errno::ENOENT);
        }
        let inode: u64 = self.intern(relative.as_str());
        let attr = self.current_attr(inode, relative.as_str(), backing, resolved, timestamp_ms);
        match attr {
            Some(attr) => {
                return Ok(attr);
            },
            None => {},
        }
        Err(Errno::ENOENT)
    }

    /// The attributes of an inode.
    pub fn getattr(
        &mut self,
        ino: u64,
        backing: Option<Metadata>,
        resolved: Option<ResolvedNode>,
        timestamp_ms: u64,
    ) -> (r: Result<FileAttr, Errno>)
        requires
            old(self).well_formed(),
        ensures
            final(self).well_formed(),
            (final(self)@, r) == attr_got(old(self)@, ino, backing, resolved, timestamp_ms),
    {
        if ino == ROOT_INODE {
            let owner = self.owner;
            let ms: u64 = self.revision_ms(timestamp_ms);
            return Ok(file_attr(ROOT_INODE, EntryKind::Directory, 0, ms, owner));
        }
        let relative = match self.relative(ino) {
            Some(relative) => relative,
            None => {
                return Err(Errno::ENOENT);
            },
        };
        let attr = self.current_attr(ino, relative.as_str(), backing, resolved, timestamp_ms);
        match attr {
            Some(attr) => {
                return Ok(attr);
            },
            None => {},
        }
        Err(Errno::ENOENT)
    }

    /// Where the content of a read of an inode comes from.
    pub fn read(&self, ino: u64, backing_is_file: bool, resolved: Option<ResolvedNode>) -> (r:
        Result<ReadSource, Errno>)
        requires
            self.well_formed(),
        ensures
            r == read_source_of(self@, ino, backing_is_file, resolved),
    {
        let relative = match self.relative(ino) {
            Some(relative) => relative,
            None => {
                return Err(Errno::ENOENT);
            },
        };
        if self.has_backing && backing_is_file {
            return Ok(ReadSource::Backing);
        }
        if self.is_whiteout(relative.as_str()) {
            return Err(Errno::ENOENT);
        }
        match resolved {
            Some(resolved) => if resolved.kind() == EntryKind::Directory {
                Err(Errno::EISDIR)
            } else {
                Ok(ReadSource::Projected { resolved })
            },
            None => Err(Errno::ENOENT),
        }
    }

    /// The path that has to be materialized before an inode is opened. Opening for reading needs
    /// none.
    pub fn open_target(&self, ino: u64, mode: AccessMode) -> (r: Result<Option<String>, Errno>)
        requires
            self.well_formed(),
        ensures
            match r {
                Err(errno) => open_refusal(self@, ino, mode) == Some(errno),
                Ok(None) => mode == AccessMode::ReadOnly,
                Ok(Some(relative)) => {
                    &&& mode != AccessMode::ReadOnly
                    &&& open_refusal(self@, ino, mode) is None
                    &&& path_of(self@.paths, ino) == Some(relative@)
                },
            },
    {
        if mode == AccessMode::ReadOnly {
            return Ok(None);
        }
        if !self.has_backing {
            return Err(Errno::EROFS);
        }
        match self.relative(ino) {
            Some(relative) => Ok(Some(relative)),
            None => Err(Errno::ENOENT),
        }
    }

    /// Open an inode and hand out its handle. `copied_up` says whether the file could be
    /// materialized, so that writes modify it in place.
    pub fn open(&mut self, ino: u64, mode: AccessMode, copied_up: bool) -> (r: Result<u64, Errno>)
        requires
            old(self).well_formed(),
        ensures
            final(self).well_formed(),
            (final(self)@, r) == file_opened(old(self)@, ino, mode, copied_up),
    {
        if mode == AccessMode::ReadOnly {
            return Ok(READ_HANDLE);
        }
        if !self.has_backing {
            return Err(Errno::EROFS);
        }
        let relative = match self.relative(ino) {
            Some(relative) => relative,
            None => {
                return Err(Errno::ENOENT);
            },
        };
        if !copied_up {
            return Err(Errno::EIO);
        }
        let fh: u64 = self.handles.open(relative.as_str(), false);
        Ok(fh)
    }

    /// The path that a write through a handle goes to.
    pub fn write_target(&self, fh: u64) -> (r: Result<String, Errno>)
        ensures
            match r {
                Ok(relative) => write_path(self@, fh) == Ok::<Seq<char>, Errno>(relative@),
                Err(errno) => write_path(self@, fh) == Err::<Seq<char>, Errno>(errno),
            },
    {
        let relative = match self.handles.relative(fh) {
            Some(relative) => relative.to_owned(),
            None => {
                return Err(Errno::EBADF);
            },
        };
        if !self.has_backing {
            return Err(Errno::EROFS);
        }
        Ok(relative)
    }

    /// Settle a write through a handle that wrote `written` bytes, or failed.
    pub fn write(&mut self, fh: u64, written: Option<usize>) -> (r: Result<u32, Errno>)
        requires
            old(self).well_formed(),
        ensures
            final(self).well_formed(),
            (final(self)@, r) == data_written(old(self)@, fh, written),
    {
        let target = self.write_target(fh);
        match target {
            Err(errno) => {
                return Err(errno);
            },
            Ok(_) => {},
        }
        let count: usize = match written {
            Some(count) => count,
            None => {
                return Err(Errno::EIO);
            },
        };
        self.handles.mark_modified(fh);
        let wide: u64 = count as u64;
        assert(wide as u32 == wide % 0x1_0000_0000) by (bit_vector);
        Ok(wide as u32)
    }

    /// Change the attributes of an inode. Only truncation is materialized; other changes are
    /// accepted without persistence. `truncated` says whether the file could be materialized and
    /// resized on the backing directory.
    pub fn setattr(
        &mut self,
        ino: u64,
        size: Option<u64>,
        truncated: bool,
        backing: Option<Metadata>,
        resolved: Option<ResolvedNode>,
        timestamp_ms: u64,
    ) -> (r: (Result<FileAttr, Errno>, Vec<DirtyReport>))
        requires
            old(self).well_formed(),
        ensures
            final(self).well_formed(),
            (final(self)@, r.0, report_views(r.1@)) == attr_set(
                old(self)@,
                ino,
                size,
                truncated,
                backing,
                resolved,
                timestamp_ms,
            ),
    {
        let relative = match self.relative(ino) {
            Some(relative) => relative,
            None => {
                return (Err(Errno::ENOENT), no_report());
            },
        };
        if size.is_some() && !self.has_backing {
            return (Err(Errno::EROFS), no_report());
        }
        if size.is_some() && !truncated {
            return (Err(Errno::EIO), no_report());
        }
        let attr = self.current_attr(ino, relative.as_str(), backing, resolved, timestamp_ms);
        let reply = match attr {
            Some(attr) => Ok(attr),
            None => Err(Errno::ENOENT),
        };
        let reports = if size.is_some() {
            report(relative, ExplicitDirty::Modify)
        } else {
            no_report()
        };
        (reply, reports)
    }

    /// Release a handle.
    pub fn release(&mut self, fh: u64) -> (r: Option<DirtyReport>)
        requires
            old(self).well_formed(),
        ensures
            final(self).well_formed(),
            final(self)@ == (MountView { handles: released(old(self)@.handles, fh), ..old(self)@ }),
            match r {
                Some(report) => release_report(old(self)@, fh) == Some(report@),
                None => release_report(old(self)@, fh) is None,
            },
    {
        let handle = self.handles.release(fh);
        match handle {
            Some(handle) => if handle.modified && !handle.is_new {
                return Some(
                    DirtyReport { relative: handle.relative, action: ExplicitDirty::Modify },
                );
            },
            None => {},
        }
        None
    }

    /// The path that a change to a child is about, when it is not refused outright.
    pub fn change_target(&self, parent: u64, name: Option<&str>) -> (r: Result<String, Errno>)
        requires
            self.well_formed(),
        ensures
            match r {
                Ok(relative) => {
                    &&& child_refusal(self@, child_path(self@, parent, name_view(name))) is None
                    &&& child_path(self@, parent, name_view(name)) == Some(relative@)
                },
                Err(errno) => child_refusal(self@, child_path(self@, parent, name_view(name)))
                    == Some(errno),
            },
    {
        let relative = match self.child_relative(parent, name) {
            Some(relative) => relative,
            None => {
                return Err(Errno::ENOENT);
            },
        };
        if !self.has_backing {
            return Err(Errno::EROFS);
        }
        Ok(relative)
    }

    /// Create a file and open it for writing.
    pub fn create(
        &mut self,
        parent: u64,
        name: Option<&str>,
        made: bool,
        backing: Option<Metadata>,
        resolved: Option<ResolvedNode>,
        timestamp_ms: u64,
    ) -> (r: (Result<CreatedFile, Errno>, Vec<DirtyReport>))
        requires
            old(self).well_formed(),
            has_inode_room(old(self)@, 1),
        ensures
            final(self).well_formed(),
            (final(self)@, r.0, report_views(r.1@)) == file_created(
                old(self)@,
                child_path(old(self)@, parent, name_view(name)),
                made,
                backing,
                resolved,
                timestamp_ms,
            ),
    {
        let target = self.change_target(parent, name);
        let relative = match target {
            Ok(relative) => relative,
            Err(errno) => {
                return (Err(errno), no_report());
            },
        };
        if !made {
            return (Err(Errno::EIO), no_report());
        }
        self.whiteouts.remove(relative.as_str());
        let inode: u64 = self.intern(relative.as_str());
        let handle: u64 = self.handles.open(relative.as_str(), true);
        let attr = self.current_attr(inode, relative.as_str(), backing, resolved, timestamp_ms);
        let reply = match attr {
            Some(attr) => Ok(CreatedFile { attr, handle }),
            None => Err(Errno::EIO),
        };
        (reply, report(relative, ExplicitDirty::Add))
    }

    /// Make a directory.
    pub fn mkdir(
        &mut self,
        parent: u64,
        name: Option<&str>,
        made: bool,
        backing: Option<Metadata>,
        resolved: Option<ResolvedNode>,
        timestamp_ms: u64,
    ) -> (r: Result<FileAttr, Errno>)
        requires
            old(self).well_formed(),
            has_inode_room(old(self)@, 1),
        ensures
            final(self).well_formed(),
            (final(self)@, r) == directory_made(
                old(self)@,
                child_path(old(self)@, parent, name_view(name)),
                made,
                backing,
                resolved,
                timestamp_ms,
            ),
    {
        let target = self.change_target(parent, name);
        let relative = match target {
            Ok(relative) => relative,
            Err(errno) => {
                return Err(errno);
            },
        };
        if !made {
            return Err(Errno::EIO);
        }
        self.whiteouts.remove(relative.as_str());
        let inode: u64 = self.intern(relative.as_str());
        let attr = self.current_attr(inode, relative.as_str(), backing, resolved, timestamp_ms);
        match attr {
            Some(attr) => {
                return Ok(attr);
            },
            None => {},
        }
        Err(Errno::EIO)
    }

    /// Hide a child from the projection and report its removal.
    fn remove_entry(&mut self, parent: u64, name: Option<&str>, removed: bool) -> (r: (
        Result<(), Errno>,
        Vec<DirtyReport>,
    ))
        requires
            old(self).well_formed(),
        ensures
            final(self).well_formed(),
            (final(self)@, r.0, report_views(r.1@)) == entry_removed(
                old(self)@,
                child_path(old(self)@, parent, name_view(name)),
                removed,
            ),
    {
        let target = self.change_target(parent, name);
        let relative = match target {
            Ok(relative) => relative,
            Err(errno) => {
                return (Err(errno), no_report());
            },
        };
        if !removed {
            return (Err(Errno::EIO), no_report());
        }
        self.whiteouts.insert(relative.as_str().to_owned());
        (Ok(()), report(relative, ExplicitDirty::Delete))
    }

    /// Remove a file. `removed` says whether the backing directory no longer holds it.
    pub fn unlink(&mut self, parent: u64, name: Option<&str>, removed: bool) -> (r: (
        Result<(), Errno>,
        Vec<DirtyReport>,
    ))
        requires
            old(self).well_formed(),
        ensures
            final(self).well_formed(),
            (final(self)@, r.0, report_views(r.1@)) == entry_removed(
                old(self)@,
                child_path(old(self)@, parent, name_view(name)),
                removed,
            ),
    {
        self.remove_entry(parent, name, removed)
    }

    /// Remove a directory. `removed` says whether the backing directory no longer holds it.
    pub fn rmdir(&mut self, parent: u64, name: Option<&str>, removed: bool) -> (r: (
        Result<(), Errno>,
        Vec<DirtyReport>,
    ))
        requires
            old(self).well_formed(),
        ensures
            final(self).well_formed(),
            (final(self)@, r.0, report_views(r.1@)) == entry_removed(
                old(self)@,
                child_path(old(self)@, parent, name_view(name)),
                removed,
            ),
    {
        self.remove_entry(parent, name, removed)
    }

    /// Rename an entry.
    pub fn rename(
        &mut self,
        parent: u64,
        name: Option<&str>,
        newparent: u64,
        newname: Option<&str>,
        moved: bool,
    ) -> (r: (Result<(), Errno>, Vec<DirtyReport>))
        requires
            old(self).well_formed(),
        ensures
            final(self).well_formed(),
            (final(self)@, r.0, report_views(r.1@)) == entry_renamed(
                old(self)@,
                child_path(old(self)@, parent, name_view(name)),
                child_path(old(self)@, newparent, name_view(newname)),
                moved,
            ),
    {
        let source = self.child_relative(parent, name);
        let destination = self.child_relative(newparent, newname);
        let (from, to) = match (source, destination) {
            (Some(from), Some(to)) => (from, to),
            _ => {
                return (Err(Errno::ENOENT), no_report());
            },
        };
        if !self.has_backing {
            return (Err(Errno::EROFS), no_report());
        }
        if !moved {
            return (Err(Errno::EIO), no_report());
        }
        self.whiteouts.insert(from.as_str().to_owned());
        self.whiteouts.remove(to.as_str());
        let mut reports: Vec<DirtyReport> = Vec::new();
        reports.push(DirtyReport { relative: from, action: ExplicitDirty::Delete });
        reports.push(DirtyReport { relative: to, action: ExplicitDirty::Add });
        assert(report_views(reports@) =~= seq![reports@[0]@, reports@[1]@]);
        (Ok(()), reports)
    }
}

/// What reading a directory answers, and the known paths after it.
pub open spec fn directory_read(
    v: MountView,
    ino: u64,
    backing: Seq<BackingEntryView>,
    projected: Seq<DirEntryView>,
) -> (Seq<Seq<char>>, Result<Seq<RowView>, Errno>) {
    match path_of(v.paths, ino) {
        Some(relative) => {
            let passed = if v.has_backing {
                backing
            } else {
                Seq::empty()
            };
            let directory = directory_of(v.paths, v.whiteouts, ino, relative, passed, projected);
            (directory.paths, Ok(directory.rows))
        },
        None => (v.paths, Err(Errno::ENOENT)),
    }
}

/// How a projected path is materialized on the backing directory.
#[derive(Debug, Clone, Copy)]
pub enum CopyUp {
    /// There is no backing directory.
    Refused,
    /// The path is on the backing directory already.
    Present,
    /// The path is a directory, which is made.
    MakeDirectory,
    /// The path is a file, whose content is copied.
    CopyContent { resolved: ResolvedNode },
    /// There is no projected source (a fresh file), so an empty file is made.
    StartEmpty,
}

/// How a path is materialized, given whether the backing directory holds it and what the
/// projection holds there.
pub open spec fn copy_up_of(v: MountView, present: bool, resolved: Option<ResolvedNode>) -> CopyUp {
    if !v.has_backing {
        CopyUp::Refused
    } else if present {
        CopyUp::Present
    } else {
        match resolved {
            Some(resolved) => if node_kind(resolved.node) == EntryKind::Directory {
                CopyUp::MakeDirectory
            } else {
                CopyUp::CopyContent { resolved }
            },
            None => CopyUp::StartEmpty,
        }
    }
}

/// A persisted state that a branch anchor names.
#[derive(Debug, Clone, Copy)]
pub struct Anchor {
    pub state: StateId,
    pub revision: ContentHash,
}

/// Whether a mount has to reconcile to an anchor: it could be read, names a persisted revision,
/// and that is not the one served.
pub open spec fn anchor_advanced(v: MountView, anchor: Option<Anchor>) -> bool {
    match anchor {
        Some(anchor) => !all_zero(anchor.revision@) && v.served_revision != anchor.revision@,
        None => false,
    }
}

/// A mount that serves the revision of an anchor: the base layer shows its state, and everything
/// else is kept.
pub open spec fn reconciled(v: MountView, anchor: Option<Anchor>) -> MountView {
    if anchor_advanced(v, anchor) {
        MountView {
            layers: v.layers.update(0, Source { state: anchor->0.state, ..v.layers[0] }),
            served_revision: anchor->0.revision@,
            ..v
        }
    } else {
        v
    }
}

/// A path that is recorded as changed in the working tree, with what the staged state holds there.
#[derive(Debug)]
pub struct DirtyPath {
    pub path: String,
    pub link: Option<NodeLink>,
    pub node: Option<Node>,
}

/// Whether a changed path is recorded as deleted.
pub open spec fn is_deleted(path: DirtyPath) -> bool {
    match (path.link, path.node) {
        (Some(link), Some(node)) => link.valid && node.dirty_delete,
        _ => false,
    }
}

/// The changed paths that are recorded as deleted.
pub open spec fn deleted_among(paths: Seq<DirtyPath>) -> Set<Seq<char>> {
    Set::new(
        |p: Seq<char>|
            exists|i: int|
                0 <= i < paths.len() && #[trigger] paths[i].path@ == p && is_deleted(paths[i]),
    )
}

impl LoreFuse {
    /// Read a directory: itself, the directory above it, the entries that pass through and the
    /// projected ones.
    pub fn readdir(&mut self, ino: u64, backing: Vec<BackingEntry>, projected: Vec<DirEntry>) -> (r:
        Result<Vec<DirectoryRow>, Errno>)
        requires
            old(self).well_formed(),
            has_inode_room(old(self)@, backing@.len() + projected@.len() + 2int),
        ensures
            final(self).well_formed(),
            ({
                let (paths, reply) = directory_read(
                    old(self)@,
                    ino,
                    backing_views(backing@),
                    entry_views(projected@),
                );
                &&& final(self)@ == (MountView { paths, ..old(self)@ })
                &&& match r {
                    Ok(rows) => reply == Ok::<Seq<RowView>, Errno>(row_views(rows@)),
                    Err(errno) => reply == Err::<Seq<RowView>, Errno>(errno),
                }
            }),
    {
        let relative = match self.relative(ino) {
            Some(relative) => relative,
            None => {
                return Err(Errno::ENOENT);
            },
        };
        let passed: Vec<BackingEntry> = if self.has_backing {
            backing
        } else {
            Vec::new()
        };
        assert(!self@.has_backing ==> backing_views(passed@) =~= Seq::empty());
        let rows = list_directory(
            &mut self.inodes,
            &self.whiteouts,
            ino,
            relative.as_str(),
            passed,
            projected,
        );
        Ok(rows)
    }

    /// How a path is materialized on the backing directory so that writes can modify it in place.
    pub fn copy_up(&self, present: bool, resolved: Option<ResolvedNode>) -> (r: CopyUp)
        ensures
            r == copy_up_of(self@, present, resolved),
    {
        if !self.has_backing {
            return CopyUp::Refused;
        }
        if present {
            return CopyUp::Present;
        }
        match resolved {
            Some(resolved) => if resolved.kind() == EntryKind::Directory {
                CopyUp::MakeDirectory
            } else {
                CopyUp::CopyContent { resolved }
            },
            None => CopyUp::StartEmpty,
        }
    }

    /// Serve the revision of the branch anchor if it has advanced. Overlay edits and whiteouts are
    /// kept. The result says whether the mount moved, and whiteouts are to be seeded again. An
    /// unset anchor means "no persisted revision", never "reconcile to empty".
    pub fn reconcile_to_anchor(&mut self, anchor: Option<Anchor>) -> (r: bool)
        requires
            old(self).well_formed(),
        ensures
            final(self).well_formed(),
            r == anchor_advanced(old(self)@, anchor),
            final(self)@ == reconciled(old(self)@, anchor),
    {
        let anchor = match anchor {
            Some(anchor) => anchor,
            None => {
                return false;
            },
        };
        if anchor.revision.is_zero() {
            return false;
        }
        if self.served_revision.is_same(&anchor.revision) {
            return false;
        }
        let base = self.layers[0];
        self.layers.set(0, Source { repository: base.repository, state: anchor.state });
        self.served_revision = anchor.revision;
        true
    }

    /// Hide the paths that the staged state records as deleted, so that deletions survive a
    /// remount and a sync.
    pub fn reseed_whiteouts(&mut self, paths: Vec<DirtyPath>)
        requires
            old(self).well_formed(),
        ensures
            final(self).well_formed(),
            final(self)@ == (MountView {
                whiteouts: old(self)@.whiteouts.union(deleted_among(paths@)),
                ..old(self)@
            }),
    {
        let ghost before = self@;
        let mut i: usize = 0;
        assert(self@.whiteouts =~= before.whiteouts.union(deleted_among(paths@.take(0))));
        while i < paths.len()
            invariant
                i <= paths@.len(),
                self.well_formed(),
                self@ == (MountView {
                    whiteouts: before.whiteouts.union(deleted_among(paths@.take(i as int))),
                    ..before
                }),
            decreases paths@.len() - i,
        {
            let path = &paths[i];
            let deleted = match (path.link, path.node) {
                (Some(link), Some(node)) => link.valid && node.dirty_delete,
                _ => false,
            };
            let ghost known = self@.whiteouts;
            if deleted {
                self.whiteouts.insert(path.path.as_str().to_owned());
            }
            proof {
                let seen = paths@.take(i as int);
                let more = paths@.take(i + 1);
                assert(more[i as int] == path);
                assert forall|p: Seq<char>|
                    deleted_among(more).contains(p) <==> (deleted_among(seen).contains(p) || (deleted
                        && p == path.path@)) by {
                    if deleted_among(seen).contains(p) {
                        let k = choose|k: int|
                            0 <= k < seen.len() && #[trigger] seen[k].path@ == p && is_deleted(
                                seen[k],
                            );
                        assert(more[k].path@ == p && is_deleted(more[k]));
                    }
                    if deleted_among(more).contains(p) {
                        let k = choose|k: int|
                            0 <= k < more.len() && #[trigger] more[k].path@ == p && is_deleted(
                                more[k],
                            );
                        if k < i {
                            assert(seen[k].path@ == p && is_deleted(seen[k]));
                        }
                    }
                }
                assert(self@.whiteouts =~= before.whiteouts.union(deleted_among(more)));
            }
            i = i + 1;
        }
        assert(paths@.take(i as int) =~= paths@);
    }

    /// Stop the reconcile poller.
    pub fn stop(&mut self)
        requires
            old(self).well_formed(),
        ensures
            final(self).well_formed(),
            final(self)@ == (MountView { stopped: true, ..old(self)@ }),
    {
        self.stopped = true;
    }

    /// Whether the reconcile poller is to stop.
    pub fn is_stopped(&self) -> (r: bool)
        ensures
            r == self@.stopped,
    {
        self.stopped
    }
}

} // verus!
