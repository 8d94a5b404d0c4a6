use lore_core::vfs::attr::{
    attr_from_metadata, file_attr, ms_to_system_time, FileTime, FileType, Metadata, Owner,
};
use lore_core::vfs::directory::{resume_row, BackingEntry};
use lore_core::vfs::fuse::{
    AccessMode, Anchor, CopyUp, DirtyPath, DirtyReport, Errno, ExplicitDirty, LoreFuse,
    ReadSource,
};
use lore_core::vfs::inodes::{InodeTable, ROOT_INODE};
use lore_core::vfs::mount::{mount_config, MountFlag, SessionAcl, VfsMountOptions};
use lore_core::vfs::paths::{join_path, parent_of};
use lore_core::vfs::reconcile::{PollStep, ReconcilePoller};
use lore_core::vfs::tree::{
    ContentHash, DirEntry, EntryKind, Node, NodeLink, ResolvedNode, Source,
};
use std::collections::{BTreeMap, BTreeSet};

const BASE: Source = Source {
    repository: 1,
    state: 10,
};
const OWNER: Owner = Owner { uid: 500, gid: 600 };
const REVISION_MS: u64 = 1_234_567;

fn hash(byte: u8) -> ContentHash {
    ContentHash { data: [byte; 32] }
}

fn node(directory: bool, size: u64) -> Node {
    Node {
        directory,
        size,
        staged_delete: false,
        dirty_delete: false,
        hash: hash(1),
    }
}

fn resolved(directory: bool, size: u64) -> ResolvedNode {
    ResolvedNode {
        source: BASE,
        node: node(directory, size),
        node_id: 1,
    }
}

fn metadata(len: u64) -> Metadata {
    Metadata {
        file_type: Some(FileType::RegularFile),
        modified: Some(FileTime {
            seconds: 77,
            nanos: 5,
        }),
        len,
        blocks: 8,
        mode: 0o100644,
        nlink: 1,
        uid: 1,
        gid: 2,
        rdev: 0,
    }
}

fn mounted(has_backing: bool) -> LoreFuse {
    LoreFuse::new(BASE, hash(1), None, has_backing, OWNER)
}

/// A backing directory and a projected tree, both in memory, under one mount.
struct Workspace {
    fuse: LoreFuse,
    backing: BTreeMap<String, Vec<u8>>,
    projected: BTreeMap<String, Vec<u8>>,
    dirty: BTreeMap<String, ExplicitDirty>,
}

impl Workspace {
    fn note(&mut self, reports: Vec<DirtyReport>) {
        for report in reports {
            self.dirty.insert(report.relative, report.action);
        }
    }

    fn resolve(&self, relative: &str) -> Option<ResolvedNode> {
        if let Some(content) = self.projected.get(relative) {
            return Some(resolved(false, content.len() as u64));
        }
        let prefix = format!("{relative}/");
        let inside = self.projected.keys().any(|path| path.starts_with(&prefix));
        (relative.is_empty() || inside).then(|| resolved(true, 0))
    }

    fn stat(&self, relative: &str) -> Option<Metadata> {
        self.backing
            .get(relative)
            .map(|content| metadata(content.len() as u64))
    }

    fn lookup(&mut self, parent: u64, name: &str) -> Result<u64, Errno> {
        let relative = self.fuse.child_relative(parent, Some(name)).unwrap();
        let backing = self.stat(&relative);
        let projected = if self.fuse.asks_projection(&relative, backing.is_some()) {
            self.resolve(&relative)
        } else {
            None
        };
        self.fuse
            .lookup(parent, Some(name), backing, projected, REVISION_MS)
            .map(|attr| attr.ino)
    }

    fn find(&mut self, path: &str) -> Result<u64, Errno> {
        let mut ino = ROOT_INODE;
        for name in path.split('/') {
            ino = self.lookup(ino, name)?;
        }
        Ok(ino)
    }

    fn read(&mut self, path: &str) -> Result<Vec<u8>, Errno> {
        let ino = self.find(path)?;
        let on_backing = self.backing.contains_key(path);
        let projected = self.resolve(path);
        match self.fuse.read(ino, on_backing, projected)? {
            ReadSource::Backing => Ok(self.backing[path].clone()),
            ReadSource::Projected { .. } => Ok(self.projected[path].clone()),
        }
    }

    fn names(&mut self, path: &str) -> BTreeSet<String> {
        let ino = if path.is_empty() {
            ROOT_INODE
        } else {
            self.find(path).unwrap()
        };
        let leaf = |full: &String| -> Option<(String, bool)> {
            let rest = if path.is_empty() {
                full.as_str()
            } else {
                full.strip_prefix(path)?.strip_prefix('/')?
            };
            let mut parts = rest.splitn(2, '/');
            let first = parts.next()?.to_string();
            Some((first, parts.next().is_some()))
        };
        let backing = self
            .backing
            .keys()
            .filter_map(leaf)
            .map(|(name, _)| BackingEntry {
                name,
                file_type: None,
            })
            .collect();
        let projected = self
            .projected
            .keys()
            .filter_map(leaf)
            .map(|(name, directory)| DirEntry {
                name,
                kind: if directory {
                    EntryKind::Directory
                } else {
                    EntryKind::File
                },
                size: 0,
                node: 1,
                timestamp_ms: REVISION_MS,
            })
            .collect();
        let rows = self.fuse.readdir(ino, backing, projected).unwrap();
        assert_eq!(rows[0].name, ".");
        assert_eq!(rows[1].name, "..");
        for (index, row) in rows.iter().enumerate() {
            assert_eq!(row.cookie, index as u64 + 1);
        }
        rows.into_iter().skip(2).map(|row| row.name).collect()
    }

    fn write_new_content(&mut self, path: &str, content: &[u8]) {
        let ino = self.find(path).unwrap();
        let target = self
            .fuse
            .open_target(ino, AccessMode::WriteOnly)
            .unwrap()
            .unwrap();
        let copy = self
            .fuse
            .copy_up(self.backing.contains_key(&target), self.resolve(&target));
        if let CopyUp::CopyContent { .. } = copy {
            let content = self.projected[&target].clone();
            self.backing.insert(target.clone(), content);
        }
        let fh = self.fuse.open(ino, AccessMode::WriteOnly, true).unwrap();
        let relative = self.fuse.write_target(fh).unwrap();
        self.backing.insert(relative, content.to_vec());
        assert_eq!(
            self.fuse.write(fh, Some(content.len())),
            Ok(content.len() as u32)
        );
        let report = self.fuse.release(fh);
        self.note(report.into_iter().collect());
    }
}

#[test]
fn mount_projects_lore_and_passes_through_backing() {
    let mut workspace = Workspace {
        fuse: mounted(true),
        backing: BTreeMap::from([("code.py".to_string(), b"print(1)\n".to_vec())]),
        projected: BTreeMap::from([
            ("readme.md".to_string(), b"hello world".to_vec()),
            ("src/test.txt".to_string(), b"hello".to_vec()),
        ]),
        dirty: BTreeMap::new(),
    };

    let names = workspace.names("");
    assert!(names.contains("readme.md"), "projected file missing: {names:?}");
    assert!(names.contains("src"), "projected dir missing: {names:?}");
    assert!(names.contains("code.py"), "pass-through file missing: {names:?}");

    assert_eq!(workspace.read("readme.md").unwrap(), b"hello world");
    assert_eq!(workspace.read("src/test.txt").unwrap(), b"hello");
    assert_eq!(workspace.read("code.py").unwrap(), b"print(1)\n");

    // Edit a projected file in place.
    workspace.write_new_content("readme.md", b"goodbye");
    assert_eq!(workspace.read("readme.md").unwrap(), b"goodbye");
    assert_eq!(workspace.dirty["readme.md"], ExplicitDirty::Modify);

    // Create a new file.
    workspace.backing.insert("notes.txt".to_string(), Vec::new());
    let (created, reports) = workspace.fuse.create(
        ROOT_INODE,
        Some("notes.txt"),
        true,
        Some(metadata(0)),
        None,
        REVISION_MS,
    );
    workspace.note(reports);
    let created = created.unwrap();
    workspace.backing.insert("notes.txt".to_string(), b"notes".to_vec());
    workspace.fuse.write(created.handle, Some(5)).unwrap();
    let report = workspace.fuse.release(created.handle);
    workspace.note(report.into_iter().collect());
    assert_eq!(workspace.read("notes.txt").unwrap(), b"notes");

    // Delete a projected file; it disappears.
    let src = workspace.find("src").unwrap();
    let (reply, reports) = workspace.fuse.unlink(src, Some("test.txt"), true);
    assert_eq!(reply, Ok(()));
    workspace.note(reports);
    assert_eq!(workspace.find("src/test.txt"), Err(Errno::ENOENT));
    assert!(workspace.names("src").is_empty());

    assert_eq!(workspace.dirty["notes.txt"], ExplicitDirty::Add);
    assert_eq!(workspace.dirty["src/test.txt"], ExplicitDirty::Delete);

    // Mount again over the same backing directory: the delete is seeded from the staged state.
    workspace.fuse = mounted(true);
    workspace.fuse.reseed_whiteouts(vec![
        DirtyPath {
            path: "src/test.txt".to_string(),
            link: Some(NodeLink { valid: true, node: 3 }),
            node: Some(Node {
                dirty_delete: true,
                ..node(false, 5)
            }),
        },
        DirtyPath {
            path: "notes.txt".to_string(),
            link: Some(NodeLink { valid: true, node: 4 }),
            node: Some(node(false, 5)),
        },
    ]);
    assert_eq!(workspace.find("src/test.txt"), Err(Errno::ENOENT));
    assert_eq!(workspace.read("notes.txt").unwrap(), b"notes");
    assert_eq!(workspace.read("readme.md").unwrap(), b"goodbye");
}

#[test]
fn inodes_are_handed_out_once_per_path() {
    let mut table = InodeTable::new();
    assert_eq!(table.path(ROOT_INODE), Some(""));
    assert_eq!(table.path(0), None);
    assert_eq!(table.path(2), None);
    assert_eq!(table.intern(""), 1);
    assert_eq!(table.intern("a"), 2);
    assert_eq!(table.intern("a/b"), 3);
    assert_eq!(table.intern("a"), 2);
    assert_eq!(table.path(3), Some("a/b"));
    assert_eq!(table.room(), u64::MAX - 4);
}

#[test]
fn paths_are_joined_and_parted() {
    assert_eq!(join_path("", "a"), "a");
    assert_eq!(join_path("a/b", "c"), "a/b/c");
    assert_eq!(parent_of("a/b/c"), "a/b");
    assert_eq!(parent_of("a"), "");
    assert_eq!(parent_of(&join_path("x/y", "z")), "x/y");
}

#[test]
fn projected_attributes() {
    let attr = file_attr(9, EntryKind::File, 513, 1_234_567, OWNER);
    assert_eq!(attr.ino, 9);
    assert_eq!(attr.size, 513);
    assert_eq!(attr.blocks, 2);
    assert_eq!(attr.perm, 0o644);
    assert_eq!(attr.nlink, 1);
    assert_eq!(attr.kind, FileType::RegularFile);
    assert_eq!((attr.uid, attr.gid), (500, 600));
    assert_eq!(attr.blksize, 4096);
    assert_eq!(
        attr.mtime,
        FileTime {
            seconds: 1234,
            nanos: 567_000_000
        }
    );
    assert_eq!(attr.atime, attr.mtime);
    let attr = file_attr(1, EntryKind::Directory, 0, 0, OWNER);
    assert_eq!((attr.perm, attr.nlink, attr.blocks), (0o755, 2, 0));
    assert_eq!(attr.kind, FileType::Directory);
    assert_eq!(file_attr(1, EntryKind::File, u64::MAX, 0, OWNER).blocks, 1 << 55);
    assert_eq!(ms_to_system_time(1999).seconds, 1);
}

#[test]
fn backing_attributes() {
    let attr = attr_from_metadata(4, &metadata(99));
    assert_eq!(attr.size, 99);
    assert_eq!(attr.blocks, 8);
    assert_eq!(attr.perm, 0o644);
    assert_eq!(attr.mtime.seconds, 77);
    assert_eq!(attr.crtime, attr.mtime);
    assert_eq!((attr.uid, attr.gid), (1, 2));
    let odd = Metadata {
        file_type: None,
        modified: None,
        mode: 0o107777,
        nlink: (1 << 32) + 3,
        rdev: (1 << 40) + 5,
        ..metadata(0)
    };
    let attr = attr_from_metadata(4, &odd);
    assert_eq!(attr.kind, FileType::RegularFile);
    assert_eq!(attr.mtime, FileTime { seconds: 0, nanos: 0 });
    assert_eq!(attr.perm, 0o7777);
    assert_eq!(attr.nlink, 3);
    assert_eq!(attr.rdev, 5);
}

#[test]
fn mounts_are_configured_by_their_options() {
    let config = mount_config(VfsMountOptions::default(), None);
    assert_eq!(config.acl, SessionAcl::Owner);
    assert_eq!(config.flags, [MountFlag::Name]);
    assert_eq!(config.threads, 4);
    let options = VfsMountOptions {
        allow_other: true,
        auto_unmount: true,
        read_only: true,
    };
    let config = mount_config(options, Some(64));
    assert_eq!(config.acl, SessionAcl::All);
    assert_eq!(
        config.flags,
        [MountFlag::Name, MountFlag::AutoUnmount, MountFlag::ReadOnly]
    );
    assert_eq!(config.threads, 16);
    assert_eq!(mount_config(options, Some(1)).threads, 4);
    assert_eq!(mount_config(options, Some(9)).threads, 9);
    let fuse = mounted(false).with_mount_options(options);
    assert_eq!(fuse.mount_options(), options);
}

#[test]
fn root_is_always_a_projected_directory() {
    let mut fuse = mounted(true);
    let attr = fuse
        .getattr(ROOT_INODE, Some(metadata(5)), None, REVISION_MS)
        .unwrap();
    assert_eq!(attr, file_attr(1, EntryKind::Directory, 0, REVISION_MS, OWNER));
    assert_eq!(fuse.known_revision_ms(), Some(REVISION_MS));
    // The timestamp is settled by its first use.
    assert_eq!(fuse.revision_ms(1), REVISION_MS);
    let attr = fuse.getattr(ROOT_INODE, None, None, 99).unwrap();
    assert_eq!(attr.mtime, ms_to_system_time(REVISION_MS));
}

#[test]
fn lookups_and_attributes_agree() {
    let mut fuse = mounted(true);
    let projected = fuse
        .lookup(ROOT_INODE, Some("a"), None, Some(resolved(false, 7)), REVISION_MS)
        .unwrap();
    assert_eq!(projected.ino, 2);
    assert_eq!(projected, file_attr(2, EntryKind::File, 7, REVISION_MS, OWNER));
    assert_eq!(
        fuse.getattr(2, None, Some(resolved(false, 7)), 5),
        Ok(projected)
    );
    // Pass-through wins.
    let passed = fuse
        .lookup(
            ROOT_INODE,
            Some("a"),
            Some(metadata(3)),
            Some(resolved(false, 7)),
            REVISION_MS,
        )
        .unwrap();
    assert_eq!(passed, attr_from_metadata(2, &metadata(3)));
    assert_eq!(
        fuse.lookup(ROOT_INODE, Some("b"), None, None, REVISION_MS),
        Err(Errno::ENOENT)
    );
    assert_eq!(
        fuse.lookup(77, Some("b"), Some(metadata(1)), None, REVISION_MS),
        Err(Errno::ENOENT)
    );
    assert_eq!(
        fuse.lookup(ROOT_INODE, None, Some(metadata(1)), None, REVISION_MS),
        Err(Errno::ENOENT)
    );
    assert_eq!(fuse.getattr(77, None, None, 0), Err(Errno::ENOENT));
    assert_eq!(fuse.relative(2), Some("a".to_string()));
    assert_eq!(fuse.relative(3), None);
}

#[test]
fn reads_are_routed() {
    let mut fuse = mounted(true);
    fuse.lookup(ROOT_INODE, Some("a"), None, Some(resolved(false, 7)), 0)
        .unwrap();
    assert!(matches!(fuse.read(2, true, None), Ok(ReadSource::Backing)));
    assert!(matches!(
        fuse.read(2, false, Some(resolved(false, 7))),
        Ok(ReadSource::Projected { resolved }) if resolved.size() == 7
    ));
    assert!(matches!(
        fuse.read(2, false, Some(resolved(true, 0))),
        Err(Errno::EISDIR)
    ));
    assert!(matches!(fuse.read(2, false, None), Err(Errno::ENOENT)));
    assert!(matches!(fuse.read(9, true, None), Err(Errno::ENOENT)));
    fuse.unlink(ROOT_INODE, Some("a"), true).0.unwrap();
    assert!(fuse.is_whiteout("a"));
    assert!(!fuse.asks_projection("a", false));
    assert!(matches!(
        fuse.read(2, false, Some(resolved(false, 7))),
        Err(Errno::ENOENT)
    ));
    assert!(matches!(fuse.read(2, true, None), Ok(ReadSource::Backing)));
}

#[test]
fn opens_are_settled() {
    let mut fuse = mounted(true);
    assert_eq!(fuse.open(99, AccessMode::ReadOnly, false), Ok(0));
    assert_eq!(fuse.open_target(99, AccessMode::ReadOnly), Ok(None));
    assert_eq!(fuse.open(99, AccessMode::ReadWrite, true), Err(Errno::ENOENT));
    assert_eq!(
        fuse.open_target(99, AccessMode::ReadWrite),
        Err(Errno::ENOENT)
    );
    assert_eq!(
        fuse.open(ROOT_INODE, AccessMode::WriteOnly, false),
        Err(Errno::EIO)
    );
    assert_eq!(fuse.open(ROOT_INODE, AccessMode::WriteOnly, true), Ok(1));
    assert_eq!(fuse.open(ROOT_INODE, AccessMode::ReadWrite, true), Ok(2));
}

#[test]
fn writes_mark_their_handle() {
    let mut fuse = mounted(true);
    fuse.lookup(ROOT_INODE, Some("a"), Some(metadata(1)), None, 0)
        .unwrap();
    let fh = fuse.open(2, AccessMode::WriteOnly, true).unwrap();
    assert_eq!(fuse.write_target(fh), Ok("a".to_string()));
    assert_eq!(fuse.write(fh, None), Err(Errno::EIO));
    assert_eq!(fuse.write_target(fh + 1), Err(Errno::EBADF));
    assert_eq!(fuse.write(fh + 1, Some(3)), Err(Errno::EBADF));
    // Nothing was written, so nothing is reported.
    assert!(fuse.release(fh).is_none());

    let fh = fuse.open(2, AccessMode::WriteOnly, true).unwrap();
    assert_eq!(fuse.write(fh, Some(3)), Ok(3));
    let report = fuse.release(fh).unwrap();
    assert_eq!(report.relative, "a");
    assert_eq!(report.action, ExplicitDirty::Modify);
    assert!(fuse.release(fh).is_none());
}

#[test]
fn truncation_is_reported() {
    let mut fuse = mounted(true);
    fuse.lookup(ROOT_INODE, Some("a"), Some(metadata(9)), None, 0)
        .unwrap();
    let (reply, reports) = fuse.setattr(2, Some(0), true, Some(metadata(0)), None, 0);
    assert_eq!(reply.unwrap().size, 0);
    assert_eq!(reports.len(), 1);
    assert_eq!(reports[0].relative, "a");
    assert_eq!(reports[0].action, ExplicitDirty::Modify);
    let (reply, reports) = fuse.setattr(2, None, false, Some(metadata(0)), None, 0);
    assert!(reply.is_ok());
    assert!(reports.is_empty());
    let (reply, reports) = fuse.setattr(2, Some(0), false, Some(metadata(0)), None, 0);
    assert_eq!(reply, Err(Errno::EIO));
    assert!(reports.is_empty());
    let (reply, _) = fuse.setattr(9, Some(0), true, None, None, 0);
    assert_eq!(reply, Err(Errno::ENOENT));
    let (reply, _) = fuse.setattr(2, None, true, None, None, 0);
    assert_eq!(reply, Err(Errno::ENOENT));
}

#[test]
fn creation_brings_a_deleted_path_back() {
    let mut fuse = mounted(true);
    fuse.unlink(ROOT_INODE, Some("a"), true).0.unwrap();
    assert_eq!(
        fuse.change_target(ROOT_INODE, Some("a")),
        Ok("a".to_string())
    );
    let (reply, reports) = fuse.create(ROOT_INODE, Some("a"), true, Some(metadata(0)), None, 0);
    let created = reply.unwrap();
    assert_eq!(created.attr, attr_from_metadata(2, &metadata(0)));
    assert_eq!(created.handle, 1);
    assert_eq!(reports[0].action, ExplicitDirty::Add);
    assert!(!fuse.is_whiteout("a"));
    // A new file stays an add, however much is written to it.
    fuse.write(created.handle, Some(4)).unwrap();
    assert!(fuse.release(created.handle).is_none());

    let (reply, reports) = fuse.create(ROOT_INODE, Some("b"), false, None, None, 0);
    assert_eq!(reply, Err(Errno::EIO));
    assert!(reports.is_empty());
    let (reply, reports) = fuse.create(ROOT_INODE, Some("b"), true, None, None, 0);
    assert_eq!(reply, Err(Errno::EIO));
    assert_eq!(reports.len(), 1);
    let (reply, _) = fuse.create(99, Some("b"), true, None, None, 0);
    assert_eq!(reply, Err(Errno::ENOENT));
}

#[test]
fn directories_are_made_without_a_report() {
    let mut fuse = mounted(true);
    fuse.rmdir(ROOT_INODE, Some("d"), true).0.unwrap();
    let directory = Metadata {
        file_type: Some(FileType::Directory),
        ..metadata(0)
    };
    let attr = fuse
        .mkdir(ROOT_INODE, Some("d"), true, Some(directory), None, 0)
        .unwrap();
    assert_eq!(attr.kind, FileType::Directory);
    assert!(!fuse.is_whiteout("d"));
    assert_eq!(
        fuse.mkdir(ROOT_INODE, Some("e"), false, None, None, 0),
        Err(Errno::EIO)
    );
    assert_eq!(
        fuse.mkdir(99, Some("e"), true, None, None, 0),
        Err(Errno::ENOENT)
    );
}

#[test]
fn removal_hides_and_reports() {
    let mut fuse = mounted(true);
    let (reply, reports) = fuse.unlink(ROOT_INODE, Some("a"), false);
    assert_eq!(reply, Err(Errno::EIO));
    assert!(reports.is_empty());
    assert!(!fuse.is_whiteout("a"));
    let (reply, reports) = fuse.rmdir(ROOT_INODE, Some("a"), true);
    assert_eq!(reply, Ok(()));
    assert_eq!(reports[0].relative, "a");
    assert_eq!(reports[0].action, ExplicitDirty::Delete);
    assert_eq!(fuse.unlink(99, Some("a"), true).0, Err(Errno::ENOENT));
    // Without a backing directory the mount is read-only.
    let mut fuse = mounted(false);
    for removed in [false, true] {
        let (reply, reports) = fuse.unlink(ROOT_INODE, Some("a"), removed);
        assert_eq!(reply, Err(Errno::EROFS));
        assert!(reports.is_empty());
        let (reply, reports) = fuse.rmdir(ROOT_INODE, Some("a"), removed);
        assert_eq!(reply, Err(Errno::EROFS));
        assert!(reports.is_empty());
    }
    assert!(!fuse.is_whiteout("a"));
    assert_eq!(fuse.unlink(99, Some("a"), true).0, Err(Errno::ENOENT));
}

#[test]
fn renames_are_a_delete_and_an_add() {
    let mut fuse = mounted(true);
    fuse.unlink(ROOT_INODE, Some("b"), true).0.unwrap();
    let (reply, reports) = fuse.rename(ROOT_INODE, Some("a"), ROOT_INODE, Some("b"), true);
    assert_eq!(reply, Ok(()));
    let told: Vec<(&str, ExplicitDirty)> = reports
        .iter()
        .map(|r| (r.relative.as_str(), r.action))
        .collect();
    assert_eq!(told, [("a", ExplicitDirty::Delete), ("b", ExplicitDirty::Add)]);
    assert!(fuse.is_whiteout("a"));
    assert!(!fuse.is_whiteout("b"));
    // Onto itself, the path stays shown.
    fuse.rename(ROOT_INODE, Some("c"), ROOT_INODE, Some("c"), true)
        .0
        .unwrap();
    assert!(!fuse.is_whiteout("c"));
    let (reply, reports) = fuse.rename(ROOT_INODE, Some("x"), ROOT_INODE, Some("y"), false);
    assert_eq!(reply, Err(Errno::EIO));
    assert!(reports.is_empty());
    assert_eq!(
        fuse.rename(ROOT_INODE, Some("x"), 99, Some("y"), true).0,
        Err(Errno::ENOENT)
    );
}

#[test]
fn mount_without_backing_refuses_writes() {
    let mut fuse = mounted(false);
    assert_eq!(
        fuse.open(ROOT_INODE, AccessMode::WriteOnly, true),
        Err(Errno::EROFS)
    );
    assert_eq!(
        fuse.setattr(ROOT_INODE, Some(1), true, None, None, 0).0,
        Err(Errno::EROFS)
    );
    assert_eq!(
        fuse.create(ROOT_INODE, Some("a"), true, None, None, 0).0,
        Err(Errno::EROFS)
    );
    assert_eq!(
        fuse.mkdir(ROOT_INODE, Some("a"), true, None, None, 0),
        Err(Errno::EROFS)
    );
    assert_eq!(
        fuse.rename(ROOT_INODE, Some("a"), ROOT_INODE, Some("b"), true).0,
        Err(Errno::EROFS)
    );
    assert_eq!(
        fuse.change_target(ROOT_INODE, Some("a")),
        Err(Errno::EROFS)
    );
    assert!(matches!(fuse.copy_up(false, None), CopyUp::Refused));
    // What is said of a backing directory that the mount does not have is passed over.
    assert_eq!(
        fuse.lookup(ROOT_INODE, Some("a"), Some(metadata(1)), None, 0),
        Err(Errno::ENOENT)
    );
}

#[test]
fn copy_up_materializes_what_is_projected() {
    let fuse = mounted(true);
    assert!(matches!(fuse.copy_up(true, None), CopyUp::Present));
    assert!(matches!(fuse.copy_up(false, None), CopyUp::StartEmpty));
    assert!(matches!(
        fuse.copy_up(false, Some(resolved(true, 0))),
        CopyUp::MakeDirectory
    ));
    assert!(matches!(
        fuse.copy_up(false, Some(resolved(false, 3))),
        CopyUp::CopyContent { resolved } if resolved.size() == 3
    ));
}

fn projected_entry(name: &str, kind: EntryKind) -> DirEntry {
    DirEntry {
        name: name.to_string(),
        kind,
        size: 1,
        node: 1,
        timestamp_ms: 0,
    }
}

fn backing_entry(name: &str, file_type: Option<FileType>) -> BackingEntry {
    BackingEntry {
        name: name.to_string(),
        file_type,
    }
}

#[test]
fn directories_are_a_union_in_which_pass_through_wins() {
    let mut fuse = mounted(true);
    fuse.unlink(ROOT_INODE, Some("gone"), true).0.unwrap();
    let rows = fuse
        .readdir(
            ROOT_INODE,
            vec![
                backing_entry("both", Some(FileType::Symlink)),
                backing_entry("plain", None),
                backing_entry("both", Some(FileType::Directory)),
            ],
            vec![
                projected_entry("both", EntryKind::Directory),
                projected_entry("gone", EntryKind::File),
                projected_entry("shown", EntryKind::Directory),
            ],
        )
        .unwrap();
    let listed: Vec<(u64, u64, FileType, &str)> = rows
        .iter()
        .map(|row| (row.ino, row.cookie, row.kind, row.name.as_str()))
        .collect();
    assert_eq!(
        listed,
        [
            (1, 1, FileType::Directory, "."),
            (1, 2, FileType::Directory, ".."),
            (2, 3, FileType::Symlink, "both"),
            (3, 4, FileType::RegularFile, "plain"),
            (4, 5, FileType::Directory, "shown"),
        ]
    );
    assert_eq!(resume_row(&rows, 0), 0);
    assert_eq!(resume_row(&rows, 3), 3);
    assert_eq!(resume_row(&rows, 99), 5);

    // A directory further down lies in its parent.
    let rows = fuse
        .readdir(4, Vec::new(), vec![projected_entry("x", EntryKind::File)])
        .unwrap();
    assert_eq!(rows[1].ino, 1);
    assert_eq!(rows[2].ino, 5);
    assert_eq!(fuse.relative(5), Some("shown/x".to_string()));
    assert!(matches!(
        fuse.readdir(99, Vec::new(), Vec::new()),
        Err(Errno::ENOENT)
    ));
}

#[test]
fn directory_can_be_read_in_pieces() {
    let mut fuse = mounted(false);
    let rows = fuse
        .readdir(
            ROOT_INODE,
            vec![backing_entry("ignored", None)],
            vec![
                projected_entry("a", EntryKind::File),
                projected_entry("b", EntryKind::File),
                projected_entry("c", EntryKind::File),
            ],
        )
        .unwrap();
    let mut seen = Vec::new();
    let mut offset = 0;
    for room in [2usize, 1, 5] {
        let from = resume_row(&rows, offset);
        for row in rows.iter().skip(from).take(room) {
            seen.push(row.name.clone());
            offset = row.cookie;
        }
    }
    assert_eq!(seen, [".", "..", "a", "b", "c"]);
}

#[test]
fn reconciling_moves_the_base_layer_alone() {
    let extra = Source {
        repository: 2,
        state: 20,
    };
    let mut fuse = LoreFuse::new(BASE, hash(1), Some(extra), true, OWNER);
    fuse.unlink(ROOT_INODE, Some("a"), true).0.unwrap();
    assert!(!fuse.reconcile_to_anchor(None));
    let unset = Anchor {
        state: 30,
        revision: hash(0),
    };
    assert!(!fuse.reconcile_to_anchor(Some(unset)));
    let same = Anchor {
        state: 30,
        revision: hash(1),
    };
    assert!(!fuse.reconcile_to_anchor(Some(same)));
    assert_eq!(fuse.current_layers(), [BASE, extra]);
    let advanced = Anchor {
        state: 30,
        revision: hash(2),
    };
    assert!(fuse.reconcile_to_anchor(Some(advanced)));
    assert_eq!(
        fuse.base_layer(),
        Source {
            repository: 1,
            state: 30
        }
    );
    assert_eq!(fuse.current_layers()[1], extra);
    assert!(fuse.is_whiteout("a"));
    assert!(!fuse.reconcile_to_anchor(Some(advanced)));
}

#[test]
fn seeding_needs_a_recorded_delete() {
    let mut fuse = mounted(true);
    let deleted = Node {
        dirty_delete: true,
        ..node(false, 1)
    };
    let valid = Some(NodeLink { valid: true, node: 1 });
    let invalid = Some(NodeLink { valid: false, node: 1 });
    let path = |path: &str, link, node| DirtyPath {
        path: path.to_string(),
        link,
        node,
    };
    fuse.reseed_whiteouts(vec![
        path("a", valid, Some(deleted)),
        path("b", invalid, Some(deleted)),
        path("c", None, Some(deleted)),
        path("d", valid, None),
        path("e", valid, Some(node(false, 1))),
    ]);
    let hidden: Vec<&str> = ["a", "b", "c", "d", "e"]
        .into_iter()
        .filter(|path| fuse.is_whiteout(path))
        .collect();
    assert_eq!(hidden, ["a"]);
}

#[test]
fn poller_checks_every_three_seconds_until_stopped() {
    let mut poller = ReconcilePoller::new();
    for _ in 0..2 {
        for _ in 0..12 {
            assert_eq!(poller.step(false), PollStep::Sleep);
        }
        assert_eq!(poller.step(false), PollStep::Reconcile);
    }
    assert_eq!(poller.step(false), PollStep::Sleep);
    assert_eq!(poller.step(true), PollStep::Stop);
    let mut fuse = mounted(true);
    assert!(!fuse.is_stopped());
    fuse.stop();
    assert!(fuse.is_stopped());
}

#[test]
fn inode_room_shrinks_as_paths_become_known() {
    let mut fuse = mounted(true);
    let before = fuse.inode_room();
    fuse.lookup(ROOT_INODE, Some("a"), Some(metadata(1)), None, 0)
        .unwrap();
    assert_eq!(fuse.inode_room(), before - 1);
}

#[test]
fn handles_are_independent_of_each_other() {
    let mut fuse = mounted(true);
    fuse.lookup(ROOT_INODE, Some("a"), Some(metadata(1)), None, 0)
        .unwrap();
    fuse.lookup(ROOT_INODE, Some("b"), Some(metadata(1)), None, 0)
        .unwrap();
    let a = fuse.open(2, AccessMode::WriteOnly, true).unwrap();
    let b = fuse.open(3, AccessMode::WriteOnly, true).unwrap();
    assert_ne!(a, b);
    fuse.write(b, Some(1)).unwrap();
    assert!(fuse.release(a).is_none());
    assert_eq!(fuse.write_target(b), Ok("b".to_string()));
    assert_eq!(fuse.release(b).unwrap().relative, "b");
}

#[test]
fn rows_bear_the_inodes_of_lookups() {
    let mut fuse = mounted(true);
    let rows = fuse
        .readdir(
            ROOT_INODE,
            Vec::new(),
            vec![
                projected_entry("x", EntryKind::File),
                projected_entry("y", EntryKind::File),
            ],
        )
        .unwrap();
    for row in rows.iter().skip(2) {
        let attr = fuse
            .lookup(ROOT_INODE, Some(&row.name), None, Some(resolved(false, 1)), 0)
            .unwrap();
        assert_eq!(attr.ino, row.ino);
    }
    assert_ne!(join_path("d", "x"), join_path("d", "y"));
}

#[test]
fn directory_read_again_shows_the_same_rows() {
    let mut fuse = mounted(true);
    let mut read = || {
        fuse.readdir(
            ROOT_INODE,
            vec![backing_entry("a", None)],
            vec![
                projected_entry("b", EntryKind::Directory),
                projected_entry("a", EntryKind::File),
            ],
        )
        .unwrap()
        .into_iter()
        .map(|row| (row.ino, row.cookie, row.kind, row.name))
        .collect::<Vec<_>>()
    };
    let first = read();
    assert_eq!(first.len(), 4);
    assert_eq!(read(), first);
}

#[test]
fn deleted_entries_are_not_visible() {
    let mut fuse = mounted(true);
    fuse.rmdir(ROOT_INODE, Some("gone"), true).0.unwrap();
    let entries = || {
        vec![
            projected_entry("kept", EntryKind::File),
            projected_entry("gone", EntryKind::Directory),
            projected_entry("last", EntryKind::File),
        ]
    };
    let names = |directory: &str| -> Vec<String> {
        fuse.visible_entries(directory, entries())
            .into_iter()
            .map(|entry| entry.name)
            .collect()
    };
    assert_eq!(names(""), ["kept", "last"]);
    assert_eq!(names("src"), ["kept", "gone", "last"]);
}

#[test]
fn hidden_paths_stay_hidden_until_they_are_put_back() {
    let mut fuse = mounted(true);
    fuse.unlink(ROOT_INODE, Some("a"), true).0.unwrap();
    assert_eq!(
        fuse.lookup(ROOT_INODE, Some("a"), None, Some(resolved(false, 3)), 0),
        Err(Errno::ENOENT)
    );
    fuse.mkdir(ROOT_INODE, Some("b"), true, Some(metadata(0)), None, 0)
        .unwrap();
    fuse.rename(ROOT_INODE, Some("b"), ROOT_INODE, Some("c"), true)
        .0
        .unwrap();
    fuse.rmdir(ROOT_INODE, Some("c"), true).0.unwrap();
    fuse.reconcile_to_anchor(Some(Anchor {
        state: 30,
        revision: hash(9),
    }));
    fuse.reseed_whiteouts(Vec::new());
    assert!(fuse.is_whiteout("a"));
    fuse.create(ROOT_INODE, Some("a"), true, Some(metadata(0)), None, 0)
        .0
        .unwrap();
    assert!(!fuse.is_whiteout("a"));
}
