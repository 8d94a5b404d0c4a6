//! The rows of a directory as the kernel reads them: entries that pass through from the backing
//! directory, then projected entries.

use crate::vfs::attr::{entry_kind_to_file_type, projected_type, FileType};
use crate::vfs::inodes::{
    inode_for, interned, is_inode_of, law_intern_keeps_inodes, lemma_inode_for, path_of,
    paths_valid, InodeTable, ROOT_INODE,
};
use crate::vfs::paths::{join_path, joined_path, parent_of, parent_path};
use crate::vfs::tree::{entry_views, DirEntry, DirEntryView};
use vstd::hash_set::StringHashSet;
use vstd::prelude::*;

verus! {

/// An entry of the backing directory.
#[derive(Debug)]
pub struct BackingEntry {
    pub name: String,
    /// The type of the entry, where it is known and one that the kernel distinguishes.
    pub file_type: Option<FileType>,
}

/// What a [`BackingEntry`] says, with its name as text.
pub struct BackingEntryView {
    pub name: Seq<char>,
    pub file_type: Option<FileType>,
}

impl View for BackingEntry {
    type V = BackingEntryView;

    open spec fn view(&self) -> BackingEntryView {
        BackingEntryView { name: self.name@, file_type: self.file_type }
    }
}

/// The views of a list of entries of the backing directory.
pub open spec fn backing_views(entries: Seq<BackingEntry>) -> Seq<BackingEntryView> {
    entries.map_values(|e: BackingEntry| e@)
}

/// A row of a directory. The cookie is the index of the *next* row.
#[derive(Debug)]
pub struct DirectoryRow {
    pub ino: u64,
    pub cookie: u64,
    pub kind: FileType,
    pub name: String,
}

/// What a [`DirectoryRow`] says, with its name as text.
pub struct RowView {
    pub ino: u64,
    pub cookie: u64,
    pub kind: FileType,
    pub name: Seq<char>,
}

impl View for DirectoryRow {
    type V = RowView;

    open spec fn view(&self) -> RowView {
        RowView { ino: self.ino, cookie: self.cookie, kind: self.kind, name: self.name@ }
    }
}

/// The views of a list of rows.
pub open spec fn row_views(rows: Seq<DirectoryRow>) -> Seq<RowView> {
    rows.map_values(|r: DirectoryRow| r@)
}

/// A directory whose rows are being put together.
#[verifier::ext_equal]
pub struct DirectoryView {
    /// The known paths in the order of their inodes.
    pub paths: Seq<Seq<char>>,
    /// The names that have a row.
    pub seen: Set<Seq<char>>,
    pub rows: Seq<RowView>,
}

/// A row that follows the given rows.
pub open spec fn row_after(rows: Seq<RowView>, ino: u64, kind: FileType, name: Seq<char>) -> RowView {
    RowView { ino, cookie: (rows.len() + 1) as u64, kind, name }
}

/// The known paths once the directory above a path was looked up.
pub open spec fn paths_with_parent(paths: Seq<Seq<char>>, relative: Seq<char>) -> Seq<Seq<char>> {
    if relative.len() == 0 {
        paths
    } else {
        interned(paths, parent_path(relative))
    }
}

/// The inode of the directory above a path; the root lies in itself.
pub open spec fn parent_inode(paths: Seq<Seq<char>>, relative: Seq<char>) -> u64 {
    if relative.len() == 0 {
        ROOT_INODE
    } else {
        inode_for(paths, parent_path(relative))
    }
}

/// A directory with the two rows that lead: itself and the directory above it.
pub open spec fn directory_begun(
    paths: Seq<Seq<char>>,
    ino: u64,
    relative: Seq<char>,
) -> DirectoryView {
    let own = RowView { ino, cookie: 1, kind: FileType::Directory, name: "."@ };
    let above = RowView {
        ino: parent_inode(paths, relative),
        cookie: 2,
        kind: FileType::Directory,
        name: ".."@,
    };
    DirectoryView {
        paths: paths_with_parent(paths, relative),
        seen: Set::empty(),
        rows: seq![own, above],
    }
}

/// A directory with a row for an entry, unless its name has one already.
pub open spec fn with_row(
    d: DirectoryView,
    relative: Seq<char>,
    name: Seq<char>,
    kind: FileType,
) -> DirectoryView {
    if d.seen.contains(name) {
        d
    } else {
        let child = joined_path(relative, name);
        DirectoryView {
            paths: interned(d.paths, child),
            seen: d.seen.insert(name),
            rows: d.rows.push(row_after(d.rows, inode_for(d.paths, child), kind, name)),
        }
    }
}

/// The file type shown for an entry of the backing directory.
pub open spec fn backing_type(entry: BackingEntryView) -> FileType {
    match entry.file_type {
        Some(file_type) => file_type,
        None => FileType::RegularFile,
    }
}

/// A directory with rows for entries of the backing directory, one after the other.
pub open spec fn with_backing(
    d: DirectoryView,
    relative: Seq<char>,
    entries: Seq<BackingEntryView>,
) -> DirectoryView
    decreases entries.len(),
{
    if entries.len() == 0 {
        d
    } else {
        with_row(
            with_backing(d, relative, entries.drop_last()),
            relative,
            entries.last().name,
            backing_type(entries.last()),
        )
    }
}

/// A directory with rows for projected entries, one after the other, but for those deleted.
pub open spec fn with_projected(
    d: DirectoryView,
    relative: Seq<char>,
    whiteouts: Set<Seq<char>>,
    entries: Seq<DirEntryView>,
) -> DirectoryView
    decreases entries.len(),
{
    if entries.len() == 0 {
        d
    } else {
        let before = with_projected(d, relative, whiteouts, entries.drop_last());
        if whiteouts.contains(joined_path(relative, entries.last().name)) {
            before
        } else {
            with_row(before, relative, entries.last().name, projected_type(entries.last().kind))
        }
    }
}

/// A whole directory.
pub open spec fn directory_of(
    paths: Seq<Seq<char>>,
    whiteouts: Set<Seq<char>>,
    ino: u64,
    relative: Seq<char>,
    backing: Seq<BackingEntryView>,
    projected: Seq<DirEntryView>,
) -> DirectoryView {
    with_projected(
        with_backing(directory_begun(paths, ino, relative), relative, backing),
        relative,
        whiteouts,
        projected,
    )
}

/// Add a row for an entry, unless its name has one already.
fn add_row(
    inodes: &mut InodeTable,
    seen: &mut StringHashSet,
    rows: &mut Vec<DirectoryRow>,
    relative: &str,
    name: &str,
    kind: FileType,
)
    requires
        old(inodes).well_formed(),
        old(inodes)@.len() < u64::MAX - 1,
        old(rows)@.len() < u64::MAX - 1,
    ensures
        final(inodes).well_formed(),
        (DirectoryView {
            paths: final(inodes)@,
            seen: final(seen)@,
            rows: row_views(final(rows)@),
        }) == with_row(
            DirectoryView {
                paths: old(inodes)@,
                seen: old(seen)@,
                rows: row_views(old(rows)@),
            },
            relative@,
            name@,
            kind,
        ),
        final(inodes)@.len() <= old(inodes)@.len() + 1,
        final(rows)@.len() <= old(rows)@.len() + 1,
{
    let ghost before = row_views(rows@);
    let fresh = seen.insert(name.to_owned());
    if !fresh {
        assert(seen@ =~= old(seen)@);
        return;
    }
    let child = join_path(relative, name);
    let ino: u64 = inodes.intern(child.as_str());
    let cookie: u64 = rows.len() as u64 + 1;
    rows.push(DirectoryRow { ino, cookie, kind, name: name.to_owned() });
    assert(row_views(rows@) =~= before.push(row_after(before, ino, kind, name@)));
}

/// Put the rows of a directory together. Pass-through entries take precedence, and projected ones
/// fill in the rest, minus anything deleted.
pub fn list_directory(
    inodes: &mut InodeTable,
    whiteouts: &StringHashSet,
    ino: u64,
    relative: &str,
    backing: Vec<BackingEntry>,
    projected: Vec<DirEntry>,
) -> (r: Vec<DirectoryRow>)
    requires
        old(inodes).well_formed(),
        old(inodes)@.len() + backing@.len() + projected@.len() + 2 < u64::MAX,
    ensures
        final(inodes).well_formed(),
        ({
            let directory = directory_of(
                old(inodes)@,
                whiteouts@,
                ino,
                relative@,
                backing_views(backing@),
                entry_views(projected@),
            );
            &&& final(inodes)@ == directory.paths
            &&& row_views(r@) == directory.rows
        }),
{
    let ghost paths = inodes@;
    let above: u64 = if relative.is_empty() {
        ROOT_INODE
    } else {
        let parent = parent_of(relative);
        inodes.intern(parent.as_str())
    };
    let mut seen = StringHashSet::new();
    let mut rows: Vec<DirectoryRow> = Vec::new();
    rows.push(
        DirectoryRow { ino, cookie: 1, kind: FileType::Directory, name: ".".to_owned() },
    );
    rows.push(
        DirectoryRow { ino: above, cookie: 2, kind: FileType::Directory, name: "..".to_owned() },
    );
    let ghost begun = directory_begun(paths, ino, relative@);
    let ghost from_backing = backing_views(backing@);
    assert(row_views(rows@) =~= begun.rows);
    let mut i: usize = 0;
    assert(from_backing.take(0) =~= Seq::empty());
    while i < backing.len()
        invariant
            i <= backing@.len(),
            from_backing == backing_views(backing@),
            inodes.well_formed(),
            inodes@.len() <= paths.len() + 1 + i,
            rows@.len() <= 2 + i,
            paths.len() + backing@.len() + projected@.len() + 2 < u64::MAX,
            (DirectoryView { paths: inodes@, seen: seen@, rows: row_views(rows@) })
                == with_backing(begun, relative@, from_backing.take(i as int)),
        decreases backing@.len() - i,
    {
        let entry = &backing[i];
        assert(from_backing[i as int] == entry@);
        let kind = match entry.file_type {
            Some(file_type) => file_type,
            None => FileType::RegularFile,
        };
        assert(from_backing.take(i + 1).drop_last() =~= from_backing.take(i as int));
        add_row(inodes, &mut seen, &mut rows, relative, entry.name.as_str(), kind);
        i = i + 1;
    }
    assert(from_backing.take(i as int) =~= from_backing);
    let ghost passed = with_backing(begun, relative@, from_backing);
    let ghost from_layers = entry_views(projected@);
    let mut j: usize = 0;
    assert(from_layers.take(0) =~= Seq::empty());
    while j < projected.len()
        invariant
            j <= projected@.len(),
            from_layers == entry_views(projected@),
            inodes.well_formed(),
            inodes@.len() <= paths.len() + 1 + backing@.len() + j,
            rows@.len() <= 2 + backing@.len() + j,
            paths.len() + backing@.len() + projected@.len() + 2 < u64::MAX,
            (DirectoryView { paths: inodes@, seen: seen@, rows: row_views(rows@) })
                == with_projected(passed, relative@, whiteouts@, from_layers.take(j as int)),
        decreases projected@.len() - j,
    {
        let entry = &projected[j];
        assert(from_layers[j as int] == entry@);
        assert(from_layers.take(j + 1).drop_last() =~= from_layers.take(j as int));
        let child = join_path(relative, entry.name.as_str());
        if !whiteouts.contains(child.as_str()) {
            let kind = entry_kind_to_file_type(entry.kind);
            add_row(inodes, &mut seen, &mut rows, relative, entry.name.as_str(), kind);
        }
        j = j + 1;
    }
    assert(from_layers.take(j as int) =~= from_layers);
    rows
}

/// The index of the first row that a request resuming at `offset` reads.
pub open spec fn resume_index(count: nat, offset: u64) -> nat {
    if offset <= count {
        offset as nat
    } else {
        count
    }
}

/// The index of the first row that a request resuming at `offset` reads.
pub fn resume_row(rows: &Vec<DirectoryRow>, offset: u64) -> (r: usize)
    ensures
        r == resume_index(rows@.len(), offset),
{
    if offset <= rows.len() as u64 {
        offset as usize
    } else {
        rows.len()
    }
}

/// Whether an entry of the directory has that name.
pub open spec fn has_row(rows: Seq<RowView>, name: Seq<char>) -> bool {
    exists|i: int| 2 <= i < rows.len() && #[trigger] rows[i].name == name
}

/// What holds of the rows of every directory: behind the two that lead no name has two rows, and
/// every cookie is the index of the next row.
pub open spec fn names_consistent(d: DirectoryView) -> bool {
    &&& d.rows.len() >= 2
    &&& forall|name: Seq<char>| #[trigger] d.seen.contains(name) <==> has_row(d.rows, name)
    &&& forall|i: int, j: int|
        2 <= i < j < d.rows.len() ==> #[trigger] d.rows[i].name != #[trigger] d.rows[j].name
    &&& forall|i: int| 0 <= i < d.rows.len() ==> (#[trigger] d.rows[i]).cookie == i + 1
}

/// What holds of the rows of a directory while inode numbers are left: besides, each row behind the
/// two that lead bears the inode of its entry.
pub open spec fn rows_consistent(d: DirectoryView, relative: Seq<char>) -> bool {
    &&& names_consistent(d)
    &&& paths_valid(d.paths)
    &&& forall|i: int|
        2 <= i < d.rows.len() ==> is_inode_of(
            d.paths,
            (#[trigger] d.rows[i]).ino,
            joined_path(relative, d.rows[i].name),
        )
}

/// A row for an entry keeps the rows consistent and those that were there, and gives the entry
/// one.
proof fn lemma_with_row(d: DirectoryView, relative: Seq<char>, name: Seq<char>, kind: FileType)
    requires
        names_consistent(d),
        d.rows.len() < u64::MAX - 1,
    ensures
        ({
            let next = with_row(d, relative, name, kind);
            &&& names_consistent(next)
            &&& next.rows.len() >= d.rows.len()
            &&& next.rows.len() <= d.rows.len() + 1
            &&& next.paths.len() <= d.paths.len() + 1
            &&& forall|i: int| 0 <= i < d.rows.len() ==> #[trigger] next.rows[i] == d.rows[i]
            &&& has_row(next.rows, name)
        }),
{
    let next = with_row(d, relative, name, kind);
    if !d.seen.contains(name) {
        let last = d.rows.len() as int;
        assert(next.rows[last].name == name);
        assert forall|n: Seq<char>| #[trigger] next.seen.contains(n) <==> has_row(
            next.rows,
            n,
        ) by {
            if has_row(d.rows, n) {
                let i = choose|i: int| 2 <= i < d.rows.len() && #[trigger] d.rows[i].name == n;
                assert(next.rows[i].name == n);
            }
            if has_row(next.rows, n) && n != name {
                let i = choose|i: int|
                    2 <= i < next.rows.len() && #[trigger] next.rows[i].name == n;
                assert(d.rows[i].name == n);
                assert(d.seen.contains(n));
            }
        }
        assert forall|i: int, j: int| 2 <= i < j < next.rows.len() implies #[trigger] next.rows[i].name
            != #[trigger] next.rows[j].name by {
            if j == last {
                if d.rows[i].name == name {
                    assert(has_row(d.rows, name));
                }
            }
        }
    }
}

/// While inode numbers are left, a row for an entry bears its inode, and the other rows keep
/// theirs.
proof fn lemma_row_inodes(d: DirectoryView, relative: Seq<char>, name: Seq<char>, kind: FileType)
    requires
        rows_consistent(d, relative),
        d.rows.len() < u64::MAX - 1,
        d.paths.len() < u64::MAX - 1,
    ensures
        rows_consistent(with_row(d, relative, name, kind), relative),
{
    let next = with_row(d, relative, name, kind);
    lemma_with_row(d, relative, name, kind);
    if !d.seen.contains(name) {
        let child = joined_path(relative, name);
        lemma_inode_for(d.paths, child);
        assert forall|i: int| 2 <= i < next.rows.len() implies is_inode_of(
            next.paths,
            (#[trigger] next.rows[i]).ino,
            joined_path(relative, next.rows[i].name),
        ) by {
            if i < d.rows.len() {
                law_intern_keeps_inodes(d.paths, child, d.rows[i].ino);
            }
        }
    }
}

/// A directory starts out consistent.
proof fn lemma_begun(paths: Seq<Seq<char>>, ino: u64, relative: Seq<char>)
    ensures
        names_consistent(directory_begun(paths, ino, relative)),
        directory_begun(paths, ino, relative).paths.len() <= paths.len() + 1,
        paths_valid(paths) && paths.len() < u64::MAX - 1 ==> rows_consistent(
            directory_begun(paths, ino, relative),
            relative,
        ),
{
    if relative.len() > 0 && paths_valid(paths) && paths.len() < u64::MAX - 1 {
        lemma_inode_for(paths, parent_path(relative));
    }
}

/// Whether the backing directory holds an entry of that name.
pub open spec fn backing_has(entries: Seq<BackingEntryView>, name: Seq<char>) -> bool {
    exists|k: int| 0 <= k < entries.len() && #[trigger] entries[k].name == name
}

/// Whether a row shows an entry of the backing directory.
pub open spec fn shows_backing(entries: Seq<BackingEntryView>, row: RowView) -> bool {
    exists|k: int|
        0 <= k < entries.len() && #[trigger] entries[k].name == row.name && row.kind
            == backing_type(entries[k])
}

/// Whether a row shows a projected entry that was not deleted.
pub open spec fn shows_projected(
    entries: Seq<DirEntryView>,
    relative: Seq<char>,
    whiteouts: Set<Seq<char>>,
    row: RowView,
) -> bool {
    &&& !whiteouts.contains(joined_path(relative, row.name))
    &&& exists|k: int|
        0 <= k < entries.len() && #[trigger] entries[k].name == row.name && row.kind
            == projected_type(entries[k].kind)
}

proof fn lemma_with_backing(
    d: DirectoryView,
    relative: Seq<char>,
    entries: Seq<BackingEntryView>,
)
    requires
        names_consistent(d),
        d.rows.len() == 2,
        entries.len() + 2 < u64::MAX,
    ensures
        ({
            let next = with_backing(d, relative, entries);
            &&& names_consistent(next)
            &&& rows_consistent(d, relative) && d.paths.len() + entries.len() < u64::MAX
                ==> rows_consistent(next, relative)
            &&& next.rows.len() <= 2 + entries.len()
            &&& next.paths.len() <= d.paths.len() + entries.len()
            &&& next.rows[0] == d.rows[0]
            &&& next.rows[1] == d.rows[1]
            &&& forall|i: int|
                2 <= i < next.rows.len() ==> shows_backing(entries, #[trigger] next.rows[i])
            &&& forall|k: int|
                0 <= k < entries.len() ==> #[trigger] has_row(next.rows, entries[k].name)
        }),
    decreases entries.len(),
{
    if entries.len() > 0 {
        let earlier = entries.drop_last();
        let before = with_backing(d, relative, earlier);
        let next = with_backing(d, relative, entries);
        let last = entries.last();
        lemma_with_backing(d, relative, earlier);
        lemma_with_row(before, relative, last.name, backing_type(last));
        if rows_consistent(d, relative) && d.paths.len() + entries.len() < u64::MAX {
            lemma_row_inodes(before, relative, last.name, backing_type(last));
        }
        assert forall|i: int| 2 <= i < next.rows.len() implies shows_backing(
            entries,
            #[trigger] next.rows[i],
        ) by {
            if i < before.rows.len() {
                assert(next.rows[i] == before.rows[i]);
                assert(shows_backing(earlier, before.rows[i]));
                let k = choose|k: int|
                    0 <= k < earlier.len() && #[trigger] earlier[k].name == before.rows[i].name
                        && before.rows[i].kind == backing_type(earlier[k]);
                assert(entries[k] == earlier[k]);
            } else {
                assert(entries[entries.len() - 1].name == next.rows[i].name);
            }
        }
        assert forall|k: int| 0 <= k < entries.len() implies #[trigger] has_row(
            next.rows,
            entries[k].name,
        ) by {
            if k < earlier.len() {
                assert(earlier[k] == entries[k]);
                assert(has_row(before.rows, earlier[k].name));
                let i = choose|i: int|
                    2 <= i < before.rows.len() && #[trigger] before.rows[i].name
                        == earlier[k].name;
                assert(next.rows[i].name == earlier[k].name);
            }
        }
    }
}

proof fn lemma_with_projected(
    d: DirectoryView,
    relative: Seq<char>,
    whiteouts: Set<Seq<char>>,
    entries: Seq<DirEntryView>,
)
    requires
        names_consistent(d),
        d.rows.len() + entries.len() < u64::MAX,
    ensures
        ({
            let next = with_projected(d, relative, whiteouts, entries);
            &&& names_consistent(next)
            &&& rows_consistent(d, relative) && d.paths.len() + entries.len() < u64::MAX
                ==> rows_consistent(next, relative)
            &&& next.rows.len() >= d.rows.len()
            &&& next.rows.len() <= d.rows.len() + entries.len()
            &&& next.paths.len() <= d.paths.len() + entries.len()
            &&& forall|i: int| 0 <= i < d.rows.len() ==> #[trigger] next.rows[i] == d.rows[i]
            &&& forall|i: int|
                d.rows.len() <= i < next.rows.len() ==> shows_projected(
                    entries,
                    relative,
                    whiteouts,
                    #[trigger] next.rows[i],
                )
            &&& forall|k: int|
                0 <= k < entries.len() && !whiteouts.contains(
                    joined_path(relative, entries[k].name),
                ) ==> #[trigger] has_row(next.rows, entries[k].name)
        }),
    decreases entries.len(),
{
    if entries.len() > 0 {
        let earlier = entries.drop_last();
        let before = with_projected(d, relative, whiteouts, earlier);
        let next = with_projected(d, relative, whiteouts, entries);
        let last = entries.last();
        lemma_with_projected(d, relative, whiteouts, earlier);
        if !whiteouts.contains(joined_path(relative, last.name)) {
            lemma_with_row(before, relative, last.name, projected_type(last.kind));
            if rows_consistent(d, relative) && d.paths.len() + entries.len() < u64::MAX {
                lemma_row_inodes(before, relative, last.name, projected_type(last.kind));
            }
        }
        assert forall|i: int| d.rows.len() <= i < next.rows.len() implies shows_projected(
            entries,
            relative,
            whiteouts,
            #[trigger] next.rows[i],
        ) by {
            if i < before.rows.len() {
                assert(next.rows[i] == before.rows[i]);
                assert(shows_projected(earlier, relative, whiteouts, before.rows[i]));
                let k = choose|k: int|
                    0 <= k < earlier.len() && #[trigger] earlier[k].name == before.rows[i].name
                        && before.rows[i].kind == projected_type(earlier[k].kind);
                assert(entries[k] == earlier[k]);
            } else {
                assert(entries[entries.len() - 1].name == next.rows[i].name);
            }
        }
        assert forall|k: int|
            0 <= k < entries.len() && !whiteouts.contains(
                joined_path(relative, entries[k].name),
            ) implies #[trigger] has_row(next.rows, entries[k].name) by {
            if k < earlier.len() {
                assert(earlier[k] == entries[k]);
                assert(has_row(before.rows, earlier[k].name));
                let i = choose|i: int|
                    2 <= i < before.rows.len() && #[trigger] before.rows[i].name
                        == earlier[k].name;
                assert(next.rows[i].name == earlier[k].name);
            }
        }
    }
}

/// A directory is the union of its two sources. Every entry of the backing directory has a row and
/// every projected entry that was not deleted has one, no name has two, and each row shows an
/// entry that passes through, or else a projected one that was not deleted: pass-through wins. While
/// inode numbers are left, each row bears the inode of its entry.
pub proof fn law_directory_is_union(
    paths: Seq<Seq<char>>,
    whiteouts: Set<Seq<char>>,
    ino: u64,
    relative: Seq<char>,
    backing: Seq<BackingEntryView>,
    projected: Seq<DirEntryView>,
)
    requires
        backing.len() + projected.len() + 2 < u64::MAX,
    ensures
        ({
            let d = directory_of(paths, whiteouts, ino, relative, backing, projected);
            &&& names_consistent(d)
            &&& paths_valid(paths) && paths.len() + backing.len() + projected.len() + 2 < u64::MAX
                ==> rows_consistent(d, relative)
            &&& forall|i: int|
                2 <= i < d.rows.len() ==> if backing_has(backing, (#[trigger] d.rows[i]).name) {
                    shows_backing(backing, d.rows[i])
                } else {
                    shows_projected(projected, relative, whiteouts, d.rows[i])
                }
            &&& forall|k: int|
                0 <= k < backing.len() ==> #[trigger] has_row(d.rows, backing[k].name)
            &&& forall|k: int|
                0 <= k < projected.len() && !whiteouts.contains(
                    joined_path(relative, projected[k].name),
                ) ==> #[trigger] has_row(d.rows, projected[k].name)
        }),
{
    let begun = directory_begun(paths, ino, relative);
    let passed = with_backing(begun, relative, backing);
    let d = directory_of(paths, whiteouts, ino, relative, backing, projected);
    lemma_begun(paths, ino, relative);
    lemma_with_backing(begun, relative, backing);
    lemma_with_projected(passed, relative, whiteouts, projected);
    assert forall|i: int| 2 <= i < d.rows.len() implies if backing_has(
        backing,
        (#[trigger] d.rows[i]).name,
    ) {
        shows_backing(backing, d.rows[i])
    } else {
        shows_projected(projected, relative, whiteouts, d.rows[i])
    } by {
        if i < passed.rows.len() {
            assert(d.rows[i] == passed.rows[i]);
            assert(shows_backing(backing, passed.rows[i]));
        } else if backing_has(backing, d.rows[i].name) {
            let k = choose|k: int|
                0 <= k < backing.len() && #[trigger] backing[k].name == d.rows[i].name;
            assert(has_row(passed.rows, backing[k].name));
            let j = choose|j: int|
                2 <= j < passed.rows.len() && #[trigger] passed.rows[j].name == backing[k].name;
            assert(d.rows[j] == passed.rows[j]);
        }
    }
    assert forall|k: int| 0 <= k < backing.len() implies #[trigger] has_row(
        d.rows,
        backing[k].name,
    ) by {
        assert(has_row(passed.rows, backing[k].name));
        let j = choose|j: int|
            2 <= j < passed.rows.len() && #[trigger] passed.rows[j].name == backing[k].name;
        assert(d.rows[j] == passed.rows[j]);
    }
}

/// A directory leads with itself and the one above it, and it has no more rows than its sources
/// have entries besides.
pub proof fn lemma_listing_leads(
    paths: Seq<Seq<char>>,
    whiteouts: Set<Seq<char>>,
    ino: u64,
    relative: Seq<char>,
    backing: Seq<BackingEntryView>,
    projected: Seq<DirEntryView>,
)
    requires
        backing.len() + projected.len() + 2 < u64::MAX,
    ensures
        ({
            let d = directory_of(paths, whiteouts, ino, relative, backing, projected);
            let begun = directory_begun(paths, ino, relative);
            &&& 2 <= d.rows.len() <= 2 + backing.len() + projected.len()
            &&& d.rows[0] == begun.rows[0]
            &&& d.rows[1] == begun.rows[1]
        }),
{
    let begun = directory_begun(paths, ino, relative);
    let passed = with_backing(begun, relative, backing);
    lemma_begun(paths, ino, relative);
    lemma_with_backing(begun, relative, backing);
    lemma_with_projected(passed, relative, whiteouts, projected);
}

/// The rows that a request resuming at `offset` reads when the reply has room for `room` of them.
pub open spec fn rows_read(rows: Seq<RowView>, offset: u64, room: nat) -> Seq<RowView> {
    let from = resume_index(rows.len(), offset);
    let to = if from + room <= rows.len() {
        from + room
    } else {
        rows.len()
    };
    rows.subrange(from as int, to as int)
}

/// The offset at which the next request resumes: the cookie of the last row it was given.
pub open spec fn next_offset(rows: Seq<RowView>, offset: u64, room: nat) -> u64 {
    let given = rows_read(rows, offset, room);
    if given.len() == 0 {
        offset
    } else {
        given.last().cookie
    }
}

/// All that a series of requests reads, each resuming where the one before it stopped.
pub open spec fn all_rows_read(rows: Seq<RowView>, offset: u64, rooms: Seq<nat>) -> Seq<RowView>
    decreases rooms.len(),
{
    if rooms.len() == 0 {
        Seq::empty()
    } else {
        rows_read(rows, offset, rooms[0]) + all_rows_read(
            rows,
            next_offset(rows, offset, rooms[0]),
            rooms.skip(1),
        )
    }
}

/// The number of rows that a series of replies has room for.
pub open spec fn rooms_total(rooms: Seq<nat>) -> nat
    decreases rooms.len(),
{
    if rooms.len() == 0 {
        0
    } else {
        rooms[0] + rooms_total(rooms.skip(1))
    }
}

/// However the replies are sized, the requests that read a directory from its start together read
/// its rows in order, none twice and none skipped, and all of them once the replies had room.
pub proof fn law_readdir_reads_every_row_once(rows: Seq<RowView>, rooms: Seq<nat>)
    requires
        rows.len() < u64::MAX,
        forall|i: int| 0 <= i < rows.len() ==> (#[trigger] rows[i]).cookie == i + 1,
    ensures
        all_rows_read(rows, 0, rooms) == rows_read(rows, 0, rooms_total(rooms)),
{
    lemma_all_rows_read(rows, 0, rooms);
}

proof fn lemma_all_rows_read(rows: Seq<RowView>, offset: u64, rooms: Seq<nat>)
    requires
        rows.len() < u64::MAX,
        offset <= rows.len(),
        forall|i: int| 0 <= i < rows.len() ==> (#[trigger] rows[i]).cookie == i + 1,
    ensures
        all_rows_read(rows, offset, rooms) == rows_read(rows, offset, rooms_total(rooms)),
    decreases rooms.len(),
{
    if rooms.len() == 0 {
        assert(rows_read(rows, offset, 0) =~= Seq::empty());
    } else {
        let given = rows_read(rows, offset, rooms[0]);
        let next = next_offset(rows, offset, rooms[0]);
        assert(next == offset + given.len());
        lemma_all_rows_read(rows, next, rooms.skip(1));
        assert(given + rows_read(rows, next, rooms_total(rooms.skip(1))) =~= rows_read(
            rows,
            offset,
            rooms_total(rooms),
        ));
    }
}

/// Reading a directory keeps the inode of every known path.
pub proof fn law_readdir_keeps_inodes(
    paths: Seq<Seq<char>>,
    whiteouts: Set<Seq<char>>,
    ino: u64,
    relative: Seq<char>,
    backing: Seq<BackingEntryView>,
    projected: Seq<DirEntryView>,
    known: u64,
)
    requires
        path_of(paths, known) is Some,
    ensures
        path_of(
            directory_of(paths, whiteouts, ino, relative, backing, projected).paths,
            known,
        ) == path_of(paths, known),
{
    let begun = directory_begun(paths, ino, relative);
    if relative.len() > 0 {
        law_intern_keeps_inodes(paths, parent_path(relative), known);
    }
    lemma_backing_keeps_inodes(begun, relative, backing, known);
    let passed = with_backing(begun, relative, backing);
    lemma_projected_keeps_inodes(passed, relative, whiteouts, projected, known);
}

proof fn lemma_backing_keeps_inodes(
    d: DirectoryView,
    relative: Seq<char>,
    entries: Seq<BackingEntryView>,
    known: u64,
)
    requires
        path_of(d.paths, known) is Some,
    ensures
        path_of(with_backing(d, relative, entries).paths, known) == path_of(d.paths, known),
    decreases entries.len(),
{
    if entries.len() > 0 {
        let before = with_backing(d, relative, entries.drop_last());
        lemma_backing_keeps_inodes(d, relative, entries.drop_last(), known);
        law_intern_keeps_inodes(before.paths, joined_path(relative, entries.last().name), known);
    }
}

proof fn lemma_projected_keeps_inodes(
    d: DirectoryView,
    relative: Seq<char>,
    whiteouts: Set<Seq<char>>,
    entries: Seq<DirEntryView>,
    known: u64,
)
    requires
        path_of(d.paths, known) is Some,
    ensures
        path_of(with_projected(d, relative, whiteouts, entries).paths, known) == path_of(
            d.paths,
            known,
        ),
    decreases entries.len(),
{
    if entries.len() > 0 {
        let before = with_projected(d, relative, whiteouts, entries.drop_last());
        lemma_projected_keeps_inodes(d, relative, whiteouts, entries.drop_last(), known);
        law_intern_keeps_inodes(before.paths, joined_path(relative, entries.last().name), known);
    }
}

/// Whether a list of known paths goes on from another.
pub open spec fn goes_on_from(later: Seq<Seq<char>>, paths: Seq<Seq<char>>) -> bool {
    &&& paths.len() <= later.len()
    &&& forall|i: int| 0 <= i < paths.len() ==> #[trigger] later[i] == paths[i]
}

/// A path that was looked up once keeps its inode when it is looked up again later.
proof fn lemma_inode_again(paths: Seq<Seq<char>>, later: Seq<Seq<char>>, path: Seq<char>)
    requires
        later.no_duplicates(),
        goes_on_from(later, interned(paths, path)),
    ensures
        interned(later, path) == later,
        inode_for(later, path) == inode_for(paths, path),
        goes_on_from(later, paths),
{
    let known = interned(paths, path);
    if !paths.contains(path) {
        assert(known[paths.len() as int] == path);
    }
    assert(known.contains(path));
    let i = known.index_of(path);
    assert(later[i] == path);
    assert(later.contains(path));
    assert(later[later.index_of(path)] == path);
    assert forall|k: int| 0 <= k < paths.len() implies #[trigger] later[k] == paths[k] by {
        assert(known[k] == paths[k]);
    }
}

/// A row that was put together before is put together again.
proof fn lemma_row_again(
    d: DirectoryView,
    later: Seq<Seq<char>>,
    relative: Seq<char>,
    name: Seq<char>,
    kind: FileType,
)
    requires
        later.no_duplicates(),
        goes_on_from(later, with_row(d, relative, name, kind).paths),
    ensures
        with_row(DirectoryView { paths: later, ..d }, relative, name, kind) == (DirectoryView {
            paths: later,
            ..with_row(d, relative, name, kind)
        }),
        goes_on_from(later, d.paths),
{
    if !d.seen.contains(name) {
        lemma_inode_again(d.paths, later, joined_path(relative, name));
    }
}

proof fn lemma_backing_again(
    d: DirectoryView,
    later: Seq<Seq<char>>,
    relative: Seq<char>,
    entries: Seq<BackingEntryView>,
)
    requires
        later.no_duplicates(),
        goes_on_from(later, with_backing(d, relative, entries).paths),
    ensures
        with_backing(DirectoryView { paths: later, ..d }, relative, entries) == (DirectoryView {
            paths: later,
            ..with_backing(d, relative, entries)
        }),
        goes_on_from(later, d.paths),
    decreases entries.len(),
{
    if entries.len() > 0 {
        let earlier = entries.drop_last();
        let before = with_backing(d, relative, earlier);
        let last = entries.last();
        lemma_row_again(before, later, relative, last.name, backing_type(last));
        lemma_backing_again(d, later, relative, earlier);
    }
}

proof fn lemma_projected_again(
    d: DirectoryView,
    later: Seq<Seq<char>>,
    relative: Seq<char>,
    whiteouts: Set<Seq<char>>,
    entries: Seq<DirEntryView>,
)
    requires
        later.no_duplicates(),
        goes_on_from(later, with_projected(d, relative, whiteouts, entries).paths),
    ensures
        with_projected(DirectoryView { paths: later, ..d }, relative, whiteouts, entries) == (
        DirectoryView { paths: later, ..with_projected(d, relative, whiteouts, entries) }),
        goes_on_from(later, d.paths),
    decreases entries.len(),
{
    if entries.len() > 0 {
        let earlier = entries.drop_last();
        let before = with_projected(d, relative, whiteouts, earlier);
        let last = entries.last();
        if !whiteouts.contains(joined_path(relative, last.name)) {
            lemma_row_again(before, later, relative, last.name, projected_type(last.kind));
        }
        lemma_projected_again(d, later, relative, whiteouts, earlier);
    }
}

proof fn lemma_backing_keeps_paths_distinct(
    d: DirectoryView,
    relative: Seq<char>,
    entries: Seq<BackingEntryView>,
)
    requires
        d.paths.no_duplicates(),
    ensures
        with_backing(d, relative, entries).paths.no_duplicates(),
    decreases entries.len(),
{
    if entries.len() > 0 {
        lemma_backing_keeps_paths_distinct(d, relative, entries.drop_last());
    }
}

proof fn lemma_projected_keeps_paths_distinct(
    d: DirectoryView,
    relative: Seq<char>,
    whiteouts: Set<Seq<char>>,
    entries: Seq<DirEntryView>,
)
    requires
        d.paths.no_duplicates(),
    ensures
        with_projected(d, relative, whiteouts, entries).paths.no_duplicates(),
    decreases entries.len(),
{
    if entries.len() > 0 {
        lemma_projected_keeps_paths_distinct(d, relative, whiteouts, entries.drop_last());
    }
}

/// A directory that is read again while nothing changes shows the same rows with the same inodes,
/// and no path becomes known.
pub proof fn law_directory_reads_the_same_again(
    paths: Seq<Seq<char>>,
    whiteouts: Set<Seq<char>>,
    ino: u64,
    relative: Seq<char>,
    backing: Seq<BackingEntryView>,
    projected: Seq<DirEntryView>,
)
    requires
        paths_valid(paths),
    ensures
        ({
            let d = directory_of(paths, whiteouts, ino, relative, backing, projected);
            directory_of(d.paths, whiteouts, ino, relative, backing, projected) == d
        }),
{
    let begun = directory_begun(paths, ino, relative);
    let passed = with_backing(begun, relative, backing);
    let d = directory_of(paths, whiteouts, ino, relative, backing, projected);
    lemma_backing_keeps_paths_distinct(begun, relative, backing);
    lemma_projected_keeps_paths_distinct(passed, relative, whiteouts, projected);
    lemma_projected_again(passed, d.paths, relative, whiteouts, projected);
    lemma_backing_again(begun, d.paths, relative, backing);
    if relative.len() > 0 {
        lemma_inode_again(paths, d.paths, parent_path(relative));
    }
    assert(directory_begun(d.paths, ino, relative) == DirectoryView { paths: d.paths, ..begun });
}

/// Whether the projection holds an entry of that name.
pub open spec fn projection_has(entries: Seq<DirEntryView>, name: Seq<char>) -> bool {
    exists|k: int| 0 <= k < entries.len() && #[trigger] entries[k].name == name
}

/// A name has a row exactly when it passes through, or is projected and was not deleted.
pub proof fn law_rows_are_the_visible_names(
    paths: Seq<Seq<char>>,
    whiteouts: Set<Seq<char>>,
    ino: u64,
    relative: Seq<char>,
    backing: Seq<BackingEntryView>,
    projected: Seq<DirEntryView>,
    name: Seq<char>,
)
    requires
        backing.len() + projected.len() + 2 < u64::MAX,
    ensures
        has_row(directory_of(paths, whiteouts, ino, relative, backing, projected).rows, name) <==> (
        backing_has(backing, name) || (projection_has(projected, name) && !whiteouts.contains(
            joined_path(relative, name),
        ))),
{
    let d = directory_of(paths, whiteouts, ino, relative, backing, projected);
    law_directory_is_union(paths, whiteouts, ino, relative, backing, projected);
    if has_row(d.rows, name) {
        let i = choose|i: int| 2 <= i < d.rows.len() && #[trigger] d.rows[i].name == name;
        if !backing_has(backing, name) {
            assert(shows_projected(projected, relative, whiteouts, d.rows[i]));
            let k = choose|k: int|
                0 <= k < projected.len() && #[trigger] projected[k].name == d.rows[i].name
                    && d.rows[i].kind == projected_type(projected[k].kind);
            assert(projected[k].name == name);
        }
    }
    if backing_has(backing, name) {
        let k = choose|k: int| 0 <= k < backing.len() && #[trigger] backing[k].name == name;
        assert(has_row(d.rows, backing[k].name));
    } else if projection_has(projected, name) && !whiteouts.contains(joined_path(relative, name)) {
        let k = choose|k: int| 0 <= k < projected.len() && #[trigger] projected[k].name == name;
        assert(has_row(d.rows, projected[k].name));
    }
}

/// A row bears the inode that a lookup of its name hands out.
pub proof fn law_rows_agree_with_lookup(d: DirectoryView, relative: Seq<char>, i: int)
    requires
        rows_consistent(d, relative),
        d.paths.len() < u64::MAX - 1,
        2 <= i < d.rows.len(),
    ensures
        d.rows[i].ino == inode_for(d.paths, joined_path(relative, d.rows[i].name)),
        interned(d.paths, joined_path(relative, d.rows[i].name)) == d.paths,
{
    let row = d.rows[i];
    let child = joined_path(relative, row.name);
    assert(is_inode_of(d.paths, row.ino, child));
    assert(d.paths[row.ino - ROOT_INODE] == child);
    lemma_inode_for(d.paths, child);
}

} // verus!
