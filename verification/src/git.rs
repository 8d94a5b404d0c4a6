//! Cross-VCS guard: detection of a git working tree overlapping the Lore workspace.
//!
//! A Lore workspace can share its root with a git working tree (source in git, assets in Lore).
//! That layout is only safe while the two tracked sets stay disjoint: a path staged into Lore that
//! git also tracks will be overwritten or deleted from the git tree by a backward sync. This
//! module settles whether a git working tree overlaps and what it tracks, so that staging can
//! enforce disjointness.

use crate::encoding::{from_utf8_lossy, lowercased, to_lowercase, utf8_lossy};
use crate::text::{contains_text, has_prefix, lemma_contains_middle, trim_text, trimmed};
use vstd::hash_set::StringHashSet;
use vstd::prelude::*;

verus! {

/// What stands under the name `.git` in a directory.
#[derive(Debug, Clone, Copy, PartialEq, Eq, Structural)]
pub enum DotGit {
    Missing,
    /// A repository of its own.
    Directory,
    /// A pointer to one, as git worktrees and submodules have it.
    File,
}

/// What `git ls-files` gave back.
#[derive(Debug)]
pub struct GitOutput {
    pub success: bool,
    /// How the process ended, in words.
    pub status: String,
    pub stdout: Vec<u8>,
    pub stderr: Vec<u8>,
}

/// Presence and tracked set of a git working tree covering the workspace root.
pub enum GitPresence {
    /// No git working tree at or above the workspace root.
    Absent,
    /// A git working tree covers the workspace; the set holds its tracked paths relative to the
    /// workspace root, lowercased and forward-slash separated.
    Listed(StringHashSet),
    /// A git working tree exists but its tracked set could not be read (the `git` executable is
    /// missing or failed), so the disjointness guard cannot be enforced.
    Unavailable,
}

/// What a [`GitPresence`] says.
pub enum PresenceView {
    Absent,
    Listed { paths: Set<Seq<char>> },
    Unavailable,
}

impl View for GitPresence {
    type V = PresenceView;

    open spec fn view(&self) -> PresenceView {
        match *self {
            GitPresence::Absent => PresenceView::Absent,
            GitPresence::Listed(set) => PresenceView::Listed { paths: set@ },
            GitPresence::Unavailable => PresenceView::Unavailable,
        }
    }
}

/// Whether a git working tree tracks a path, without regard to case.
pub open spec fn is_tracked(presence: PresenceView, relative: Seq<char>) -> bool {
    match presence {
        PresenceView::Listed { paths } => paths.contains(lowercased(relative)),
        _ => false,
    }
}

impl GitPresence {
    /// Whether a workspace-relative path is tracked by the overlapping git working tree.
    pub fn tracks(&self, relative: &str) -> (r: bool)
        ensures
            r == is_tracked(self@, relative@),
    {
        self.tracks_lowercase(to_lowercase(relative).as_str())
    }

    /// Whether the tracked set holds a path that is in lower case already.
    pub fn tracks_lowercase(&self, lower: &str) -> (r: bool)
        ensures
            r == (self@ matches PresenceView::Listed { paths } && paths.contains(lower@)),
    {
        match self {
            GitPresence::Listed(set) => set.contains(lower),
            _ => false,
        }
    }
}

/// Whether a `.git` entry exists directly in a directory: the shared-root layout the root-mount
/// fail-safe guards. A file counts as much as a directory.
pub fn git_at_root(dot_git: DotGit) -> (r: bool)
    ensures
        r == (dot_git != DotGit::Missing),
{
    match dot_git {
        DotGit::Missing => false,
        _ => true,
    }
}

/// Whether a git working tree covers a workspace, given what stands under `.git` in its root and
/// in each directory above.
pub open spec fn is_covered(ancestors: Seq<DotGit>) -> bool {
    exists|i: int| 0 <= i < ancestors.len() && #[trigger] ancestors[i] != DotGit::Missing
}

/// Whether a git working tree covers a workspace. Only then `git ls-files` has to run.
pub fn covers(ancestors: &[DotGit]) -> (r: bool)
    ensures
        r == is_covered(ancestors@),
{
    let mut i: usize = 0;
    while i < ancestors.len()
        invariant
            i <= ancestors@.len(),
            forall|k: int| 0 <= k < i ==> ancestors@[k] == DotGit::Missing,
        decreases ancestors@.len() - i,
    {
        if git_at_root(ancestors[i]) {
            assert(ancestors@[i as int] != DotGit::Missing);
            return true;
        }
        i = i + 1;
    }
    false
}

/// The presence that was found, given what `git ls-files` gave back where it had to run.
pub open spec fn detected(ancestors: Seq<DotGit>, output: Option<GitOutput>) -> PresenceView {
    if !is_covered(ancestors) {
        PresenceView::Absent
    } else {
        match output {
            Some(output) if output.success => PresenceView::Listed {
                paths: tracked_paths(output.stdout@),
            },
            _ => PresenceView::Unavailable,
        }
    }
}

/// Detect a git working tree at or above a workspace root and take its tracked set. `output` is
/// what `git ls-files` gave back, nothing where it could not be run.
pub fn detect(ancestors: &[DotGit], output: Option<GitOutput>) -> (r: GitPresence)
    ensures
        r@ == detected(ancestors@, output),
{
    if !covers(ancestors) {
        return GitPresence::Absent;
    }
    match output {
        Some(output) => match snapshot_tracked(&output) {
            Ok(paths) => GitPresence::Listed(paths),
            Err(_) => GitPresence::Unavailable,
        },
        None => GitPresence::Unavailable,
    }
}

/// The byte strings between the zero bytes of a listing.
pub open spec fn pieces(bytes: Seq<u8>) -> Seq<Seq<u8>>
    decreases bytes.len(),
{
    if bytes.len() == 0 {
        seq![Seq::empty()]
    } else {
        let before = pieces(bytes.drop_last());
        if bytes.last() == 0 {
            before.push(Seq::empty())
        } else {
            before.drop_last().push(before.last().push(bytes.last()))
        }
    }
}

/// A listed path as it is compared: as text, in lower case.
pub open spec fn compared_path(piece: Seq<u8>) -> Seq<char> {
    lowercased(utf8_lossy(piece))
}

/// The paths of a listing as they are compared. An empty piece, such as the one behind the last
/// zero byte, is none.
pub open spec fn tracked_paths(bytes: Seq<u8>) -> Set<Seq<char>> {
    Set::new(
        |p: Seq<char>|
            exists|i: int|
                0 <= i < pieces(bytes).len() && (#[trigger] pieces(bytes)[i]).len() > 0 && p
                    == compared_path(pieces(bytes)[i]),
    )
}

/// The byte strings between the zero bytes of a listing.
pub fn split_pieces(bytes: &[u8]) -> (r: Vec<Vec<u8>>)
    ensures
        r@.len() == pieces(bytes@).len(),
        forall|i: int| 0 <= i < r@.len() ==> (#[trigger] r@[i])@ == pieces(bytes@)[i],
{
    let mut out: Vec<Vec<u8>> = Vec::new();
    let mut piece: Vec<u8> = Vec::new();
    let mut i: usize = 0;
    assert(piece@ =~= Seq::empty());
    assert(bytes@.take(0) =~= Seq::empty());
    while i < bytes.len()
        invariant
            i <= bytes@.len(),
            pieces(bytes@.take(i as int)).len() == out@.len() + 1,
            pieces(bytes@.take(i as int)).last() == piece@,
            forall|k: int|
                0 <= k < out@.len() ==> (#[trigger] out@[k])@ == pieces(bytes@.take(i as int))[k],
        decreases bytes@.len() - i,
    {
        assert(bytes@.take(i + 1).drop_last() =~= bytes@.take(i as int));
        if bytes[i] == 0 {
            out.push(piece);
            piece = Vec::new();
            assert(piece@ =~= Seq::empty());
        } else {
            piece.push(bytes[i]);
        }
        i = i + 1;
    }
    assert(bytes@.take(i as int) =~= bytes@);
    out.push(piece);
    out
}

/// Paths tracked by git under the directory it ran in, in lower case for case-insensitive
/// comparison against Lore paths; or why they could not be listed.
pub fn snapshot_tracked(output: &GitOutput) -> (r: Result<StringHashSet, String>)
    ensures
        match r {
            Ok(paths) => output.success && paths@ == tracked_paths(output.stdout@),
            Err(message) => !output.success && message@ == listing_failure(
                output.status@,
                utf8_lossy(output.stderr@),
            ),
        },
{
    if !output.success {
        let text = from_utf8_lossy(output.stderr.as_slice());
        return Err(failure_message(output.status.as_str(), text.as_str()));
    }
    let listed = split_pieces(output.stdout.as_slice());
    let ghost all = pieces(output.stdout@);
    let mut paths = StringHashSet::new();
    let mut i: usize = 0;
    while i < listed.len()
        invariant
            i <= listed@.len(),
            all == pieces(output.stdout@),
            listed@.len() == all.len(),
            forall|k: int| 0 <= k < listed@.len() ==> (#[trigger] listed@[k])@ == all[k],
            forall|p: Seq<char>| #[trigger]
                paths@.contains(p) <==> exists|k: int|
                    0 <= k < i && (#[trigger] all[k]).len() > 0 && p == compared_path(all[k]),
        decreases listed@.len() - i,
    {
        let ghost before = paths@;
        if listed[i].len() > 0 {
            let text = from_utf8_lossy(listed[i].as_slice());
            paths.insert(to_lowercase(text.as_str()));
        }
        i = i + 1;
        assert forall|p: Seq<char>| #[trigger]
            paths@.contains(p) <==> exists|k: int|
                0 <= k < i && (#[trigger] all[k]).len() > 0 && p == compared_path(all[k]) by {
            if before.contains(p) {
                let k = choose|k: int|
                    0 <= k < i - 1 && (#[trigger] all[k]).len() > 0 && p == compared_path(all[k]);
                assert(all[k].len() > 0);
            }
            if exists|k: int|
                0 <= k < i && (#[trigger] all[k]).len() > 0 && p == compared_path(all[k]) {
                let k = choose|k: int|
                    0 <= k < i && (#[trigger] all[k]).len() > 0 && p == compared_path(all[k]);
                if k < i - 1 {
                    assert(before.contains(p));
                }
            }
        }
    }
    assert(paths@ =~= tracked_paths(output.stdout@));
    Ok(paths)
}

/// Why the paths could not be listed, given how `git` ended and what it complained of.
pub open spec fn listing_failure(status: Seq<char>, complaint: Seq<char>) -> Seq<char> {
    "git ls-files failed ("@ + status + "): "@ + trimmed(complaint)
}

/// Why the paths could not be listed, given how `git` ended and what it complained of.
pub fn failure_message(status: &str, complaint: &str) -> (r: String)
    ensures
        r@ == listing_failure(status@, complaint@),
{
    let mut message = "git ls-files failed (".to_owned();
    message.append(status);
    message.append("): ");
    message.append(trim_text(complaint).as_str());
    message
}

/// Where a working tree covers the workspace and could be listed, a path is tracked exactly when
/// it equals a listed one without regard to case; otherwise no path is.
pub proof fn law_guard_tracks_listed_paths(
    ancestors: Seq<DotGit>,
    output: Option<GitOutput>,
    relative: Seq<char>,
)
    ensures
        is_tracked(detected(ancestors, output), relative) <==> {
            &&& is_covered(ancestors)
            &&& output matches Some(output)
            &&& output.success
            &&& exists|i: int|
                0 <= i < pieces(output.stdout@).len() && (#[trigger] pieces(output.stdout@)[i]).len()
                    > 0 && lowercased(relative) == compared_path(pieces(output.stdout@)[i])
        },
{
}

/// A listing of paths as `git ls-files -z` writes it: each path, followed by a zero byte.
pub open spec fn written_listing(paths: Seq<Seq<u8>>) -> Seq<u8>
    decreases paths.len(),
{
    if paths.len() == 0 {
        Seq::empty()
    } else {
        written_listing(paths.drop_last()) + paths.last() + seq![0u8]
    }
}

/// A piece without a zero byte, behind a listing that ends in one or is empty, is the last piece.
proof fn lemma_pieces_grow(before: Seq<u8>, path: Seq<u8>)
    requires
        forall|i: int| 0 <= i < path.len() ==> #[trigger] path[i] != 0,
        pieces(before).len() > 0,
        pieces(before).last() == Seq::<u8>::empty(),
    ensures
        pieces(before + path) == pieces(before).drop_last().push(path),
    decreases path.len(),
{
    let all = before + path;
    if path.len() == 0 {
        assert(all =~= before);
        assert(path =~= Seq::empty());
        assert(pieces(before).drop_last().push(path) =~= pieces(before));
    } else {
        assert forall|i: int| 0 <= i < path.drop_last().len() implies #[trigger] path.drop_last()[i]
            != 0 by {
            assert(path[i] != 0);
        }
        lemma_pieces_grow(before, path.drop_last());
        assert(all.drop_last() =~= before + path.drop_last());
        assert(all.last() == path[path.len() - 1]);
        assert(path.drop_last().push(path.last()) =~= path);
        assert(pieces(before).drop_last().push(path.drop_last()).drop_last()
            =~= pieces(before).drop_last());
    }
}

/// A listing is cut at its zero bytes and nowhere else: the pieces are the paths that were written,
/// and an empty one behind the last zero byte.
pub proof fn law_listing_is_cut_at_zero_bytes(paths: Seq<Seq<u8>>)
    requires
        forall|i: int, j: int|
            0 <= i < paths.len() && 0 <= j < paths[i].len() ==> #[trigger] paths[i][j] != 0,
    ensures
        pieces(written_listing(paths)) == paths.push(Seq::<u8>::empty()),
    decreases paths.len(),
{
    if paths.len() == 0 {
        assert(pieces(written_listing(paths)) =~= paths.push(Seq::<u8>::empty()));
    } else {
        let earlier = paths.drop_last();
        let before = written_listing(earlier);
        let path = paths.last();
        assert forall|i: int, j: int|
            0 <= i < earlier.len() && 0 <= j < earlier[i].len() implies #[trigger] earlier[i][j]
            != 0 by {
            assert(paths[i][j] != 0);
        }
        law_listing_is_cut_at_zero_bytes(earlier);
        assert forall|j: int| 0 <= j < path.len() implies #[trigger] path[j] != 0 by {
            assert(paths[paths.len() - 1][j] != 0);
        }
        lemma_pieces_grow(before, path);
        let all = before + path + seq![0u8];
        assert(all.drop_last() =~= before + path);
        assert(all.last() == 0);
        assert(pieces(before).drop_last() =~= earlier);
        assert(earlier.push(path) =~= paths);
    }
}

/// What git lists is what the guard tracks: of a listing that writes some nonempty paths, each is
/// tracked, whatever else its bytes are, and a path is tracked only when it equals one of them
/// without regard to case.
pub proof fn law_written_paths_are_tracked(
    ancestors: Seq<DotGit>,
    output: GitOutput,
    paths: Seq<Seq<u8>>,
    relative: Seq<char>,
)
    requires
        exists|i: int| 0 <= i < ancestors.len() && #[trigger] ancestors[i] != DotGit::Missing,
        output.success,
        output.stdout@ == written_listing(paths),
        forall|i: int| 0 <= i < paths.len() ==> (#[trigger] paths[i]).len() > 0,
        forall|i: int, j: int|
            0 <= i < paths.len() && 0 <= j < paths[i].len() ==> #[trigger] paths[i][j] != 0,
    ensures
        is_tracked(detected(ancestors, Some(output)), relative) <==> exists|i: int|
            0 <= i < paths.len() && lowercased(relative) == lowercased(
                utf8_lossy(#[trigger] paths[i]),
            ),
{
    law_listing_is_cut_at_zero_bytes(paths);
    let cut = pieces(written_listing(paths));
    if is_tracked(detected(ancestors, Some(output)), relative) {
        let i = choose|i: int|
            0 <= i < cut.len() && (#[trigger] cut[i]).len() > 0 && lowercased(relative)
                == compared_path(cut[i]);
        assert(cut[i] == paths[i]);
    }
    if exists|i: int|
        0 <= i < paths.len() && lowercased(relative) == lowercased(
            utf8_lossy(#[trigger] paths[i]),
        ) {
        let i = choose|i: int|
            0 <= i < paths.len() && lowercased(relative) == lowercased(
                utf8_lossy(#[trigger] paths[i]),
            );
        assert(cut[i] == paths[i]);
        assert(cut[i].len() > 0);
    }
}

/// The guard is absent exactly where no directory at or above the root holds `.git`, whether a file
/// or a directory; where one does and git could not be run or failed, it is unavailable; and
/// neither tracks anything.
pub proof fn law_guard_is_found_or_said_to_be_missing(
    ancestors: Seq<DotGit>,
    output: Option<GitOutput>,
    relative: Seq<char>,
)
    ensures
        detected(ancestors, output) is Absent <==> forall|i: int|
            0 <= i < ancestors.len() ==> #[trigger] ancestors[i] == DotGit::Missing,
        detected(ancestors, output) is Unavailable <==> {
            &&& exists|i: int|
                0 <= i < ancestors.len() && (#[trigger] ancestors[i] == DotGit::File || ancestors[i]
                    == DotGit::Directory)
            &&& output matches Some(output) ==> !output.success
        },
        !(detected(ancestors, output) is Listed) ==> !is_tracked(
            detected(ancestors, output),
            relative,
        ),
{
}

/// Whether a path is tracked does not depend on the case it is written in.
pub proof fn law_tracking_disregards_case(presence: PresenceView, a: Seq<char>, b: Seq<char>)
    requires
        lowercased(a) == lowercased(b),
    ensures
        is_tracked(presence, a) == is_tracked(presence, b),
{
}

/// A failure names how git ended and what it complained of.
pub proof fn law_failure_names_status_and_complaint(status: Seq<char>, complaint: Seq<char>)
    ensures
        contains_text(listing_failure(status, complaint), status),
        contains_text(listing_failure(status, complaint), trimmed(complaint)),
        has_prefix(listing_failure(status, complaint), "git ls-files failed ("@),
{
    let start = "git ls-files failed ("@;
    let middle = "): "@;
    let message = listing_failure(status, complaint);
    lemma_contains_middle(start, status, middle + trimmed(complaint));
    assert(start + status + (middle + trimmed(complaint)) =~= message);
    lemma_contains_middle(start + status + middle, trimmed(complaint), Seq::empty());
    assert(start + status + middle + trimmed(complaint) + Seq::<char>::empty() =~= message);
    assert(message.take(start.len() as int) =~= start);
}

} // verus!
