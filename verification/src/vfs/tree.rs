//! The entries and nodes that a projected tree is made of.
//!
//! All paths are repository-relative: forward-slash separated, with no leading slash. The empty
//! string denotes the workspace root.

use vstd::prelude::*;

verus! {

/// Identifies a node within one state of a repository.
pub type NodeID = u64;

/// The node that every tree starts from.
pub const ROOT_NODE: NodeID = 0;

/// Identifies a repository that the host has open.
pub type RepositoryId = u64;

/// Identifies a state of a repository that the host has loaded.
pub type StateId = u64;

/// Where a node is looked up and where its content comes from: a repository in one of its states.
/// The layers of a workspace are sources too.
#[derive(Debug, Clone, Copy, PartialEq, Eq, Structural)]
pub struct Source {
    pub repository: RepositoryId,
    pub state: StateId,
}

/// The layers of a workspace: the base layer, and one on top of it where there is one.
pub open spec fn layers_of(base: Source, extra_layer: Option<Source>) -> Seq<Source> {
    match extra_layer {
        Some(layer) => seq![base, layer],
        None => seq![base],
    }
}

/// The layers of a workspace.
pub fn workspace_layers(base: Source, extra_layer: Option<Source>) -> (r: Vec<Source>)
    ensures
        r@ == layers_of(base, extra_layer),
{
    let mut layers: Vec<Source> = Vec::new();
    layers.push(base);
    if let Some(layer) = extra_layer {
        layers.push(layer);
    }
    layers
}

/// The hash under which content is stored.
#[derive(Debug, Clone, Copy)]
pub struct ContentHash {
    pub data: [u8; 32],
}

impl View for ContentHash {
    type V = Seq<u8>;

    open spec fn view(&self) -> Seq<u8> {
        self.data@
    }
}

/// Whether every byte of a hash is zero, which stands for "no content".
pub open spec fn all_zero(hash: Seq<u8>) -> bool {
    forall|i: int| 0 <= i < hash.len() ==> hash[i] == 0
}

impl ContentHash {
    /// Whether the hash stands for "no content".
    pub fn is_zero(&self) -> (r: bool)
        ensures
            r == all_zero(self@),
    {
        let mut i: usize = 0;
        while i < 32
            invariant
                i <= 32,
                forall|k: int| 0 <= k < i ==> self@[k] == 0,
            decreases 32 - i,
        {
            if self.data[i] != 0 {
                assert(self@[i as int] != 0);
                return false;
            }
            i = i + 1;
        }
        true
    }

    /// Whether two hashes are the same.
    pub fn is_same(&self, other: &ContentHash) -> (r: bool)
        ensures
            r == (self@ == other@),
    {
        let mut i: usize = 0;
        while i < 32
            invariant
                i <= 32,
                forall|k: int| 0 <= k < i ==> self@[k] == other@[k],
            decreases 32 - i,
        {
            if self.data[i] != other.data[i] {
                assert(self@[i as int] != other@[i as int]);
                return false;
            }
            i = i + 1;
        }
        assert(self@ =~= other@);
        true
    }
}

/// A node as a state records it.
#[derive(Debug, Clone, Copy)]
pub struct Node {
    pub directory: bool,
    pub size: u64,
    /// Staged for deletion: no longer part of the tree.
    pub staged_delete: bool,
    /// Recorded as deleted in the working tree.
    pub dirty_delete: bool,
    pub hash: ContentHash,
}

/// Where a path leads within a state; an invalid link leads nowhere.
#[derive(Debug, Clone, Copy, PartialEq, Eq, Structural)]
pub struct NodeLink {
    pub valid: bool,
    pub node: NodeID,
}

/// Kind of a filesystem entry surfaced by the virtual file system.
#[derive(Debug, Clone, Copy, PartialEq, Eq, Structural)]
pub enum EntryKind {
    File,
    Directory,
}

/// The kind of a node.
pub open spec fn node_kind(node: Node) -> EntryKind {
    if node.directory {
        EntryKind::Directory
    } else {
        EntryKind::File
    }
}

/// A repository-relative path resolved to a concrete node, following any link nodes into the
/// repository that actually holds the content.
#[derive(Debug, Clone, Copy)]
pub struct ResolvedNode {
    pub source: Source,
    pub node: Node,
    pub node_id: NodeID,
}

impl ResolvedNode {
    /// Whether the path is a directory or a file.
    pub fn kind(&self) -> (r: EntryKind)
        ensures
            r == node_kind(self.node),
    {
        if self.node.directory {
            EntryKind::Directory
        } else {
            EntryKind::File
        }
    }

    /// The size of the content in bytes.
    pub fn size(&self) -> (r: u64)
        ensures
            r == self.node.size,
    {
        self.node.size
    }

    /// The timestamp of the revision that the node resolved into, which after a link may differ
    /// from that of the layer it was looked up in: the one its metadata gives, or else the current
    /// time.
    pub fn revision_timestamp_ms(&self, metadata: Option<u64>, now_ms: u64) -> (r: u64)
        ensures
            r == timestamp_or(metadata, now_ms),
    {
        revision_timestamp_ms(metadata, now_ms)
    }
}

/// The timestamp that revision metadata gives, or the current time where it cannot be read.
pub open spec fn timestamp_or(metadata: Option<u64>, now_ms: u64) -> u64 {
    match metadata {
        Some(timestamp) => timestamp,
        None => now_ms,
    }
}

/// The timestamp of a revision in milliseconds since the Unix epoch: the one its metadata gives,
/// or else the current time.
pub fn revision_timestamp_ms(metadata: Option<u64>, now_ms: u64) -> (r: u64)
    ensures
        r == timestamp_or(metadata, now_ms),
{
    match metadata {
        Some(timestamp) => timestamp,
        None => now_ms,
    }
}

/// The current time in milliseconds since the Unix epoch, from what the clock says has passed
/// since then; zero for a clock that stands before it.
pub fn now_ms(since_epoch: Option<u128>) -> (r: u64)
    ensures
        r == match since_epoch {
            Some(millis) => (millis % 0x1_0000_0000_0000_0000) as u64,
            None => 0,
        },
{
    match since_epoch {
        Some(millis) => {
            assert(millis as u64 == millis % 0x1_0000_0000_0000_0000) by (bit_vector);
            millis as u64
        },
        None => 0,
    }
}

/// A single child of a directory, resolved from Lore state.
#[derive(Debug)]
pub struct DirEntry {
    /// Leaf name (no path separators).
    pub name: String,
    pub kind: EntryKind,
    pub size: u64,
    pub node: NodeID,
    /// Modification time in milliseconds since the Unix epoch (the revision timestamp).
    pub timestamp_ms: u64,
}

/// What a [`DirEntry`] says, with its name as text.
pub struct DirEntryView {
    pub name: Seq<char>,
    pub kind: EntryKind,
    pub size: u64,
    pub node: NodeID,
    pub timestamp_ms: u64,
}

impl View for DirEntry {
    type V = DirEntryView;

    open spec fn view(&self) -> DirEntryView {
        DirEntryView {
            name: self.name@,
            kind: self.kind,
            size: self.size,
            node: self.node,
            timestamp_ms: self.timestamp_ms,
        }
    }
}

impl Clone for DirEntry {
    fn clone(&self) -> (r: DirEntry)
        ensures
            r@ == self@,
    {
        DirEntry {
            name: self.name.as_str().to_owned(),
            kind: self.kind,
            size: self.size,
            node: self.node,
            timestamp_ms: self.timestamp_ms,
        }
    }
}

/// The views of a list of entries.
pub open spec fn entry_views(entries: Seq<DirEntry>) -> Seq<DirEntryView> {
    entries.map_values(|e: DirEntry| e@)
}

/// The base layer comes first, and the one on top of it, where there is one, behind it; there is no
/// other.
pub proof fn law_base_layer_comes_first(base: Source, extra: Source)
    ensures
        layers_of(base, None).len() == 1,
        layers_of(base, None)[0] == base,
        layers_of(base, Some(extra)).len() == 2,
        layers_of(base, Some(extra))[0] == base,
        layers_of(base, Some(extra))[1] == extra,
{
}

/// A node is a directory or a file as it is recorded; a revision has the time of its metadata, and
/// the current one only where that cannot be read; and a hash stands for no content exactly when no
/// byte of it is set.
pub proof fn law_nodes_and_revisions_are_as_recorded(
    node: Node,
    timestamp_ms: u64,
    now_ms: u64,
    hash: Seq<u8>,
)
    ensures
        node_kind(node) == EntryKind::Directory <==> node.directory,
        node_kind(node) == EntryKind::File <==> !node.directory,
        timestamp_or(Some(timestamp_ms), now_ms) == timestamp_ms,
        timestamp_or(None, now_ms) == now_ms,
        all_zero(hash) <==> !exists|i: int| 0 <= i < hash.len() && #[trigger] hash[i] != 0,
{
}

} // verus!
