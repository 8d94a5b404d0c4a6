//! Directory enumeration: the children of a directory, merged over the layers.
//!
//! The layers are merged in order, and the first layer to provide a name wins.

use crate::vfs::tree::{
    entry_views, node_kind, DirEntry, DirEntryView, EntryKind, Node, NodeID, NodeLink, Source,
    ROOT_NODE,
};
use vstd::hash_set::StringHashSet;
use vstd::prelude::*;

verus! {

/// A child of a directory as its layer records it.
#[derive(Debug)]
pub struct Child {
    pub name: String,
    pub node: NodeID,
}

/// What a [`Child`] says, with its name as text.
pub struct ChildView {
    pub name: Seq<char>,
    pub node: NodeID,
}

impl View for Child {
    type V = ChildView;

    open spec fn view(&self) -> ChildView {
        ChildView { name: self.name@, node: self.node }
    }
}

/// The views of a list of children.
pub open spec fn child_views(children: Seq<Child>) -> Seq<ChildView> {
    children.map_values(|c: Child| c@)
}

/// How a host answers what an enumeration asks of it. A failure to answer is `None`.
pub struct Directories {
    /// Where a path leads within a layer.
    pub link: spec_fn(Source, Seq<char>) -> Option<NodeLink>,
    /// The timestamp of the revision that a layer shows.
    pub timestamp: spec_fn(Source) -> u64,
    /// The children of a directory of a layer, without deleted nodes and links.
    pub children: spec_fn(Source, NodeID) -> Option<Seq<ChildView>>,
    /// A node of a layer.
    pub node: spec_fn(Source, NodeID) -> Option<Node>,
}

/// The entry of a child whose node is known.
pub open spec fn child_entry(child: ChildView, node: Node, timestamp_ms: u64) -> DirEntryView {
    DirEntryView {
        name: child.name,
        kind: node_kind(node),
        size: node.size,
        node: child.node,
        timestamp_ms,
    }
}

/// The directory of a layer that a path denotes.
pub open spec fn base_node(host: Directories, layer: Source, path: Seq<char>) -> Option<NodeID> {
    if path.len() == 0 {
        Some(ROOT_NODE)
    } else {
        match (host.link)(layer, path) {
            Some(link) if link.valid => Some(link.node),
            _ => None,
        }
    }
}

/// The entries of those children, from `from` on, whose node the host can load.
pub open spec fn loadable(
    host: Directories,
    layer: Source,
    timestamp_ms: u64,
    children: Seq<ChildView>,
    from: int,
) -> Seq<DirEntryView>
    decreases children.len() - from,
{
    if from >= children.len() {
        Seq::empty()
    } else {
        let rest = loadable(host, layer, timestamp_ms, children, from + 1);
        match (host.node)(layer, children[from].node) {
            Some(node) => seq![child_entry(children[from], node, timestamp_ms)] + rest,
            None => rest,
        }
    }
}

/// The entries that one layer provides for a path.
pub open spec fn provided(host: Directories, layer: Source, path: Seq<char>) -> Seq<DirEntryView> {
    match base_node(host, layer, path) {
        Some(base) => match (host.children)(layer, base) {
            Some(children) => loadable(host, layer, (host.timestamp)(layer), children, 0),
            None => Seq::empty(),
        },
        None => Seq::empty(),
    }
}

/// The entries that the layers from `from` on provide for a path, layer after layer.
pub open spec fn provided_from(
    host: Directories,
    layers: Seq<Source>,
    path: Seq<char>,
    from: int,
) -> Seq<DirEntryView>
    decreases layers.len() - from,
{
    if from >= layers.len() {
        Seq::empty()
    } else {
        provided(host, layers[from], path) + provided_from(host, layers, path, from + 1)
    }
}

/// Whether an entry of that name is listed.
pub open spec fn lists_name(entries: Seq<DirEntryView>, name: Seq<char>) -> bool {
    exists|i: int| 0 <= i < entries.len() && #[trigger] entries[i].name == name
}

/// An entry added to a listing, unless one of its name is there already.
pub open spec fn joined(entries: Seq<DirEntryView>, entry: DirEntryView) -> Seq<DirEntryView> {
    if lists_name(entries, entry.name) {
        entries
    } else {
        entries.push(entry)
    }
}

/// A listing joined by more entries, one after the other.
pub open spec fn joined_all(entries: Seq<DirEntryView>, more: Seq<DirEntryView>) -> Seq<
    DirEntryView,
>
    decreases more.len(),
{
    if more.len() == 0 {
        entries
    } else {
        joined_all(joined(entries, more[0]), more.skip(1))
    }
}

/// The listing of a path: of all entries that the layers provide, the first of each name.
pub open spec fn listed(host: Directories, layers: Seq<Source>, path: Seq<char>) -> Seq<
    DirEntryView,
> {
    joined_all(Seq::empty(), provided_from(host, layers, path, 0))
}

/// What an enumeration asks of the host next.
#[derive(Debug, Clone, Copy)]
pub enum ListStep {
    /// Find where the path leads within a layer.
    FindLink { layer: usize },
    /// Read the timestamp of the revision that a layer shows.
    ReadTimestamp { layer: usize, base: NodeID },
    /// List the children of a directory of a layer.
    ListChildren { layer: usize, base: NodeID },
    /// Load the node of a child.
    LoadNode { layer: usize, position: usize, node: NodeID },
    /// Nothing more to ask.
    Finished,
}

/// What the host answered to a step; `None` where it failed.
pub enum ListAnswer {
    Link { link: Option<NodeLink> },
    Timestamp { timestamp_ms: u64 },
    Children { children: Option<Vec<Child>> },
    Node { node: Option<Node> },
}

/// What a [`ListAnswer`] says.
pub enum ListAnswerView {
    Link { link: Option<NodeLink> },
    Timestamp { timestamp_ms: u64 },
    Children { children: Option<Seq<ChildView>> },
    Node { node: Option<Node> },
}

impl View for ListAnswer {
    type V = ListAnswerView;

    open spec fn view(&self) -> ListAnswerView {
        match *self {
            ListAnswer::Link { link } => ListAnswerView::Link { link },
            ListAnswer::Timestamp { timestamp_ms } => ListAnswerView::Timestamp { timestamp_ms },
            ListAnswer::Children { children } => ListAnswerView::Children {
                children: match children {
                    Some(children) => Some(child_views(children@)),
                    None => None,
                },
            },
            ListAnswer::Node { node } => ListAnswerView::Node { node },
        }
    }
}

/// An enumeration under way.
pub struct Listing {
    layers: Vec<Source>,
    at_root: bool,
    entries: Vec<DirEntry>,
    seen: StringHashSet,
    timestamp_ms: u64,
    children: Vec<Child>,
    step: ListStep,
}

/// What a [`Listing`] holds.
pub struct ListingView {
    pub layers: Seq<Source>,
    pub at_root: bool,
    pub entries: Seq<DirEntryView>,
    pub timestamp_ms: u64,
    pub children: Seq<ChildView>,
    pub step: ListStep,
}

impl View for Listing {
    type V = ListingView;

    closed spec fn view(&self) -> ListingView {
        ListingView {
            layers: self.layers@,
            at_root: self.at_root,
            entries: entry_views(self.entries@),
            timestamp_ms: self.timestamp_ms,
            children: child_views(self.children@),
            step: self.step,
        }
    }
}

/// Whether the step of an enumeration is about a layer and a child it has.
pub open spec fn listing_fits(v: ListingView) -> bool {
    &&& v.layers.len() <= usize::MAX
    &&& v.children.len() <= usize::MAX
    &&& match v.step {
        ListStep::FindLink { layer } => layer < v.layers.len() && !v.at_root,
        ListStep::ReadTimestamp { layer, .. } => layer < v.layers.len(),
        ListStep::ListChildren { layer, .. } => layer < v.layers.len(),
        ListStep::LoadNode { layer, position, node } => {
            &&& layer < v.layers.len()
            &&& position < v.children.len()
            &&& node == v.children[position as int].node
            &&& !lists_name(v.entries, v.children[position as int].name)
        },
        ListStep::Finished => true,
    }
}

/// The step with which the enumeration of a layer starts.
pub open spec fn layer_list_step(layers: Seq<Source>, at_root: bool, layer: int) -> ListStep {
    if layer >= layers.len() {
        ListStep::Finished
    } else if at_root {
        ListStep::ReadTimestamp { layer: layer as usize, base: ROOT_NODE }
    } else {
        ListStep::FindLink { layer: layer as usize }
    }
}

/// The step for the first child from `position` on whose name is not listed yet, or for the next
/// layer when there is none.
pub open spec fn child_step(v: ListingView, layer: int, position: int) -> ListStep
    decreases v.children.len() - position,
{
    if position >= v.children.len() {
        layer_list_step(v.layers, v.at_root, layer + 1)
    } else if lists_name(v.entries, v.children[position].name) {
        child_step(v, layer, position + 1)
    } else {
        ListStep::LoadNode {
            layer: layer as usize,
            position: position as usize,
            node: v.children[position].node,
        }
    }
}

/// The enumeration after an answer. An answer to something else changes nothing.
pub open spec fn listing_after(v: ListingView, answer: ListAnswerView) -> ListingView {
    match (v.step, answer) {
        (ListStep::FindLink { layer }, ListAnswerView::Link { link }) => match link {
            Some(link) if link.valid => ListingView {
                step: ListStep::ReadTimestamp { layer, base: link.node },
                ..v
            },
            _ => ListingView { step: layer_list_step(v.layers, v.at_root, layer + 1), ..v },
        },
        (
            ListStep::ReadTimestamp { layer, base },
            ListAnswerView::Timestamp { timestamp_ms },
        ) => ListingView { timestamp_ms, step: ListStep::ListChildren { layer, base }, ..v },
        (ListStep::ListChildren { layer, .. }, ListAnswerView::Children { children }) => match children {
            Some(children) => {
                let next = ListingView { children, ..v };
                ListingView { step: child_step(next, layer as int, 0), ..next }
            },
            None => ListingView { step: layer_list_step(v.layers, v.at_root, layer + 1), ..v },
        },
        (ListStep::LoadNode { layer, position, .. }, ListAnswerView::Node { node }) => {
            let next = match node {
                Some(node) => ListingView {
                    entries: v.entries.push(
                        child_entry(v.children[position as int], node, v.timestamp_ms),
                    ),
                    ..v
                },
                None => v,
            };
            ListingView { step: child_step(next, layer as int, position + 1), ..next }
        },
        _ => v,
    }
}

impl Listing {
    /// Whether the enumeration is one that [`enumerate`] began.
    pub closed spec fn well_formed(&self) -> bool {
        &&& listing_fits(self@)
        &&& forall|name: Seq<char>|
            #![trigger self.seen@.contains(name)]
            self.seen@.contains(name) <==> lists_name(self@.entries, name)
    }

    /// The step with which the enumeration of a layer starts.
    fn enter(&self, layer: usize) -> (r: ListStep)
        ensures
            r == layer_list_step(self@.layers, self@.at_root, layer as int),
    {
        if layer >= self.layers.len() {
            ListStep::Finished
        } else if self.at_root {
            ListStep::ReadTimestamp { layer, base: ROOT_NODE }
        } else {
            ListStep::FindLink { layer }
        }
    }

    /// The step for the first child from `from` on whose name is not listed yet.
    fn next_child(&self, layer: usize, from: usize) -> (r: ListStep)
        requires
            layer < self@.layers.len() <= usize::MAX,
            from <= self@.children.len() <= usize::MAX,
            forall|name: Seq<char>|
                #![trigger self.seen@.contains(name)]
                self.seen@.contains(name) <==> lists_name(self@.entries, name),
        ensures
            r == child_step(self@, layer as int, from as int),
            listing_fits((ListingView { step: r, ..self@ })),
    {
        let mut position: usize = from;
        while position < self.children.len()
            invariant
                layer < self@.layers.len() <= usize::MAX,
                from <= position <= self@.children.len() <= usize::MAX,
                self@.children.len() == self.children@.len(),
                forall|name: Seq<char>|
                    #![trigger self.seen@.contains(name)]
                    self.seen@.contains(name) <==> lists_name(self@.entries, name),
                child_step(self@, layer as int, from as int) == child_step(
                    self@,
                    layer as int,
                    position as int,
                ),
            decreases self.children@.len() - position,
        {
            let child = &self.children[position];
            assert(self@.children[position as int] == child@);
            if !self.seen.contains(child.name.as_str()) {
                return ListStep::LoadNode { layer, position, node: child.node };
            }
            position = position + 1;
        }
        self.enter(layer + 1)
    }

    /// What to ask of the host next.
    pub fn step(&self) -> (r: ListStep)
        ensures
            r == self@.step,
    {
        self.step
    }

    /// The layer with the given index.
    pub fn layer(&self, layer: usize) -> (r: Option<Source>)
        ensures
            r == if layer < self@.layers.len() {
                Some(self@.layers[layer as int])
            } else {
                None
            },
    {
        if layer < self.layers.len() {
            Some(self.layers[layer])
        } else {
            None
        }
    }

    /// List an entry for the child at `position`.
    fn add_entry(&mut self, position: usize, node: Node)
        requires
            position < old(self)@.children.len(),
            old(self).well_formed(),
        ensures
            final(self)@ == (ListingView {
                entries: old(self)@.entries.push(
                    child_entry(
                        old(self)@.children[position as int],
                        node,
                        old(self)@.timestamp_ms,
                    ),
                ),
                ..old(self)@
            }),
            forall|name: Seq<char>|
                #![trigger final(self).seen@.contains(name)]
                final(self).seen@.contains(name) <==> lists_name(final(self)@.entries, name),
    {
        let ghost before = self@;
        let name = self.children[position].name.as_str().to_owned();
        let listed_name = self.children[position].name.as_str().to_owned();
        let kind = if node.directory {
            EntryKind::Directory
        } else {
            EntryKind::File
        };
        self.seen.insert(listed_name);
        self.entries.push(
            DirEntry {
                name,
                kind,
                size: node.size,
                node: self.children[position].node,
                timestamp_ms: self.timestamp_ms,
            },
        );
        let ghost entry = child_entry(before.children[position as int], node, before.timestamp_ms);
        assert(self@.entries =~= before.entries.push(entry));
        assert forall|n: Seq<char>|
            #![trigger self.seen@.contains(n)]
            self.seen@.contains(n) <==> lists_name(self@.entries, n) by {
            let last = before.entries.len() as int;
            assert(self@.entries[last].name == entry.name);
            if lists_name(before.entries, n) {
                let i = choose|i: int|
                    0 <= i < before.entries.len() && #[trigger] before.entries[i].name == n;
                assert(self@.entries[i].name == n);
            }
            if lists_name(self@.entries, n) && n != entry.name {
                let i = choose|i: int|
                    0 <= i < self@.entries.len() && #[trigger] self@.entries[i].name == n;
                assert(before.entries[i].name == n);
            }
        }
    }

    /// Take the host's answer to the current step.
    pub fn answer(&mut self, answer: ListAnswer)
        requires
            old(self).well_formed(),
        ensures
            final(self).well_formed(),
            final(self)@ == listing_after(old(self)@, answer@),
    {
        match (self.step, answer) {
            (ListStep::FindLink { layer }, ListAnswer::Link { link }) => {
                let step = match link {
                    Some(link) if link.valid => ListStep::ReadTimestamp { layer, base: link.node },
                    _ => self.enter(layer + 1),
                };
                self.step = step;
            },
            (ListStep::ReadTimestamp { layer, base }, ListAnswer::Timestamp { timestamp_ms }) => {
                self.timestamp_ms = timestamp_ms;
                self.step = ListStep::ListChildren { layer, base };
            },
            (ListStep::ListChildren { layer, .. }, ListAnswer::Children { children }) => {
                let step = match children {
                    Some(children) => {
                        self.children = children;
                        assert(self.children.len() <= usize::MAX);
                        let step = self.next_child(layer, 0);
                        step
                    },
                    None => self.enter(layer + 1),
                };
                self.step = step;
            },
            (ListStep::LoadNode { layer, position, .. }, ListAnswer::Node { node }) => {
                if let Some(node) = node {
                    self.add_entry(position, node);
                }
                let step = self.next_child(layer, position + 1);
                self.step = step;
            },
            _ => {},
        }
    }

    /// The entries listed so far; all of them once the enumeration is finished.
    pub fn into_entries(self) -> (r: Vec<DirEntry>)
        ensures
            entry_views(r@) == self@.entries,
    {
        self.entries
    }
}

/// Begin to enumerate the directory that a path denotes over the given layers. The empty path
/// enumerates the workspace root.
pub fn enumerate(layers: &[Source], relative_path: &str) -> (r: Listing)
    ensures
        r.well_formed(),
        r@ == listing_begun(layers@, relative_path@),
{
    let at_root = relative_path.is_empty();
    let layers = vstd::slice::slice_to_vec(layers);
    assert(layers.len() <= usize::MAX);
    let mut r = Listing {
        layers,
        at_root,
        entries: Vec::new(),
        seen: StringHashSet::new(),
        timestamp_ms: 0,
        children: Vec::new(),
        step: ListStep::Finished,
    };
    r.step = r.enter(0);
    assert(r@.entries =~= Seq::empty());
    assert(r@.children =~= Seq::empty());
    r
}

/// An enumeration before its first answer.
pub open spec fn listing_begun(layers: Seq<Source>, path: Seq<char>) -> ListingView {
    ListingView {
        layers,
        at_root: path.len() == 0,
        entries: Seq::empty(),
        timestamp_ms: 0,
        children: Seq::empty(),
        step: layer_list_step(layers, path.len() == 0, 0),
    }
}

/// Whether every list of children that a host hands out fits in memory.
pub open spec fn lists_fit(host: Directories) -> bool {
    forall|layer: Source, base: NodeID|
        #[trigger] (host.children)(layer, base) matches Some(children) ==> children.len()
            <= usize::MAX
}

/// The host's answer to the step of an enumeration of `path`.
pub open spec fn list_answered(host: Directories, v: ListingView, path: Seq<char>) -> ListAnswerView {
    match v.step {
        ListStep::FindLink { layer } => ListAnswerView::Link {
            link: (host.link)(v.layers[layer as int], path),
        },
        ListStep::ReadTimestamp { layer, .. } => ListAnswerView::Timestamp {
            timestamp_ms: (host.timestamp)(v.layers[layer as int]),
        },
        ListStep::ListChildren { layer, base } => ListAnswerView::Children {
            children: (host.children)(v.layers[layer as int], base),
        },
        ListStep::LoadNode { layer, node, .. } => ListAnswerView::Node {
            node: (host.node)(v.layers[layer as int], node),
        },
        ListStep::Finished => ListAnswerView::Node { node: None },
    }
}

/// How many layers are left from the step of an enumeration on.
pub open spec fn layers_left(v: ListingView) -> int {
    match v.step {
        ListStep::FindLink { layer } => v.layers.len() - layer,
        ListStep::ReadTimestamp { layer, .. } => v.layers.len() - layer,
        ListStep::ListChildren { layer, .. } => v.layers.len() - layer,
        ListStep::LoadNode { layer, .. } => v.layers.len() - layer,
        ListStep::Finished => 0,
    }
}

/// How many kinds of step are left within the layer.
pub open spec fn stages_left(v: ListingView) -> int {
    match v.step {
        ListStep::FindLink { .. } => 3,
        ListStep::ReadTimestamp { .. } => 2,
        ListStep::ListChildren { .. } => 1,
        _ => 0,
    }
}

/// How many children are left from the step of an enumeration on.
pub open spec fn children_left(v: ListingView) -> int {
    match v.step {
        ListStep::LoadNode { position, .. } => v.children.len() - position,
        _ => 0,
    }
}

/// What an enumeration of `path` lists when a host answers every step of it.
pub open spec fn list_outcome(host: Directories, v: ListingView, path: Seq<char>) -> Seq<
    DirEntryView,
>
    decreases layers_left(v), stages_left(v), children_left(v),
    when listing_fits(v) && lists_fit(host)
{
    match v.step {
        ListStep::Finished => v.entries,
        _ => {
            let next = listing_after(v, list_answered(host, v, path));
            proof {
                lemma_listing_advances(host, v, path);
            }
            list_outcome(host, next, path)
        },
    }
}

/// The step after the children before `from` is about a later child or the next layer.
proof fn lemma_child_step(v: ListingView, layer: int, from: int)
    requires
        0 <= layer < v.layers.len() <= usize::MAX,
        0 <= from <= v.children.len() <= usize::MAX,
    ensures
        listing_fits((ListingView { step: child_step(v, layer, from), ..v })),
        match child_step(v, layer, from) {
            ListStep::LoadNode { layer: l, position, .. } => l == layer && from <= position,
            step => step == layer_list_step(v.layers, v.at_root, layer + 1),
        },
    decreases v.children.len() - from,
{
    if from < v.children.len() && lists_name(v.entries, v.children[from].name) {
        lemma_child_step(v, layer, from + 1);
    }
}

/// An answer brings an enumeration nearer its end.
pub proof fn lemma_listing_advances(host: Directories, v: ListingView, path: Seq<char>)
    requires
        listing_fits(v),
        lists_fit(host),
        v.step !is Finished,
    ensures
        ({
            let next = listing_after(v, list_answered(host, v, path));
            &&& listing_fits(next)
            &&& decreases_to!(
                layers_left(v), stages_left(v), children_left(v) =>
                layers_left(next), stages_left(next), children_left(next))
        }),
{
    match v.step {
        ListStep::ListChildren { layer, base } => {
            if let Some(children) = (host.children)(v.layers[layer as int], base) {
                lemma_child_step(ListingView { children, ..v }, layer as int, 0);
            }
        },
        ListStep::LoadNode { layer, position, node } => {
            let next = match (host.node)(v.layers[layer as int], node) {
                Some(node) => ListingView {
                    entries: v.entries.push(
                        child_entry(v.children[position as int], node, v.timestamp_ms),
                    ),
                    ..v
                },
                None => v,
            };
            lemma_child_step(next, layer as int, position + 1);
        },
        _ => {},
    }
}

/// The entries that are still to join a listing from where an enumeration of `path` stands.
spec fn to_join(host: Directories, v: ListingView, path: Seq<char>) -> Seq<DirEntryView> {
    match v.step {
        ListStep::FindLink { layer } => provided_from(host, v.layers, path, layer as int),
        ListStep::ReadTimestamp { layer, base } => children_entries(
            host,
            v.layers[layer as int],
            base,
            (host.timestamp)(v.layers[layer as int]),
        ) + provided_from(host, v.layers, path, layer + 1),
        ListStep::ListChildren { layer, base } => children_entries(
            host,
            v.layers[layer as int],
            base,
            v.timestamp_ms,
        ) + provided_from(host, v.layers, path, layer + 1),
        ListStep::LoadNode { layer, position, .. } => loadable(
            host,
            v.layers[layer as int],
            v.timestamp_ms,
            v.children,
            position as int,
        ) + provided_from(host, v.layers, path, layer + 1),
        ListStep::Finished => Seq::empty(),
    }
}

/// The entries of the loadable children of a directory.
spec fn children_entries(
    host: Directories,
    layer: Source,
    base: NodeID,
    timestamp_ms: u64,
) -> Seq<DirEntryView> {
    match (host.children)(layer, base) {
        Some(children) => loadable(host, layer, timestamp_ms, children, 0),
        None => Seq::empty(),
    }
}

/// Passing over the children that are listed already changes nothing of what is to come.
proof fn lemma_skip_listed(
    host: Directories,
    v: ListingView,
    path: Seq<char>,
    layer: int,
    from: int,
)
    requires
        0 <= layer < v.layers.len() <= usize::MAX,
        0 <= from <= v.children.len() <= usize::MAX,
        v.at_root == (path.len() == 0),
    ensures
        joined_all(
            v.entries,
            to_join(host, ListingView { step: child_step(v, layer, from), ..v }, path),
        ) == joined_all(
            v.entries,
            loadable(host, v.layers[layer], v.timestamp_ms, v.children, from) + provided_from(
                host,
                v.layers,
                path,
                layer + 1,
            ),
        ),
    decreases v.children.len() - from,
{
    let later = provided_from(host, v.layers, path, layer + 1);
    if from >= v.children.len() {
        assert(Seq::<DirEntryView>::empty() + later =~= later);
        lemma_enter(host, v, path, layer + 1);
    } else if lists_name(v.entries, v.children[from].name) {
        lemma_skip_listed(host, v, path, layer, from + 1);
        let rest = loadable(host, v.layers[layer], v.timestamp_ms, v.children, from + 1);
        if let Some(node) = (host.node)(v.layers[layer], v.children[from].node) {
            let entry = child_entry(v.children[from], node, v.timestamp_ms);
            let all = seq![entry] + rest + later;
            assert(all.skip(1) =~= rest + later);
            assert(all[0] == entry);
        }
    }
}

/// Entering a layer leaves all that it and the later ones provide to come.
proof fn lemma_enter(host: Directories, v: ListingView, path: Seq<char>, layer: int)
    requires
        0 <= layer <= v.layers.len() <= usize::MAX,
        v.at_root == (path.len() == 0),
    ensures
        to_join(
            host,
            ListingView { step: layer_list_step(v.layers, v.at_root, layer), ..v },
            path,
        ) == provided_from(host, v.layers, path, layer),
{
}

proof fn lemma_list_outcome(host: Directories, v: ListingView, path: Seq<char>)
    requires
        listing_fits(v),
        lists_fit(host),
        v.at_root == (path.len() == 0),
    ensures
        list_outcome(host, v, path) == joined_all(v.entries, to_join(host, v, path)),
    decreases layers_left(v), stages_left(v), children_left(v),
{
    if v.step !is Finished {
        let next = listing_after(v, list_answered(host, v, path));
        lemma_listing_advances(host, v, path);
        lemma_list_outcome(host, next, path);
        match v.step {
            ListStep::FindLink { layer } => {
                let here = v.layers[layer as int];
                let later = provided_from(host, v.layers, path, layer + 1);
                lemma_enter(host, v, path, layer + 1);
                assert(Seq::<DirEntryView>::empty() + later =~= later);
            },
            ListStep::ListChildren { layer, base } => {
                let later = provided_from(host, v.layers, path, layer + 1);
                match (host.children)(v.layers[layer as int], base) {
                    Some(children) => {
                        lemma_skip_listed(
                            host,
                            ListingView { children, ..v },
                            path,
                            layer as int,
                            0,
                        );
                    },
                    None => {
                        lemma_enter(host, v, path, layer + 1);
                        assert(Seq::<DirEntryView>::empty() + later =~= later);
                    },
                }
            },
            ListStep::LoadNode { layer, position, node } => {
                let later = provided_from(host, v.layers, path, layer + 1);
                let rest = loadable(
                    host,
                    v.layers[layer as int],
                    v.timestamp_ms,
                    v.children,
                    position + 1,
                );
                match (host.node)(v.layers[layer as int], node) {
                    Some(node) => {
                        let entry = child_entry(v.children[position as int], node, v.timestamp_ms);
                        let all = seq![entry] + rest + later;
                        assert(all.skip(1) =~= rest + later);
                        assert(all[0] == entry);
                        let grown = ListingView { entries: v.entries.push(entry), ..v };
                        lemma_skip_listed(host, grown, path, layer as int, position + 1);
                    },
                    None => {
                        lemma_skip_listed(host, v, path, layer as int, position + 1);
                    },
                }
            },
            _ => {},
        }
    }
}

/// Whatever a host answers, an enumeration lists the first entry of each name among all that the
/// layers provide, in their order.
pub proof fn law_enumerate_merges_layers(host: Directories, layers: Seq<Source>, path: Seq<char>)
    requires
        layers.len() <= usize::MAX,
        lists_fit(host),
    ensures
        list_outcome(host, listing_begun(layers, path), path) == listed(host, layers, path),
{
    lemma_list_outcome(host, listing_begun(layers, path), path);
    lemma_enter(host, listing_begun(layers, path), path, 0);
}

/// Whether no two entries of a listing share a name.
pub open spec fn names_unique(entries: Seq<DirEntryView>) -> bool {
    forall|i: int, j: int|
        0 <= i < j < entries.len() ==> #[trigger] entries[i].name != #[trigger] entries[j].name
}

/// Whether an entry is the first of its name in `entries`.
pub open spec fn first_of_name(entries: Seq<DirEntryView>, entry: DirEntryView) -> bool {
    exists|k: int|
        0 <= k < entries.len() && #[trigger] entries[k] == entry && forall|m: int|
            0 <= m < k ==> #[trigger] entries[m].name != entry.name
}

/// A joined listing keeps what was there, and its names stay unique.
proof fn lemma_joined_all(entries: Seq<DirEntryView>, more: Seq<DirEntryView>)
    requires
        names_unique(entries),
    ensures
        names_unique(joined_all(entries, more)),
        joined_all(entries, more).len() >= entries.len(),
        forall|i: int|
            0 <= i < entries.len() ==> #[trigger] joined_all(entries, more)[i] == entries[i],
    decreases more.len(),
{
    if more.len() > 0 {
        lemma_joined(entries, more[0]);
        lemma_joined_all(joined(entries, more[0]), more.skip(1));
    }
}

/// A listing joined by one entry keeps what was there and lists the name of the entry once.
proof fn lemma_joined(entries: Seq<DirEntryView>, entry: DirEntryView)
    requires
        names_unique(entries),
    ensures
        names_unique(joined(entries, entry)),
        lists_name(joined(entries, entry), entry.name),
        joined(entries, entry).len() >= entries.len(),
        forall|i: int|
            0 <= i < entries.len() ==> #[trigger] joined(entries, entry)[i] == entries[i],
{
    if !lists_name(entries, entry.name) {
        let next = entries.push(entry);
        assert(next[entries.len() as int].name == entry.name);
        assert forall|i: int, j: int| 0 <= i < j < next.len() implies #[trigger] next[i].name
            != #[trigger] next[j].name by {
            if j == entries.len() {
                assert(entries[i].name != entry.name);
            }
        }
    }
}

/// Every name of the entries that join a listing is listed.
proof fn lemma_joined_lists(entries: Seq<DirEntryView>, more: Seq<DirEntryView>, k: int)
    requires
        names_unique(entries),
        0 <= k < more.len(),
    ensures
        lists_name(joined_all(entries, more), more[k].name),
    decreases more.len(),
{
    let next = joined(entries, more[0]);
    lemma_joined(entries, more[0]);
    if k > 0 {
        assert(more.skip(1)[k - 1] == more[k]);
        lemma_joined_lists(next, more.skip(1), k - 1);
    } else {
        lemma_joined_all(next, more.skip(1));
        let w = choose|w: int| 0 <= w < next.len() && #[trigger] next[w].name == more[0].name;
        assert(joined_all(next, more.skip(1))[w] == next[w]);
    }
}

/// An entry that joined a listing is the first of its name among those that were to join.
proof fn lemma_joined_first(entries: Seq<DirEntryView>, more: Seq<DirEntryView>, i: int)
    requires
        names_unique(entries),
        entries.len() <= i < joined_all(entries, more).len(),
    ensures
        first_of_name(more, joined_all(entries, more)[i]),
    decreases more.len(),
{
    let next = joined(entries, more[0]);
    let rest = more.skip(1);
    let all = joined_all(entries, more);
    lemma_joined(entries, more[0]);
    lemma_joined_all(next, rest);
    if i < next.len() {
        assert(all[i] == next[i]);
        assert(more[0] == all[i]);
    } else {
        lemma_joined_first(next, rest, i);
        let k = choose|k: int|
            0 <= k < rest.len() && #[trigger] rest[k] == all[i] && forall|m: int|
                0 <= m < k ==> #[trigger] rest[m].name != all[i].name;
        let w = choose|w: int| 0 <= w < next.len() && #[trigger] next[w].name == more[0].name;
        assert(all[w] == next[w]);
        assert(all[w].name != all[i].name);
        assert(more[k + 1] == all[i]);
        assert forall|m: int| 0 <= m < k + 1 implies #[trigger] more[m].name != all[i].name by {
            if m > 0 {
                assert(more[m] == rest[m - 1]);
            }
        }
    }
}

/// Whether an entry stands at `p` and no other of its name before it.
pub open spec fn first_at(entries: Seq<DirEntryView>, p: int, entry: DirEntryView) -> bool {
    &&& 0 <= p < entries.len()
    &&& entries[p] == entry
    &&& forall|m: int| 0 <= m < p ==> #[trigger] entries[m].name != entry.name
}

/// Two entries that joined a listing stand in the order in which they were to join.
proof fn lemma_joined_order(entries: Seq<DirEntryView>, more: Seq<DirEntryView>, i: int, j: int)
    requires
        names_unique(entries),
        entries.len() <= i < j < joined_all(entries, more).len(),
    ensures
        exists|p: int, q: int|
            p < q && #[trigger] first_at(more, p, joined_all(entries, more)[i])
                && #[trigger] first_at(more, q, joined_all(entries, more)[j]),
    decreases more.len(),
{
    let next = joined(entries, more[0]);
    let rest = more.skip(1);
    let all = joined_all(entries, more);
    lemma_joined(entries, more[0]);
    lemma_joined_all(next, rest);
    lemma_joined_all(entries, more);
    let w = choose|w: int| 0 <= w < next.len() && #[trigger] next[w].name == more[0].name;
    assert(all[w] == next[w]);
    if i < next.len() {
        assert(all[i] == next[i]);
        assert(first_at(more, 0, all[i]));
        lemma_joined_first(entries, more, j);
        let q = choose|q: int|
            0 <= q < more.len() && #[trigger] more[q] == all[j] && forall|m: int|
                0 <= m < q ==> #[trigger] more[m].name != all[j].name;
        assert(first_at(more, q, all[j]));
        assert(all[i].name != all[j].name);
    } else {
        lemma_joined_order(next, rest, i, j);
        let (p, q) = choose|p: int, q: int|
            p < q && #[trigger] first_at(rest, p, all[i]) && #[trigger] first_at(rest, q, all[j]);
        lemma_first_at_later(more, p, all[i]);
        lemma_first_at_later(more, q, all[j]);
        assert(first_at(more, p + 1, all[i]) && first_at(more, q + 1, all[j]));
    }
}

/// What stands first of its name behind the first entry does so with it, unless that has its name.
proof fn lemma_first_at_later(more: Seq<DirEntryView>, p: int, entry: DirEntryView)
    requires
        more.len() > 0,
        first_at(more.skip(1), p, entry),
        more[0].name != entry.name,
    ensures
        first_at(more, p + 1, entry),
{
    let rest = more.skip(1);
    assert forall|m: int| 0 <= m < p + 1 implies #[trigger] more[m].name != entry.name by {
        if m > 0 {
            assert(more[m] == rest[m - 1]);
        }
    }
}

/// A listing keeps the order in which the layers provide what it lists.
pub proof fn lemma_listing_order(
    host: Directories,
    layers: Seq<Source>,
    path: Seq<char>,
    i: int,
    j: int,
)
    requires
        0 <= i < j < listed(host, layers, path).len(),
    ensures
        exists|p: int, q: int|
            p < q && #[trigger] first_at(
                provided_from(host, layers, path, 0),
                p,
                listed(host, layers, path)[i],
            ) && #[trigger] first_at(
                provided_from(host, layers, path, 0),
                q,
                listed(host, layers, path)[j],
            ),
{
    lemma_joined_order(Seq::empty(), provided_from(host, layers, path, 0), i, j);
}

/// No name is listed twice, every name that a layer provides is listed, and the entry listed for
/// it is the first one that any layer provides.
pub proof fn law_listing_holds_first_of_each_name(
    host: Directories,
    layers: Seq<Source>,
    path: Seq<char>,
)
    ensures
        names_unique(listed(host, layers, path)),
        forall|i: int|
            0 <= i < listed(host, layers, path).len() ==> first_of_name(
                provided_from(host, layers, path, 0),
                #[trigger] listed(host, layers, path)[i],
            ),
        forall|k: int|
            0 <= k < provided_from(host, layers, path, 0).len() ==> #[trigger] lists_name(
                listed(host, layers, path),
                provided_from(host, layers, path, 0)[k].name,
            ),
{
    let all = provided_from(host, layers, path, 0);
    lemma_joined_all(Seq::empty(), all);
    assert forall|i: int| 0 <= i < listed(host, layers, path).len() implies first_of_name(
        all,
        #[trigger] listed(host, layers, path)[i],
    ) by {
        lemma_joined_first(Seq::empty(), all, i);
    }
    assert forall|k: int| 0 <= k < all.len() implies #[trigger] lists_name(
        listed(host, layers, path),
        all[k].name,
    ) by {
        lemma_joined_lists(Seq::empty(), all, k);
    }
}

} // verus!
