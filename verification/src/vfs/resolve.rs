//! Path resolution: from a repository-relative path to the node that holds its content.
//!
//! The layers are searched in order and the first live match is the result. Link nodes are
//! followed to the source that holds the content, and a node that is staged for deletion is
//! passed over.

use crate::vfs::tree::{Node, NodeID, NodeLink, ResolvedNode, Source, ROOT_NODE};
use vstd::prelude::*;

verus! {

/// How a host answers what a resolution asks of it. A failure to answer is `None`.
pub struct Lookups {
    /// Where a path leads within a layer.
    pub link: spec_fn(Source, Seq<char>) -> Option<NodeLink>,
    /// The source that a link of a layer leads into.
    pub follow: spec_fn(Source, NodeLink) -> Option<Source>,
    /// A node of a source.
    pub node: spec_fn(Source, NodeID) -> Option<Node>,
}

/// The match for a path within one layer, if it has a live one.
pub open spec fn found_in(host: Lookups, layer: Source, path: Seq<char>) -> Option<ResolvedNode> {
    if path.len() == 0 {
        match (host.node)(layer, ROOT_NODE) {
            Some(node) => Some(ResolvedNode { source: layer, node, node_id: ROOT_NODE }),
            None => None,
        }
    } else {
        match (host.link)(layer, path) {
            Some(link) if link.valid => match (host.follow)(layer, link) {
                Some(source) => live_node(host, source, link.node),
                None => None,
            },
            _ => None,
        }
    }
}

/// A node of a source, unless it is staged for deletion.
pub open spec fn live_node(host: Lookups, source: Source, node_id: NodeID) -> Option<
    ResolvedNode,
> {
    match (host.node)(source, node_id) {
        Some(node) if !node.staged_delete => Some(ResolvedNode { source, node, node_id }),
        _ => None,
    }
}

/// The match for a path in the first layer from `from` on that has one.
pub open spec fn first_found(
    host: Lookups,
    layers: Seq<Source>,
    path: Seq<char>,
    from: int,
) -> Option<ResolvedNode>
    decreases layers.len() - from,
{
    if from >= layers.len() {
        None
    } else {
        match found_in(host, layers[from], path) {
            Some(resolved) => Some(resolved),
            None => first_found(host, layers, path, from + 1),
        }
    }
}

/// What a resolution asks of the host next, or what it came to.
#[derive(Debug, Clone, Copy)]
pub enum ResolveStep {
    /// Load the root node of a layer.
    LoadRoot { layer: usize },
    /// Find where the path leads within a layer.
    FindLink { layer: usize },
    /// Find the source that the link of a layer leads into.
    FollowLink { layer: usize, link: NodeLink },
    /// Load a node of a source.
    LoadNode { layer: usize, source: Source, node: NodeID },
    /// Nothing more to ask.
    Finished { found: Option<ResolvedNode> },
}

/// What the host answered to a step; `None` where it failed.
#[derive(Debug, Clone, Copy)]
pub enum ResolveAnswer {
    Link { link: Option<NodeLink> },
    Source { source: Option<Source> },
    Node { node: Option<Node> },
}

/// A resolution under way.
pub struct Resolution {
    layers: Vec<Source>,
    at_root: bool,
    step: ResolveStep,
}

/// What a [`Resolution`] holds.
pub struct ResolutionView {
    pub layers: Seq<Source>,
    pub at_root: bool,
    pub step: ResolveStep,
}

impl View for Resolution {
    type V = ResolutionView;

    closed spec fn view(&self) -> ResolutionView {
        ResolutionView { layers: self.layers@, at_root: self.at_root, step: self.step }
    }
}

/// The layer that a step is about.
pub open spec fn step_layer(step: ResolveStep) -> Option<usize> {
    match step {
        ResolveStep::LoadRoot { layer } => Some(layer),
        ResolveStep::FindLink { layer } => Some(layer),
        ResolveStep::FollowLink { layer, .. } => Some(layer),
        ResolveStep::LoadNode { layer, .. } => Some(layer),
        ResolveStep::Finished { .. } => None,
    }
}

/// Whether the step of a resolution is about a layer it has, and a link it follows is valid.
pub open spec fn resolution_fits(v: ResolutionView) -> bool {
    &&& v.layers.len() <= usize::MAX
    &&& step_layer(v.step) matches Some(layer) ==> layer < v.layers.len()
    &&& v.step is LoadRoot ==> v.at_root
    &&& v.step is FindLink || v.step is FollowLink || v.step is LoadNode ==> !v.at_root
    &&& v.step matches ResolveStep::FollowLink { link, .. } ==> link.valid
}

/// The step with which the search of a layer starts.
pub open spec fn layer_step(layers: Seq<Source>, at_root: bool, layer: int) -> ResolveStep {
    if layer >= layers.len() {
        ResolveStep::Finished { found: None }
    } else if at_root {
        ResolveStep::LoadRoot { layer: layer as usize }
    } else {
        ResolveStep::FindLink { layer: layer as usize }
    }
}

/// The step that follows an answer. An answer to something else changes nothing.
pub open spec fn step_after(v: ResolutionView, answer: ResolveAnswer) -> ResolveStep {
    match (v.step, answer) {
        (ResolveStep::LoadRoot { layer }, ResolveAnswer::Node { node }) => match node {
            Some(node) => ResolveStep::Finished {
                found: Some(
                    ResolvedNode { source: v.layers[layer as int], node, node_id: ROOT_NODE },
                ),
            },
            None => layer_step(v.layers, v.at_root, layer + 1),
        },
        (ResolveStep::FindLink { layer }, ResolveAnswer::Link { link }) => match link {
            Some(link) if link.valid => ResolveStep::FollowLink { layer, link },
            _ => layer_step(v.layers, v.at_root, layer + 1),
        },
        (ResolveStep::FollowLink { layer, link }, ResolveAnswer::Source { source }) => match source {
            Some(source) => ResolveStep::LoadNode { layer, source, node: link.node },
            None => layer_step(v.layers, v.at_root, layer + 1),
        },
        (
            ResolveStep::LoadNode { layer, source, node: node_id },
            ResolveAnswer::Node { node },
        ) => match node {
            Some(node) if !node.staged_delete => ResolveStep::Finished {
                found: Some(ResolvedNode { source, node, node_id }),
            },
            _ => layer_step(v.layers, v.at_root, layer + 1),
        },
        _ => v.step,
    }
}

impl Resolution {
    /// Whether the resolution is one that [`resolve`] began.
    pub closed spec fn well_formed(&self) -> bool {
        resolution_fits(self@)
    }

    /// The step with which the search of a layer starts.
    fn enter(&self, layer: usize) -> (r: ResolveStep)
        ensures
            r == layer_step(self@.layers, self@.at_root, layer as int),
    {
        if layer >= self.layers.len() {
            ResolveStep::Finished { found: None }
        } else if self.at_root {
            ResolveStep::LoadRoot { layer }
        } else {
            ResolveStep::FindLink { layer }
        }
    }

    /// What to ask of the host next, or what the resolution came to.
    pub fn step(&self) -> (r: ResolveStep)
        ensures
            r == self@.step,
    {
        self.step
    }

    /// The layer with the given index.
    pub fn layer(&self, layer: usize) -> (r: Option<Source>)
        ensures
            r == if layer < self@.layers.len() {
                Some(self@.layers[layer as int])
            } else {
                None
            },
    {
        if layer < self.layers.len() {
            Some(self.layers[layer])
        } else {
            None
        }
    }

    /// Take the host's answer to the current step.
    pub fn answer(&mut self, answer: ResolveAnswer)
        requires
            old(self).well_formed(),
        ensures
            final(self).well_formed(),
            final(self)@ == (ResolutionView { step: step_after(old(self)@, answer), ..old(self)@ }),
    {
        let step = match (self.step, answer) {
            (ResolveStep::LoadRoot { layer }, ResolveAnswer::Node { node }) => match node {
                Some(node) => ResolveStep::Finished {
                    found: Some(
                        ResolvedNode { source: self.layers[layer], node, node_id: ROOT_NODE },
                    ),
                },
                None => self.enter(layer + 1),
            },
            (ResolveStep::FindLink { layer }, ResolveAnswer::Link { link }) => match link {
                Some(link) if link.valid => ResolveStep::FollowLink { layer, link },
                _ => self.enter(layer + 1),
            },
            (
                ResolveStep::FollowLink { layer, link },
                ResolveAnswer::Source { source },
            ) => match source {
                Some(source) => ResolveStep::LoadNode { layer, source, node: link.node },
                None => self.enter(layer + 1),
            },
            (
                ResolveStep::LoadNode { layer, source, node: node_id },
                ResolveAnswer::Node { node },
            ) => match node {
                Some(node) if !node.staged_delete => ResolveStep::Finished {
                    found: Some(ResolvedNode { source, node, node_id }),
                },
                _ => self.enter(layer + 1),
            },
            _ => self.step,
        };
        self.step = step;
    }
}

/// Begin to resolve a path over the given layers. The empty path resolves to the root of a layer.
pub fn resolve(layers: &[Source], relative_path: &str) -> (r: Resolution)
    ensures
        r.well_formed(),
        r@ == begun(layers@, relative_path@),
{
    let at_root = relative_path.is_empty();
    let layers = vstd::slice::slice_to_vec(layers);
    assert(layers.len() <= usize::MAX);
    let mut r = Resolution {
        layers,
        at_root,
        step: ResolveStep::Finished { found: None },
    };
    r.step = r.enter(0);
    r
}

/// A resolution before its first answer.
pub open spec fn begun(layers: Seq<Source>, path: Seq<char>) -> ResolutionView {
    ResolutionView {
        layers,
        at_root: path.len() == 0,
        step: layer_step(layers, path.len() == 0, 0),
    }
}

/// The host's answer to the step of a resolution of `path`.
pub open spec fn answered(host: Lookups, v: ResolutionView, path: Seq<char>) -> ResolveAnswer {
    match v.step {
        ResolveStep::LoadRoot { layer } => ResolveAnswer::Node {
            node: (host.node)(v.layers[layer as int], ROOT_NODE),
        },
        ResolveStep::FindLink { layer } => ResolveAnswer::Link {
            link: (host.link)(v.layers[layer as int], path),
        },
        ResolveStep::FollowLink { layer, link } => ResolveAnswer::Source {
            source: (host.follow)(v.layers[layer as int], link),
        },
        ResolveStep::LoadNode { layer, source, node } => ResolveAnswer::Node {
            node: (host.node)(source, node),
        },
        ResolveStep::Finished { .. } => ResolveAnswer::Node { node: None },
    }
}

/// How many answers a resolution can still take.
pub open spec fn steps_left(v: ResolutionView) -> int {
    match v.step {
        ResolveStep::LoadRoot { layer } => 3 * (v.layers.len() - layer),
        ResolveStep::FindLink { layer } => 3 * (v.layers.len() - layer),
        ResolveStep::FollowLink { layer, .. } => 3 * (v.layers.len() - layer) - 1,
        ResolveStep::LoadNode { layer, .. } => 3 * (v.layers.len() - layer) - 2,
        ResolveStep::Finished { .. } => 0,
    }
}

/// What a resolution of `path` comes to when a host answers every step of it.
pub open spec fn outcome(host: Lookups, v: ResolutionView, path: Seq<char>) -> Option<ResolvedNode>
    decreases steps_left(v),
    when resolution_fits(v)
{
    match v.step {
        ResolveStep::Finished { found } => found,
        _ => outcome(
            host,
            ResolutionView { step: step_after(v, answered(host, v, path)), ..v },
            path,
        ),
    }
}

/// What a resolution is to come to from where it stands.
spec fn expected(host: Lookups, v: ResolutionView, path: Seq<char>) -> Option<ResolvedNode> {
    match v.step {
        ResolveStep::LoadRoot { layer } => first_found(host, v.layers, path, layer as int),
        ResolveStep::FindLink { layer } => first_found(host, v.layers, path, layer as int),
        ResolveStep::FollowLink { layer, link } => {
            let here = match (host.follow)(v.layers[layer as int], link) {
                Some(source) => live_node(host, source, link.node),
                None => None,
            };
            match here {
                Some(resolved) => Some(resolved),
                None => first_found(host, v.layers, path, layer + 1),
            }
        },
        ResolveStep::LoadNode { layer, source, node } => match live_node(host, source, node) {
            Some(resolved) => Some(resolved),
            None => first_found(host, v.layers, path, layer + 1),
        },
        ResolveStep::Finished { found } => found,
    }
}

proof fn lemma_outcome_is_expected(host: Lookups, v: ResolutionView, path: Seq<char>)
    requires
        resolution_fits(v),
        v.at_root == (path.len() == 0),
    ensures
        outcome(host, v, path) == expected(host, v, path),
    decreases steps_left(v),
{
    reveal_with_fuel(first_found, 2);
    if v.step !is Finished {
        let next = ResolutionView { step: step_after(v, answered(host, v, path)), ..v };
        lemma_outcome_is_expected(host, next, path);
    }
}

/// A resolution ends at the first layer that holds a live match for the path, whatever the host
/// answers, and at nothing where no layer holds one.
pub proof fn law_resolve_finds_first_live_match(
    host: Lookups,
    layers: Seq<Source>,
    path: Seq<char>,
)
    requires
        layers.len() <= usize::MAX,
    ensures
        ({
            let found = outcome(host, begun(layers, path), path);
            &&& found is Some ==> exists|i: int|
                0 <= i < layers.len() && found == #[trigger] found_in(host, layers[i], path)
                    && forall|k: int|
                    0 <= k < i ==> #[trigger] found_in(host, layers[k], path) is None
            &&& found is None ==> forall|k: int|
                0 <= k < layers.len() ==> #[trigger] found_in(host, layers[k], path) is None
        }),
{
    lemma_outcome_is_expected(host, begun(layers, path), path);
    lemma_first_found(host, layers, path, 0);
}

proof fn lemma_first_found(host: Lookups, layers: Seq<Source>, path: Seq<char>, from: int)
    requires
        0 <= from <= layers.len(),
    ensures
        ({
            let found = first_found(host, layers, path, from);
            &&& found is Some ==> exists|i: int|
                from <= i < layers.len() && found == #[trigger] found_in(host, layers[i], path)
                    && forall|k: int|
                    from <= k < i ==> #[trigger] found_in(host, layers[k], path) is None
            &&& found is None ==> forall|k: int|
                from <= k < layers.len() ==> #[trigger] found_in(host, layers[k], path) is None
        }),
    decreases layers.len() - from,
{
    if from < layers.len() {
        let here = found_in(host, layers[from], path);
        if here is None {
            lemma_first_found(host, layers, path, from + 1);
        }
    }
}

/// A path below the root never resolves to a node that is staged for deletion.
pub proof fn law_resolve_skips_staged_deletes(
    host: Lookups,
    layers: Seq<Source>,
    path: Seq<char>,
)
    requires
        layers.len() <= usize::MAX,
        path.len() > 0,
    ensures
        outcome(host, begun(layers, path), path) matches Some(resolved)
            ==> !resolved.node.staged_delete,
{
    law_resolve_finds_first_live_match(host, layers, path);
}

} // verus!
