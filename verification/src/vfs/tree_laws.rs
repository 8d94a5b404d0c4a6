//! What listing a directory and resolving a path come to over the layers of a workspace, said of
//! what a host answers layer by layer.

use crate::vfs::listing::{
    base_node, child_entry, first_at, law_enumerate_merges_layers,
    law_listing_holds_first_of_each_name, lemma_listing_order, list_outcome, listed,
    listing_begun, lists_fit, lists_name, loadable, provided, provided_from, ChildView,
    Directories,
};
use crate::vfs::resolve::{begun, found_in, law_resolve_finds_first_live_match, outcome, Lookups};
use crate::vfs::tree::{DirEntryView, EntryKind, Node, NodeID, ResolvedNode, Source, ROOT_NODE};
use vstd::prelude::*;

verus! {

/// The directory that a path leads to in a layer: the root for the empty path, and else the node of
/// a valid link.
pub open spec fn leads_to(host: Directories, layer: Source, path: Seq<char>, base: NodeID) -> bool {
    if path.len() == 0 {
        base == ROOT_NODE
    } else {
        (host.link)(layer, path) matches Some(link) && link.valid && link.node == base
    }
}

/// Whether a layer has, at `k` among the children of the directory that a path leads to, a child
/// with a node that the host can load.
pub open spec fn layer_has(
    host: Directories,
    layer: Source,
    path: Seq<char>,
    k: int,
    child: ChildView,
    node: Node,
) -> bool {
    exists|base: NodeID|
        {
            &&& #[trigger] leads_to(host, layer, path, base)
            &&& (host.children)(layer, base) matches Some(children) && 0 <= k < children.len()
                && children[k] == child
            &&& (host.node)(layer, child.node) == Some(node)
        }
}

/// Whether an entry is the one of a child with its node in a layer: its name and node are the
/// child's, its kind and size the node's, and its time that of the layer's revision.
pub open spec fn is_entry_of(
    host: Directories,
    layer: Source,
    child: ChildView,
    node: Node,
    entry: DirEntryView,
) -> bool {
    &&& entry.name == child.name
    &&& entry.node == child.node
    &&& entry.kind == EntryKind::Directory <==> node.directory
    &&& entry.size == node.size
    &&& entry.timestamp_ms == (host.timestamp)(layer)
}

/// Whether an entry is the one of the loadable child at `k` of a layer.
pub open spec fn gives(
    host: Directories,
    layer: Source,
    path: Seq<char>,
    k: int,
    entry: DirEntryView,
) -> bool {
    exists|child: ChildView, node: Node| #[trigger]
        layer_has(host, layer, path, k, child, node) && is_entry_of(
            host,
            layer,
            child,
            node,
            entry,
        )
}

/// Whether one place comes before another: in an earlier layer, or before it in the same.
pub open spec fn comes_before(a: (int, int), b: (int, int)) -> bool {
    a.0 < b.0 || (a.0 == b.0 && a.1 < b.1)
}

/// The position among the children of the loadable one that gives the entry `p`.
spec fn child_of(
    host: Directories,
    layer: Source,
    timestamp_ms: u64,
    children: Seq<ChildView>,
    from: int,
    p: int,
) -> int
    decreases children.len() - from,
{
    if from >= children.len() {
        from
    } else if (host.node)(layer, children[from].node) is Some {
        if p == 0 {
            from
        } else {
            child_of(host, layer, timestamp_ms, children, from + 1, p - 1)
        }
    } else {
        child_of(host, layer, timestamp_ms, children, from + 1, p)
    }
}

proof fn lemma_child_of(
    host: Directories,
    layer: Source,
    timestamp_ms: u64,
    children: Seq<ChildView>,
    from: int,
)
    requires
        0 <= from <= children.len(),
    ensures
        ({
            let all = loadable(host, layer, timestamp_ms, children, from);
            &&& forall|p: int|
                0 <= p < all.len() ==> {
                    let k = #[trigger] child_of(host, layer, timestamp_ms, children, from, p);
                    &&& from <= k < children.len()
                    &&& (host.node)(layer, children[k].node) matches Some(node) && all[p]
                        == child_entry(children[k], node, timestamp_ms)
                }
            &&& forall|p: int, q: int|
                0 <= p < q < all.len() ==> #[trigger] child_of(
                    host,
                    layer,
                    timestamp_ms,
                    children,
                    from,
                    p,
                ) < #[trigger] child_of(host, layer, timestamp_ms, children, from, q)
            &&& forall|k: int|
                from <= k < children.len() && (host.node)(layer, (#[trigger] children[k]).node) is Some
                    ==> exists|p: int|
                    0 <= p < all.len() && #[trigger] child_of(
                        host,
                        layer,
                        timestamp_ms,
                        children,
                        from,
                        p,
                    ) == k
        }),
    decreases children.len() - from,
{
    if from < children.len() {
        let all = loadable(host, layer, timestamp_ms, children, from);
        let rest = loadable(host, layer, timestamp_ms, children, from + 1);
        lemma_child_of(host, layer, timestamp_ms, children, from + 1);
        let later = |p: int| child_of(host, layer, timestamp_ms, children, from + 1, p);
        let here = |p: int| child_of(host, layer, timestamp_ms, children, from, p);
        if (host.node)(layer, children[from].node) is Some {
            assert forall|p: int| 0 <= p < all.len() implies {
                let k = #[trigger] child_of(host, layer, timestamp_ms, children, from, p);
                &&& from <= k < children.len()
                &&& (host.node)(layer, children[k].node) matches Some(node) && all[p]
                    == child_entry(children[k], node, timestamp_ms)
            } by {
                if p > 0 {
                    assert(all[p] == rest[p - 1]);
                    assert(here(p) == later(p - 1));
                }
            }
            assert forall|p: int, q: int| 0 <= p < q < all.len() implies #[trigger] child_of(
                host,
                layer,
                timestamp_ms,
                children,
                from,
                p,
            ) < #[trigger] child_of(host, layer, timestamp_ms, children, from, q) by {
                assert(here(q) == later(q - 1));
                if p > 0 {
                    assert(here(p) == later(p - 1));
                }
            }
            assert forall|k: int|
                from <= k < children.len() && (host.node)(
                    layer,
                    (#[trigger] children[k]).node,
                ) is Some implies exists|p: int|
                0 <= p < all.len() && #[trigger] child_of(
                    host,
                    layer,
                    timestamp_ms,
                    children,
                    from,
                    p,
                ) == k by {
                if k == from {
                    assert(here(0) == from);
                } else {
                    let p = choose|p: int|
                        0 <= p < rest.len() && #[trigger] child_of(
                            host,
                            layer,
                            timestamp_ms,
                            children,
                            from + 1,
                            p,
                        ) == k;
                    assert(here(p + 1) == later(p));
                }
            }
        } else {
            assert forall|p: int| #[trigger]
                child_of(host, layer, timestamp_ms, children, from, p) == child_of(
                    host,
                    layer,
                    timestamp_ms,
                    children,
                    from + 1,
                    p,
                ) by {}
            assert forall|k: int|
                from <= k < children.len() && (host.node)(
                    layer,
                    (#[trigger] children[k]).node,
                ) is Some implies exists|p: int|
                0 <= p < all.len() && #[trigger] child_of(
                    host,
                    layer,
                    timestamp_ms,
                    children,
                    from,
                    p,
                ) == k by {
                let p = choose|p: int|
                    0 <= p < rest.len() && #[trigger] child_of(
                        host,
                        layer,
                        timestamp_ms,
                        children,
                        from + 1,
                        p,
                    ) == k;
                assert(here(p) == later(p));
            }
        }
    }
}

/// The position of the child of a layer that gives the entry `p` of what it provides.
spec fn layer_origin(host: Directories, layer: Source, path: Seq<char>, p: int) -> int {
    child_of(
        host,
        layer,
        (host.timestamp)(layer),
        (host.children)(layer, base_node(host, layer, path)->0)->0,
        0,
        p,
    )
}

/// What one layer provides, said of its children: the entries are those of the loadable children,
/// in their order.
proof fn lemma_provided(host: Directories, layer: Source, path: Seq<char>)
    ensures
        ({
            let all = provided(host, layer, path);
            &&& forall|p: int|
                0 <= p < all.len() ==> gives(
                    host,
                    layer,
                    path,
                    #[trigger] layer_origin(host, layer, path, p),
                    all[p],
                )
            &&& forall|p: int, q: int|
                0 <= p < q < all.len() ==> #[trigger] layer_origin(host, layer, path, p)
                    < #[trigger] layer_origin(host, layer, path, q)
            &&& forall|k: int, child: ChildView, node: Node| #[trigger]
                layer_has(host, layer, path, k, child, node) ==> exists|p: int|
                    0 <= p < all.len() && #[trigger] layer_origin(host, layer, path, p) == k
        }),
{
    let all = provided(host, layer, path);
    let base = base_node(host, layer, path);
    assert forall|b: NodeID| #[trigger] leads_to(host, layer, path, b) <==> base == Some(b) by {}
    if base is Some && (host.children)(layer, base->0) is Some {
        let children = (host.children)(layer, base->0)->0;
        let ms = (host.timestamp)(layer);
        lemma_child_of(host, layer, ms, children, 0);
        assert(leads_to(host, layer, path, base->0));
        assert forall|p: int| 0 <= p < all.len() implies gives(
            host,
            layer,
            path,
            #[trigger] layer_origin(host, layer, path, p),
            all[p],
        ) by {
            let k = child_of(host, layer, ms, children, 0, p);
            let node = (host.node)(layer, children[k].node)->0;
            assert(layer_has(host, layer, path, k, children[k], node));
        }
        assert forall|k: int, child: ChildView, node: Node| #[trigger]
            layer_has(host, layer, path, k, child, node) implies exists|p: int|
            0 <= p < all.len() && #[trigger] layer_origin(host, layer, path, p) == k by {
            assert((host.node)(layer, children[k].node) is Some);
            let p = choose|p: int|
                0 <= p < all.len() && #[trigger] child_of(host, layer, ms, children, 0, p) == k;
            assert(layer_origin(host, layer, path, p) == k);
        }
    } else {
        assert(all =~= Seq::empty());
    }
}

/// The layer, and the position of its child, that give the entry `p` of what the layers from `from`
/// on provide.
spec fn origin(host: Directories, layers: Seq<Source>, path: Seq<char>, from: int, p: int) -> (
    int,
    int,
)
    decreases layers.len() - from,
{
    if from >= layers.len() {
        (from, p)
    } else {
        let first = provided(host, layers[from], path).len();
        if p < first {
            (from, layer_origin(host, layers[from], path, p))
        } else {
            origin(host, layers, path, from + 1, p - first)
        }
    }
}

/// What the layers from `from` on provide, said of their children.
proof fn lemma_provided_from(host: Directories, layers: Seq<Source>, path: Seq<char>, from: int)
    requires
        0 <= from <= layers.len(),
    ensures
        ({
            let all = provided_from(host, layers, path, from);
            &&& forall|p: int|
                0 <= p < all.len() ==> {
                    let at = #[trigger] origin(host, layers, path, from, p);
                    from <= at.0 < layers.len() && gives(host, layers[at.0], path, at.1, all[p])
                }
            &&& forall|p: int, q: int|
                0 <= p < q < all.len() ==> comes_before(
                    #[trigger] origin(host, layers, path, from, p),
                    #[trigger] origin(host, layers, path, from, q),
                )
            &&& forall|i: int, k: int, child: ChildView, node: Node|
                from <= i < layers.len() && #[trigger] layer_has(
                    host,
                    layers[i],
                    path,
                    k,
                    child,
                    node,
                ) ==> exists|p: int|
                    0 <= p < all.len() && #[trigger] origin(host, layers, path, from, p) == (i, k)
        }),
    decreases layers.len() - from,
{
    let all = provided_from(host, layers, path, from);
    if from < layers.len() {
        let first = provided(host, layers[from], path);
        let n = first.len() as int;
        let rest = provided_from(host, layers, path, from + 1);
        lemma_provided(host, layers[from], path);
        lemma_provided_from(host, layers, path, from + 1);
        assert(all == first + rest);
        assert forall|p: int| 0 <= p < all.len() implies {
            let at = #[trigger] origin(host, layers, path, from, p);
            from <= at.0 < layers.len() && gives(host, layers[at.0], path, at.1, all[p])
        } by {
            if p < n {
                assert(all[p] == first[p]);
                assert(gives(
                    host,
                    layers[from],
                    path,
                    layer_origin(host, layers[from], path, p),
                    first[p],
                ));
            } else {
                assert(all[p] == rest[p - n]);
                let at = origin(host, layers, path, from + 1, p - n);
                assert(gives(host, layers[at.0], path, at.1, rest[p - n]));
            }
        }
        assert forall|p: int, q: int| 0 <= p < q < all.len() implies comes_before(
            #[trigger] origin(host, layers, path, from, p),
            #[trigger] origin(host, layers, path, from, q),
        ) by {
            if q < n {
                assert(layer_origin(host, layers[from], path, p) < layer_origin(
                    host,
                    layers[from],
                    path,
                    q,
                ));
            } else {
                assert(origin(host, layers, path, from + 1, q - n).0 > from);
                if p >= n {
                    assert(comes_before(
                        origin(host, layers, path, from + 1, p - n),
                        origin(host, layers, path, from + 1, q - n),
                    ));
                }
            }
        }
        assert forall|i: int, k: int, child: ChildView, node: Node|
            from <= i < layers.len() && #[trigger] layer_has(
                host,
                layers[i],
                path,
                k,
                child,
                node,
            ) implies exists|p: int|
            0 <= p < all.len() && #[trigger] origin(host, layers, path, from, p) == (i, k) by {
            if i == from {
                let p = choose|p: int|
                    0 <= p < first.len() && #[trigger] layer_origin(host, layers[from], path, p)
                        == k;
                assert(origin(host, layers, path, from, p) == (i, k));
            } else {
                let p = choose|p: int|
                    0 <= p < rest.len() && #[trigger] origin(host, layers, path, from + 1, p) == (
                        i,
                        k,
                    );
                assert(origin(host, layers, path, from, p + n) == (i, k));
            }
        }
    }
}

/// What a host's answers make of an enumeration of a path over layers.
pub open spec fn enumerated(host: Directories, layers: Seq<Source>, path: Seq<char>) -> Seq<
    DirEntryView,
> {
    list_outcome(host, listing_begun(layers, path), path)
}

/// Every layer is asked, at the root and below it: wherever a path leads to a directory of a layer
/// that has a child whose node can be loaded, an entry of that child's name is listed.
pub proof fn law_enumerate_lists_the_children_of_every_layer(
    host: Directories,
    layers: Seq<Source>,
    path: Seq<char>,
    i: int,
    k: int,
    base: NodeID,
    children: Seq<ChildView>,
)
    requires
        layers.len() <= usize::MAX,
        lists_fit(host),
        0 <= i < layers.len(),
        if path.len() == 0 {
            base == ROOT_NODE
        } else {
            (host.link)(layers[i], path) matches Some(link) && link.valid && link.node == base
        },
        (host.children)(layers[i], base) == Some(children),
        0 <= k < children.len(),
        (host.node)(layers[i], children[k].node) is Some,
    ensures
        exists|n: int|
            0 <= n < enumerated(host, layers, path).len() && #[trigger] enumerated(
                host,
                layers,
                path,
            )[n].name == children[k].name,
{
    let all = provided_from(host, layers, path, 0);
    let node = (host.node)(layers[i], children[k].node)->0;
    assert(leads_to(host, layers[i], path, base));
    assert(layer_has(host, layers[i], path, k, children[k], node));
    law_enumerate_merges_layers(host, layers, path);
    law_listing_holds_first_of_each_name(host, layers, path);
    lemma_provided_from(host, layers, path, 0);
    let p = choose|p: int|
        0 <= p < all.len() && #[trigger] origin(host, layers, path, 0, p) == (i, k);
    lemma_given_name(host, layers[i], path, k, children[k], node, all[p]);
    let list = listed(host, layers, path);
    assert(lists_name(list, all[p].name));
    let n = choose|n: int| 0 <= n < list.len() && #[trigger] list[n].name == all[p].name;
    assert(enumerated(host, layers, path)[n].name == children[k].name);
}

/// The entry that a child gives has the child's name.
proof fn lemma_given_name(
    host: Directories,
    layer: Source,
    path: Seq<char>,
    k: int,
    child: ChildView,
    node: Node,
    entry: DirEntryView,
)
    requires
        gives(host, layer, path, k, entry),
        layer_has(host, layer, path, k, child, node),
    ensures
        entry.name == child.name,
{
    let (c, n) = choose|c: ChildView, n: Node| #[trigger]
        layer_has(host, layer, path, k, c, n) && is_entry_of(host, layer, c, n, entry);
    let a = choose|base: NodeID|
        {
            &&& #[trigger] leads_to(host, layer, path, base)
            &&& (host.children)(layer, base) matches Some(children) && 0 <= k < children.len()
                && children[k] == child
            &&& (host.node)(layer, child.node) == Some(node)
        };
    let b = choose|base: NodeID|
        {
            &&& #[trigger] leads_to(host, layer, path, base)
            &&& (host.children)(layer, base) matches Some(children) && 0 <= k < children.len()
                && children[k] == c
            &&& (host.node)(layer, c.node) == Some(n)
        };
    assert(a == b);
}

/// Every listed entry is the one of a child that some layer has: its name and node are the child's,
/// its kind and size those of the node, and its time that of the layer's revision. No layer before
/// that one, and no child before it there, gives an entry of the name: the first one wins.
pub proof fn law_enumerated_entries_are_the_first_of_their_names(
    host: Directories,
    layers: Seq<Source>,
    path: Seq<char>,
    n: int,
)
    requires
        layers.len() <= usize::MAX,
        lists_fit(host),
        0 <= n < enumerated(host, layers, path).len(),
    ensures
        exists|i: int, k: int|
            {
                &&& 0 <= i < layers.len()
                &&& #[trigger] gives(host, layers[i], path, k, enumerated(host, layers, path)[n])
                &&& forall|j: int, l: int, child: ChildView, node: Node|
                    0 <= j < layers.len() && (j < i || (j == i && l < k)) && #[trigger] layer_has(
                        host,
                        layers[j],
                        path,
                        l,
                        child,
                        node,
                    ) ==> child.name != enumerated(host, layers, path)[n].name
            },
{
    let all = provided_from(host, layers, path, 0);
    let entry = enumerated(host, layers, path)[n];
    law_enumerate_merges_layers(host, layers, path);
    law_listing_holds_first_of_each_name(host, layers, path);
    lemma_provided_from(host, layers, path, 0);
    let p = choose|p: int|
        0 <= p < all.len() && #[trigger] all[p] == entry && forall|m: int|
            0 <= m < p ==> #[trigger] all[m].name != entry.name;
    let at = origin(host, layers, path, 0, p);
    assert(gives(host, layers[at.0], path, at.1, entry));
    assert forall|j: int, l: int, child: ChildView, node: Node|
        0 <= j < layers.len() && (j < at.0 || (j == at.0 && l < at.1)) && #[trigger] layer_has(
            host,
            layers[j],
            path,
            l,
            child,
            node,
        ) implies child.name != entry.name by {
        let q = choose|q: int|
            0 <= q < all.len() && #[trigger] origin(host, layers, path, 0, q) == (j, l);
        lemma_given_name(host, layers[j], path, l, child, node, all[q]);
        if p < q {
            assert(comes_before(at, origin(host, layers, path, 0, q)));
        }
    }
}

/// No name is listed twice, and the entries stand in the order of the layers that give them, and
/// within a layer in the order of its children.
pub proof fn law_enumerated_entries_stand_in_order(
    host: Directories,
    layers: Seq<Source>,
    path: Seq<char>,
    m: int,
    n: int,
)
    requires
        layers.len() <= usize::MAX,
        lists_fit(host),
        0 <= m < n < enumerated(host, layers, path).len(),
    ensures
        enumerated(host, layers, path)[m].name != enumerated(host, layers, path)[n].name,
        exists|i: int, k: int, j: int, l: int|
            {
                &&& 0 <= i < layers.len() && 0 <= j < layers.len()
                &&& #[trigger] gives(host, layers[i], path, k, enumerated(host, layers, path)[m])
                &&& #[trigger] gives(host, layers[j], path, l, enumerated(host, layers, path)[n])
                &&& i < j || (i == j && k < l)
            },
{
    let all = provided_from(host, layers, path, 0);
    let list = listed(host, layers, path);
    law_enumerate_merges_layers(host, layers, path);
    law_listing_holds_first_of_each_name(host, layers, path);
    lemma_provided_from(host, layers, path, 0);
    lemma_listing_order(host, layers, path, m, n);
    assert(list[m].name != list[n].name);
    let (p, q) = choose|p: int, q: int|
        p < q && #[trigger] first_at(all, p, list[m]) && #[trigger] first_at(all, q, list[n]);
    let a = origin(host, layers, path, 0, p);
    let b = origin(host, layers, path, 0, q);
    assert(comes_before(a, b));
    assert(gives(host, layers[a.0], path, a.1, list[m]));
    assert(gives(host, layers[b.0], path, b.1, list[n]));
}

/// Whether a layer holds a live match for a path: below the root a valid link leads to a source
/// that has the node, and the node is not staged for deletion; for the empty path the layer has its
/// root.
pub open spec fn is_live_match(
    host: Lookups,
    layer: Source,
    path: Seq<char>,
    found: ResolvedNode,
) -> bool {
    if path.len() == 0 {
        &&& (host.node)(layer, ROOT_NODE) == Some(found.node)
        &&& found.source == layer
        &&& found.node_id == ROOT_NODE
    } else {
        &&& (host.link)(layer, path) matches Some(link) && link.valid && link.node == found.node_id
            && (host.follow)(layer, link) == Some(found.source)
        &&& (host.node)(found.source, found.node_id) == Some(found.node)
        &&& !found.node.staged_delete
    }
}

/// A path resolves to a node exactly when some layer holds it as a live match and no layer before
/// that one holds any: every layer is asked in turn, whatever the path.
pub proof fn law_resolve_is_the_first_live_match(
    host: Lookups,
    layers: Seq<Source>,
    path: Seq<char>,
    found: ResolvedNode,
)
    requires
        layers.len() <= usize::MAX,
    ensures
        outcome(host, begun(layers, path), path) == Some(found) <==> exists|i: int|
            {
                &&& 0 <= i < layers.len()
                &&& #[trigger] is_live_match(host, layers[i], path, found)
                &&& forall|k: int, other: ResolvedNode|
                    0 <= k < i ==> !#[trigger] is_live_match(host, layers[k], path, other)
            },
{
    let result = outcome(host, begun(layers, path), path);
    law_resolve_finds_first_live_match(host, layers, path);
    assert forall|layer: Source, other: ResolvedNode| #[trigger]
        is_live_match(host, layer, path, other) <==> found_in(host, layer, path) == Some(
            other,
        ) by {}
    if result == Some(found) {
        let i = choose|i: int|
            0 <= i < layers.len() && result == #[trigger] found_in(host, layers[i], path)
                && forall|k: int| 0 <= k < i ==> #[trigger] found_in(host, layers[k], path) is None;
        assert(is_live_match(host, layers[i], path, found));
    }
    if exists|i: int|
        {
            &&& 0 <= i < layers.len()
            &&& #[trigger] is_live_match(host, layers[i], path, found)
            &&& forall|k: int, other: ResolvedNode|
                0 <= k < i ==> !#[trigger] is_live_match(host, layers[k], path, other)
        } {
        let i = choose|i: int|
            {
                &&& 0 <= i < layers.len()
                &&& #[trigger] is_live_match(host, layers[i], path, found)
                &&& forall|k: int, other: ResolvedNode|
                    0 <= k < i ==> !#[trigger] is_live_match(host, layers[k], path, other)
            };
        assert(found_in(host, layers[i], path) == Some(found));
        assert(result is Some);
        let j = choose|j: int|
            0 <= j < layers.len() && result == #[trigger] found_in(host, layers[j], path)
                && forall|k: int| 0 <= k < j ==> #[trigger] found_in(host, layers[k], path) is None;
        assert(is_live_match(host, layers[j], path, result->0));
        if j < i {
            assert(!is_live_match(host, layers[j], path, result->0));
        }
    }
}

} // verus!
