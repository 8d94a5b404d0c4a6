use lore_core::vfs::content::{
    begin_copy, copied, finish_read, read_range, ReadPlan, FRAGMENT_SIZE_THRESHOLD,
};
use lore_core::vfs::listing::{enumerate, Child, ListAnswer, ListStep};
use lore_core::vfs::prefetch::{
    paths_past_failures, paths_until_failure, prefetch, prefetch_path, PoolAnswer, PoolStep,
    PrefetchAnswer, PrefetchStep, MAX_CONCURRENT_PREFETCH,
};
use lore_core::vfs::resolve::{resolve, ResolveAnswer, ResolveStep};
use lore_core::vfs::tree::{
    now_ms, revision_timestamp_ms, workspace_layers, ContentHash, DirEntry, EntryKind, Node,
    NodeLink, ResolvedNode, Source, ROOT_NODE,
};
use std::collections::HashMap;

/// A host that holds its trees in memory.
#[derive(Default)]
struct Host {
    links: HashMap<(Source2, String), NodeLink>,
    follows: HashMap<(Source2, u64), Source>,
    nodes: HashMap<(Source2, u64), Node>,
    children: HashMap<(Source2, u64), Vec<(String, u64)>>,
    contents: HashMap<u64, Vec<u8>>,
}

type Source2 = (u64, u64);

fn key(source: Source) -> Source2 {
    (source.repository, source.state)
}

const BASE: Source = Source {
    repository: 1,
    state: 10,
};
const EXTRA: Source = Source {
    repository: 2,
    state: 20,
};

fn node(directory: bool, size: u64, hash: u8) -> Node {
    Node {
        directory,
        size,
        staged_delete: false,
        dirty_delete: false,
        hash: ContentHash { data: [hash; 32] },
    }
}

impl Host {
    fn put(&mut self, source: Source, path: &str, id: u64, node: Node) {
        if !path.is_empty() {
            self.links
                .insert((key(source), path.to_string()), NodeLink { valid: true, node: id });
        }
        self.nodes.insert((key(source), id), node);
    }

    fn list(&mut self, source: Source, id: u64, children: &[(&str, u64)]) {
        let children = children
            .iter()
            .map(|(name, id)| (name.to_string(), *id))
            .collect();
        self.children.insert((key(source), id), children);
    }

    fn resolve(&self, layers: &[Source], path: &str) -> Option<ResolvedNode> {
        let mut resolution = resolve(layers, path);
        loop {
            let answer = match resolution.step() {
                ResolveStep::LoadRoot { layer } => {
                    let source = resolution.layer(layer).unwrap();
                    ResolveAnswer::Node {
                        node: self.nodes.get(&(key(source), ROOT_NODE)).copied(),
                    }
                }
                ResolveStep::FindLink { layer } => {
                    let source = resolution.layer(layer).unwrap();
                    ResolveAnswer::Link {
                        link: self.links.get(&(key(source), path.to_string())).copied(),
                    }
                }
                ResolveStep::FollowLink { layer, link } => {
                    let source = resolution.layer(layer).unwrap();
                    let followed = self.follows.get(&(key(source), link.node)).copied();
                    ResolveAnswer::Source {
                        source: Some(followed.unwrap_or(source)),
                    }
                }
                ResolveStep::LoadNode { source, node, .. } => ResolveAnswer::Node {
                    node: self.nodes.get(&(key(source), node)).copied(),
                },
                ResolveStep::Finished { found } => return found,
            };
            resolution.answer(answer);
        }
    }

    fn enumerate(&self, layers: &[Source], path: &str) -> Vec<DirEntry> {
        let mut listing = enumerate(layers, path);
        loop {
            let answer = match listing.step() {
                ListStep::FindLink { layer } => {
                    let source = listing.layer(layer).unwrap();
                    ListAnswer::Link {
                        link: self.links.get(&(key(source), path.to_string())).copied(),
                    }
                }
                ListStep::ReadTimestamp { layer, .. } => ListAnswer::Timestamp {
                    timestamp_ms: 100 + layer as u64,
                },
                ListStep::ListChildren { layer, base } => {
                    let source = listing.layer(layer).unwrap();
                    let children = self.children.get(&(key(source), base)).map(|children| {
                        children
                            .iter()
                            .map(|(name, node)| Child {
                                name: name.clone(),
                                node: *node,
                            })
                            .collect()
                    });
                    ListAnswer::Children { children }
                }
                ListStep::LoadNode { layer, node, .. } => {
                    let source = listing.layer(layer).unwrap();
                    ListAnswer::Node {
                        node: self.nodes.get(&(key(source), node)).copied(),
                    }
                }
                ListStep::Finished => return listing.into_entries(),
            };
            listing.answer(answer);
        }
    }

    fn read_range(&self, resolved: &ResolvedNode, offset: u64, room: usize) -> Vec<u8> {
        let content = &self.contents[&resolved.node_id];
        let plan = read_range(resolved.size(), offset, room);
        let fetched = match plan {
            ReadPlan::Nothing => Vec::new(),
            ReadPlan::Whole { .. } | ReadPlan::Window { .. } => content.clone(),
            ReadPlan::Range { start, end } => content[start as usize..end as usize].to_vec(),
        };
        finish_read(plan, fetched)
    }
}

fn committed_tree() -> Host {
    let mut host = Host::default();
    host.put(BASE, "", ROOT_NODE, node(true, 0, 0));
    host.put(BASE, "readme.md", 1, node(false, 11, 1));
    host.put(BASE, "src", 2, node(true, 0, 0));
    host.put(BASE, "src/test.txt", 3, node(false, 5, 3));
    host.list(BASE, ROOT_NODE, &[("readme.md", 1), ("src", 2)]);
    host.list(BASE, 2, &[("test.txt", 3)]);
    host.contents.insert(1, b"hello world".to_vec());
    host.contents.insert(3, b"hello".to_vec());
    host
}

#[test]
fn resolve_enumerate_read_over_committed_tree() {
    let host = committed_tree();
    let layers = [BASE];

    let root = host.enumerate(&layers, "");
    let readme_entry = root.iter().find(|e| e.name == "readme.md").unwrap();
    assert_eq!(readme_entry.kind, EntryKind::File);
    assert_eq!(readme_entry.size, "hello world".len() as u64);
    let src_entry = root.iter().find(|e| e.name == "src").unwrap();
    assert_eq!(src_entry.kind, EntryKind::Directory);

    let src = host.enumerate(&layers, "src");
    let test_entry = src.iter().find(|e| e.name == "test.txt").unwrap();
    assert_eq!(test_entry.kind, EntryKind::File);
    assert_eq!(test_entry.size, 5);

    let resolved = host.resolve(&layers, "src/test.txt").unwrap();
    assert_eq!(resolved.kind(), EntryKind::File);
    assert_eq!(resolved.size(), 5);

    assert_eq!(host.read_range(&resolved, 0, 5), b"hello");
    assert_eq!(host.read_range(&resolved, 2, 3), b"llo");
    assert_eq!(host.read_range(&resolved, 5, 4), b"");

    assert!(host.resolve(&layers, "does/not/exist").is_none());
}

#[test]
fn root_resolves_to_the_first_layer_that_has_one() {
    let mut host = Host::default();
    host.put(EXTRA, "", ROOT_NODE, node(true, 0, 0));
    let layers = workspace_layers(BASE, Some(EXTRA));
    let resolved = host.resolve(&layers, "").unwrap();
    assert_eq!(resolved.source, EXTRA);
    assert_eq!(resolved.node_id, ROOT_NODE);
    assert_eq!(resolved.kind(), EntryKind::Directory);
    assert!(host.resolve(&workspace_layers(BASE, None), "").is_none());
    assert!(host.resolve(&[], "").is_none());
}

#[test]
fn first_live_layer_wins() {
    let mut host = committed_tree();
    host.put(EXTRA, "src/test.txt", 9, node(false, 7, 9));
    let layers = [BASE, EXTRA];
    assert_eq!(host.resolve(&layers, "src/test.txt").unwrap().size(), 5);

    // Staged for deletion in the base layer: the next layer is asked.
    let mut deleted = node(false, 5, 3);
    deleted.staged_delete = true;
    host.put(BASE, "src/test.txt", 3, deleted);
    let resolved = host.resolve(&layers, "src/test.txt").unwrap();
    assert_eq!((resolved.source, resolved.node_id), (EXTRA, 9));
    assert!(host.resolve(&[BASE], "src/test.txt").is_none());
}

#[test]
fn invalid_links_and_missing_nodes_are_passed_over() {
    let mut host = Host::default();
    host.links
        .insert((key(BASE), "a".to_string()), NodeLink { valid: false, node: 4 });
    host.nodes.insert((key(BASE), 4), node(false, 1, 1));
    assert!(host.resolve(&[BASE], "a").is_none());
    host.links
        .insert((key(BASE), "b".to_string()), NodeLink { valid: true, node: 5 });
    assert!(host.resolve(&[BASE], "b").is_none());
}

#[test]
fn links_lead_into_the_source_that_holds_the_content() {
    let mut host = Host::default();
    host.links
        .insert((key(BASE), "lib".to_string()), NodeLink { valid: true, node: 6 });
    host.follows.insert((key(BASE), 6), EXTRA);
    host.nodes.insert((key(EXTRA), 6), node(false, 42, 6));
    let resolved = host.resolve(&[BASE], "lib").unwrap();
    assert_eq!(resolved.source, EXTRA);
    assert_eq!(resolved.size(), 42);
}

#[test]
fn layers_are_merged_and_the_first_name_wins() {
    let mut host = committed_tree();
    host.put(EXTRA, "", ROOT_NODE, node(true, 0, 0));
    host.put(EXTRA, "readme.md", 1, node(true, 0, 1));
    host.put(EXTRA, "extra.bin", 2, node(false, 8, 2));
    host.list(
        EXTRA,
        ROOT_NODE,
        &[("extra.bin", 2), ("readme.md", 1), ("lost", 99), ("lost", 2)],
    );
    let entries = host.enumerate(&[BASE, EXTRA], "");
    let listed: Vec<(&str, EntryKind, u64, u64)> = entries
        .iter()
        .map(|e| (e.name.as_str(), e.kind, e.size, e.timestamp_ms))
        .collect();
    // The first child named "lost" has no node, so it does not keep the second from being listed.
    assert_eq!(
        listed,
        [
            ("readme.md", EntryKind::File, 11, 100),
            ("src", EntryKind::Directory, 0, 100),
            ("extra.bin", EntryKind::File, 8, 101),
            ("lost", EntryKind::File, 8, 101),
        ]
    );
    assert!(host.enumerate(&[BASE, EXTRA], "nowhere").is_empty());
}

#[test]
fn reads_are_planned_by_size() {
    assert_eq!(read_range(5, 0, 0), ReadPlan::Nothing);
    assert_eq!(read_range(5, 5, 1), ReadPlan::Nothing);
    assert_eq!(read_range(5, 0, 9), ReadPlan::Whole { size: 5 });
    assert_eq!(
        read_range(5, 1, 9),
        ReadPlan::Window {
            size: 5,
            start: 1,
            want: 4
        }
    );
    let large = FRAGMENT_SIZE_THRESHOLD + 1;
    assert_eq!(
        read_range(large, 10, 20),
        ReadPlan::Range { start: 10, end: 30 }
    );
    assert_eq!(
        read_range(FRAGMENT_SIZE_THRESHOLD, 10, 20),
        ReadPlan::Window {
            size: FRAGMENT_SIZE_THRESHOLD,
            start: 10,
            want: 20
        }
    );
    assert_eq!(read_range(u64::MAX, u64::MAX - 1, 9), ReadPlan::Range {
        start: u64::MAX - 1,
        end: u64::MAX
    });
}

#[test]
fn reads_deliver_the_window_of_small_and_large_objects() {
    let mut host = Host::default();
    for size in [0usize, 1, 1000, 262_144, 262_145, 300_000] {
        let content: Vec<u8> = (0..size).map(|i| (i % 251) as u8).collect();
        host.contents.insert(5, content.clone());
        let resolved = ResolvedNode {
            source: BASE,
            node: node(false, size as u64, 1),
            node_id: 5,
        };
        for (offset, room) in [(0, size), (0, 10), (7, 100), (size / 2, size), (size, 3)] {
            let end = (offset + room).min(size).max(offset.min(size));
            assert_eq!(
                host.read_range(&resolved, offset as u64, room),
                content[offset.min(size)..end],
                "{size} {offset} {room}"
            );
        }
    }
}

#[test]
fn copies_reproduce_the_content() {
    let content: Vec<u8> = (0..100u8).collect();
    for room in [1usize, 7, 100, 1000] {
        let mut written = Vec::new();
        let mut copy = begin_copy(content.len() as u64);
        while !copy.finished {
            let start = copy.offset as usize;
            let end = (start + room).min(content.len());
            written.extend_from_slice(&content[start..end]);
            copy = copied(copy, end - start);
        }
        assert_eq!(written, content);
    }
    assert!(begin_copy(0).finished);
    let stopped = copied(begin_copy(10), 0);
    assert!(stopped.finished);
    assert_eq!(stopped.offset, 0);
}

fn warm(host: &Host, path: &str, stored: Option<u64>) -> Option<u64> {
    let mut step = prefetch_path();
    loop {
        step = match step {
            PrefetchStep::FindLink => step.answer(PrefetchAnswer::Link {
                link: host.links.get(&(key(BASE), path.to_string())).copied(),
            }),
            PrefetchStep::FollowLink { .. } => {
                step.answer(PrefetchAnswer::Source { source: Some(BASE) })
            }
            PrefetchStep::LoadNode { source, node } => step.answer(PrefetchAnswer::Node {
                node: host.nodes.get(&(key(source), node)).copied(),
            }),
            PrefetchStep::CacheAndQuery { hash, .. } => {
                assert!(!hash.is_zero());
                step.answer(PrefetchAnswer::Stored { size: stored })
            }
            PrefetchStep::Finished { size } => return size,
        };
    }
}

#[test]
fn prefetch_warms_content_that_there_is() {
    let host = committed_tree();
    assert_eq!(warm(&host, "src/test.txt", Some(77)), Some(77));
    assert_eq!(warm(&host, "src/test.txt", None), None);
    assert_eq!(warm(&host, "src", Some(77)), None);
    assert_eq!(warm(&host, "nowhere", Some(77)), None);
    let unfollowed = prefetch_path()
        .answer(PrefetchAnswer::Link {
            link: Some(NodeLink { valid: true, node: 1 }),
        })
        .answer(PrefetchAnswer::Source { source: None });
    assert!(matches!(unfollowed, PrefetchStep::Finished { size: None }));
}

/// Warm `total` paths that end only when they are waited for, and say how many ran at most.
fn run_pool(total: usize) -> (Vec<usize>, usize) {
    let mut pool = prefetch(total);
    let mut started = Vec::new();
    let mut running = 0;
    let mut most = 0;
    loop {
        let answer = match pool.step() {
            PoolStep::Start { index } => {
                started.push(index);
                running += 1;
                most = most.max(running);
                PoolAnswer::Started
            }
            PoolStep::CollectEnded => PoolAnswer::NoneEnded,
            PoolStep::WaitForOne | PoolStep::WaitForRest => {
                if running > 0 {
                    running -= 1;
                    PoolAnswer::Ended
                } else {
                    PoolAnswer::NoneEnded
                }
            }
            PoolStep::Finished => {
                assert_eq!(running, 0);
                return (started, most);
            }
        };
        pool.answer(answer);
    }
}

#[test]
fn prefetch_bounds_what_runs_at_once() {
    let total = MAX_CONCURRENT_PREFETCH + 5;
    let (started, most) = run_pool(total);
    assert_eq!(started, (0..total).collect::<Vec<usize>>());
    assert_eq!(most, MAX_CONCURRENT_PREFETCH);
    assert_eq!(run_pool(3), (vec![0, 1, 2], 3));
    assert_eq!(run_pool(0), (vec![], 0));
}

#[test]
fn prefetch_collects_what_has_ended() {
    let mut pool = prefetch(2);
    pool.answer(PoolAnswer::Started);
    assert_eq!(pool.step(), PoolStep::CollectEnded);
    pool.answer(PoolAnswer::Ended);
    assert_eq!(pool.step(), PoolStep::CollectEnded);
    pool.answer(PoolAnswer::NoneEnded);
    assert_eq!(pool.step(), PoolStep::Start { index: 1 });
    pool.answer(PoolAnswer::Started);
    pool.answer(PoolAnswer::NoneEnded);
    assert_eq!(pool.step(), PoolStep::WaitForRest);
    pool.answer(PoolAnswer::Ended);
    pool.answer(PoolAnswer::NoneEnded);
    assert_eq!(pool.step(), PoolStep::Finished);
}

#[test]
fn prefetch_lists_treat_unreadable_lines_each_in_their_way() {
    let lines = || {
        vec![
            Some("a".to_string()),
            None,
            Some("b".to_string()),
        ]
    };
    assert_eq!(paths_until_failure(lines()), ["a"]);
    assert_eq!(paths_past_failures(lines()), ["a", "b"]);
    assert!(paths_until_failure(Vec::new()).is_empty());
}

#[test]
fn timestamps_fall_back_to_the_current_time() {
    assert_eq!(revision_timestamp_ms(Some(5), 9), 5);
    assert_eq!(revision_timestamp_ms(None, 9), 9);
    let resolved = ResolvedNode {
        source: BASE,
        node: node(false, 1, 1),
        node_id: 1,
    };
    assert_eq!(resolved.revision_timestamp_ms(None, 9), 9);
    assert_eq!(now_ms(Some(1_700_000_000_000)), 1_700_000_000_000);
    assert_eq!(now_ms(Some((1u128 << 64) + 3)), 3);
    assert_eq!(now_ms(None), 0);
}

#[test]
fn hashes_are_compared_byte_by_byte() {
    let zero = ContentHash { data: [0; 32] };
    let mut other = zero;
    other.data[31] = 1;
    assert!(zero.is_zero());
    assert!(!other.is_zero());
    assert!(zero.is_same(&zero));
    assert!(!zero.is_same(&other));
}
