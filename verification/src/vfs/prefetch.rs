//! Warming the content cache for a list of paths.

use crate::text::views;
use crate::vfs::tree::{all_zero, ContentHash, Node, NodeID, NodeLink, Source};
use vstd::prelude::*;

verus! {

/// How many paths are resolved and cached at the same time.
pub const MAX_CONCURRENT_PREFETCH: usize = 10_000;

/// How a host answers what warming the cache asks of it. A failure to answer is `None`.
pub struct CacheLookups {
    /// Where a path leads within a source.
    pub link: spec_fn(Source, Seq<char>) -> Option<NodeLink>,
    /// The source that a link of a source leads into.
    pub follow: spec_fn(Source, NodeLink) -> Option<Source>,
    /// A node of a source.
    pub node: spec_fn(Source, NodeID) -> Option<Node>,
    /// The size of the stored content of a hash, asked for after it was cached.
    pub stored: spec_fn(Source, ContentHash) -> Option<u64>,
}

/// The size of the content that warming the cache for a path leaves stored; `None` where the path
/// does not resolve to cacheable content.
pub open spec fn warmed(host: CacheLookups, source: Source, path: Seq<char>) -> Option<u64> {
    match (host.link)(source, path) {
        Some(link) if link.valid => match (host.follow)(source, link) {
            Some(holder) => match (host.node)(holder, link.node) {
                Some(node) if !all_zero(node.hash@) => (host.stored)(holder, node.hash),
                _ => None,
            },
            None => None,
        },
        _ => None,
    }
}

/// What warming the cache for a path asks of the host next, or what it came to.
#[derive(Debug, Clone, Copy)]
pub enum PrefetchStep {
    /// Find where the path leads.
    FindLink,
    /// Find the source that the link leads into.
    FollowLink { link: NodeLink },
    /// Load a node of a source.
    LoadNode { source: Source, node: NodeID },
    /// Cache the content of a hash, then ask for its stored size.
    CacheAndQuery { source: Source, hash: ContentHash },
    /// Nothing more to ask.
    Finished { size: Option<u64> },
}

/// What the host answered to a step; `None` where it failed.
#[derive(Debug, Clone, Copy)]
pub enum PrefetchAnswer {
    Link { link: Option<NodeLink> },
    Source { source: Option<Source> },
    Node { node: Option<Node> },
    Stored { size: Option<u64> },
}

/// The step that follows an answer. An answer to something else changes nothing.
pub open spec fn prefetch_after(step: PrefetchStep, answer: PrefetchAnswer) -> PrefetchStep {
    match (step, answer) {
        (PrefetchStep::FindLink, PrefetchAnswer::Link { link }) => match link {
            Some(link) if link.valid => PrefetchStep::FollowLink { link },
            _ => PrefetchStep::Finished { size: None },
        },
        (PrefetchStep::FollowLink { link }, PrefetchAnswer::Source { source }) => match source {
            Some(source) => PrefetchStep::LoadNode { source, node: link.node },
            None => PrefetchStep::Finished { size: None },
        },
        (PrefetchStep::LoadNode { source, .. }, PrefetchAnswer::Node { node }) => match node {
            Some(node) if !all_zero(node.hash@) => PrefetchStep::CacheAndQuery {
                source,
                hash: node.hash,
            },
            _ => PrefetchStep::Finished { size: None },
        },
        (PrefetchStep::CacheAndQuery { .. }, PrefetchAnswer::Stored { size }) => {
            PrefetchStep::Finished { size }
        },
        _ => step,
    }
}

/// Begin to warm the cache for a path.
pub fn prefetch_path() -> (r: PrefetchStep)
    ensures
        r is FindLink,
{
    PrefetchStep::FindLink
}

impl PrefetchStep {
    /// Take the host's answer to this step.
    pub fn answer(self, answer: PrefetchAnswer) -> (r: PrefetchStep)
        ensures
            r == prefetch_after(self, answer),
    {
        match (self, answer) {
            (PrefetchStep::FindLink, PrefetchAnswer::Link { link }) => match link {
                Some(link) if link.valid => PrefetchStep::FollowLink { link },
                _ => PrefetchStep::Finished { size: None },
            },
            (PrefetchStep::FollowLink { link }, PrefetchAnswer::Source { source }) => match source {
                Some(source) => PrefetchStep::LoadNode { source, node: link.node },
                None => PrefetchStep::Finished { size: None },
            },
            (PrefetchStep::LoadNode { source, .. }, PrefetchAnswer::Node { node }) => match node {
                Some(node) => if node.hash.is_zero() {
                    PrefetchStep::Finished { size: None }
                } else {
                    PrefetchStep::CacheAndQuery { source, hash: node.hash }
                },
                None => PrefetchStep::Finished { size: None },
            },
            (PrefetchStep::CacheAndQuery { .. }, PrefetchAnswer::Stored { size }) => {
                PrefetchStep::Finished { size }
            },
            _ => self,
        }
    }
}

/// The host's answer to a step of warming the cache for `path`.
pub open spec fn prefetch_answered(
    host: CacheLookups,
    source: Source,
    path: Seq<char>,
    step: PrefetchStep,
) -> PrefetchAnswer {
    match step {
        PrefetchStep::FindLink => PrefetchAnswer::Link { link: (host.link)(source, path) },
        PrefetchStep::FollowLink { link } => PrefetchAnswer::Source {
            source: (host.follow)(source, link),
        },
        PrefetchStep::LoadNode { source: holder, node } => PrefetchAnswer::Node {
            node: (host.node)(holder, node),
        },
        PrefetchStep::CacheAndQuery { source: holder, hash } => PrefetchAnswer::Stored {
            size: (host.stored)(holder, hash),
        },
        PrefetchStep::Finished { .. } => PrefetchAnswer::Stored { size: None },
    }
}

/// Four answers bring warming the cache for a path to its end, whatever the host answers, and the
/// end is the stored size exactly where the path leads to a node with content.
pub proof fn law_prefetch_warms_live_content(host: CacheLookups, source: Source, path: Seq<char>)
    ensures
        ({
            let after = |step: PrefetchStep|
                prefetch_after(step, prefetch_answered(host, source, path, step));
            after(after(after(after(PrefetchStep::FindLink)))) == (PrefetchStep::Finished {
                size: warmed(host, source, path),
            })
        }),
{
}

/// What warming a list of paths does next.
#[derive(Debug, Clone, Copy, PartialEq, Eq, Structural)]
pub enum PoolStep {
    /// Start to warm the path at an index.
    Start { index: usize },
    /// Wait for one path to end, since as many run as may.
    WaitForOne,
    /// Collect a path that has ended already, if there is one.
    CollectEnded,
    /// Wait for one of the paths that still run, if there is one.
    WaitForRest,
    /// Nothing more to do.
    Finished,
}

/// What came of a step.
#[derive(Debug, Clone, Copy, PartialEq, Eq, Structural)]
pub enum PoolAnswer {
    /// A path was started.
    Started,
    /// A path ended.
    Ended,
    /// There was no path to end.
    NoneEnded,
}

/// Warming a list of paths, a bounded number of them at a time.
#[derive(Debug, Clone, Copy, PartialEq, Eq, Structural)]
pub struct PrefetchPool {
    total: usize,
    started: usize,
    running: usize,
    step: PoolStep,
}

/// What a [`PrefetchPool`] holds.
pub struct PoolView {
    pub total: nat,
    pub started: nat,
    pub running: nat,
    pub step: PoolStep,
}

impl View for PrefetchPool {
    type V = PoolView;

    closed spec fn view(&self) -> PoolView {
        PoolView {
            total: self.total as nat,
            started: self.started as nat,
            running: self.running as nat,
            step: self.step,
        }
    }
}

/// What holds of every list under way: no more run than may, there is room for the next one when
/// it is to be started, and all were started when it is over.
pub open spec fn pool_fits(v: PoolView) -> bool {
    &&& v.started <= v.total <= usize::MAX
    &&& v.running <= MAX_CONCURRENT_PREFETCH
    &&& match v.step {
        PoolStep::Start { index } => index == v.started && v.started < v.total && v.running
            < MAX_CONCURRENT_PREFETCH,
        PoolStep::WaitForOne => true,
        PoolStep::CollectEnded => v.running < MAX_CONCURRENT_PREFETCH,
        PoolStep::WaitForRest => v.started == v.total,
        PoolStep::Finished => v.started == v.total && v.running == 0,
    }
}

/// The step for the next path, or for those that still run when all were started.
pub open spec fn start_step(total: nat, started: nat) -> PoolStep {
    if started < total {
        PoolStep::Start { index: started as usize }
    } else {
        PoolStep::WaitForRest
    }
}

/// A list before its first path is started.
pub open spec fn pool_begun(total: nat) -> PoolView {
    PoolView { total, started: 0, running: 0, step: start_step(total, 0) }
}

/// The list after a step. An answer that cannot be changes nothing.
pub open spec fn pool_after(v: PoolView, answer: PoolAnswer) -> PoolView {
    match (v.step, answer) {
        (PoolStep::Start { .. }, PoolAnswer::Started) => PoolView {
            started: v.started + 1,
            running: v.running + 1,
            step: if v.running + 1 >= MAX_CONCURRENT_PREFETCH {
                PoolStep::WaitForOne
            } else {
                PoolStep::CollectEnded
            },
            ..v
        },
        (PoolStep::WaitForOne, PoolAnswer::Ended) if v.running > 0 => PoolView {
            running: (v.running - 1) as nat,
            step: PoolStep::CollectEnded,
            ..v
        },
        (PoolStep::CollectEnded, PoolAnswer::Ended) if v.running > 0 => PoolView {
            running: (v.running - 1) as nat,
            ..v
        },
        (PoolStep::CollectEnded, PoolAnswer::NoneEnded) => PoolView {
            step: start_step(v.total, v.started),
            ..v
        },
        (PoolStep::WaitForRest, PoolAnswer::Ended) if v.running > 0 => PoolView {
            running: (v.running - 1) as nat,
            ..v
        },
        (PoolStep::WaitForRest, PoolAnswer::NoneEnded) if v.running == 0 => PoolView {
            step: PoolStep::Finished,
            ..v
        },
        _ => v,
    }
}

/// Begin to warm a list of so many paths.
pub fn prefetch(total: usize) -> (r: PrefetchPool)
    ensures
        r.well_formed(),
        r@ == pool_begun(total as nat),
{
    let step = if total > 0 {
        PoolStep::Start { index: 0 }
    } else {
        PoolStep::WaitForRest
    };
    PrefetchPool { total, started: 0, running: 0, step }
}

impl PrefetchPool {
    /// Whether the list is one that [`prefetch`] began.
    pub closed spec fn well_formed(&self) -> bool {
        pool_fits(self@)
    }

    /// What to do next.
    pub fn step(&self) -> (r: PoolStep)
        requires
            self.well_formed(),
        ensures
            r == self@.step,
            r matches PoolStep::Start { index } ==> index < self@.total,
    {
        self.step
    }

    /// Take note of what came of the current step.
    pub fn answer(&mut self, answer: PoolAnswer)
        requires
            old(self).well_formed(),
        ensures
            final(self).well_formed(),
            final(self)@ == pool_after(old(self)@, answer),
    {
        let next = match (self.step, answer) {
            (PoolStep::Start { .. }, PoolAnswer::Started) => PrefetchPool {
                started: self.started + 1,
                running: self.running + 1,
                step: if self.running + 1 >= MAX_CONCURRENT_PREFETCH {
                    PoolStep::WaitForOne
                } else {
                    PoolStep::CollectEnded
                },
                ..*self
            },
            (PoolStep::WaitForOne, PoolAnswer::Ended) => if self.running > 0 {
                PrefetchPool { running: self.running - 1, step: PoolStep::CollectEnded, ..*self }
            } else {
                *self
            },
            (PoolStep::CollectEnded, PoolAnswer::Ended) => if self.running > 0 {
                PrefetchPool { running: self.running - 1, ..*self }
            } else {
                *self
            },
            (PoolStep::CollectEnded, PoolAnswer::NoneEnded) => PrefetchPool {
                step: if self.started < self.total {
                    PoolStep::Start { index: self.started }
                } else {
                    PoolStep::WaitForRest
                },
                ..*self
            },
            (PoolStep::WaitForRest, PoolAnswer::Ended) => if self.running > 0 {
                PrefetchPool { running: self.running - 1, ..*self }
            } else {
                *self
            },
            (PoolStep::WaitForRest, PoolAnswer::NoneEnded) => if self.running == 0 {
                PrefetchPool { step: PoolStep::Finished, ..*self }
            } else {
                *self
            },
            _ => *self,
        };
        *self = next;
    }
}

/// The indices that are started while a list is answered step by step.
pub open spec fn indices_started(v: PoolView, answers: Seq<PoolAnswer>) -> Seq<nat>
    decreases answers.len(),
{
    if answers.len() == 0 {
        Seq::empty()
    } else {
        let rest = indices_started(pool_after(v, answers[0]), answers.skip(1));
        match (v.step, answers[0]) {
            (PoolStep::Start { index }, PoolAnswer::Started) => seq![index as nat] + rest,
            _ => rest,
        }
    }
}

/// The list after it was answered step by step.
pub open spec fn pool_run(v: PoolView, answers: Seq<PoolAnswer>) -> PoolView
    decreases answers.len(),
{
    if answers.len() == 0 {
        v
    } else {
        pool_run(pool_after(v, answers[0]), answers.skip(1))
    }
}

/// However the paths come to an end, they are started one after the other in the order of the
/// list, each once; never more run at once than may; and when it is over all were started and all
/// have ended.
pub proof fn law_prefetch_starts_every_path_once(total: nat, answers: Seq<PoolAnswer>)
    requires
        total <= usize::MAX,
    ensures
        ({
            let after = pool_run(pool_begun(total), answers);
            &&& pool_fits(after)
            &&& indices_started(pool_begun(total), answers) == Seq::new(
                after.started,
                |i: int| i as nat,
            )
            &&& after.step == PoolStep::Finished ==> after.started == total && after.running == 0
        }),
{
    lemma_pool_run(pool_begun(total), answers);
    let after = pool_run(pool_begun(total), answers);
    assert(Seq::new((after.started - 0) as nat, |i: int| (0 + i) as nat) =~= Seq::new(
        after.started,
        |i: int| i as nat,
    ));
}

proof fn lemma_pool_run(v: PoolView, answers: Seq<PoolAnswer>)
    requires
        pool_fits(v),
    ensures
        pool_fits(pool_run(v, answers)),
        pool_run(v, answers).started >= v.started,
        pool_run(v, answers).total == v.total,
        indices_started(v, answers) == Seq::new(
            (pool_run(v, answers).started - v.started) as nat,
            |i: int| (v.started + i) as nat,
        ),
    decreases answers.len(),
{
    if answers.len() > 0 {
        let next = pool_after(v, answers[0]);
        let rest = answers.skip(1);
        lemma_pool_run(next, rest);
        let last = pool_run(v, answers).started;
        let later = Seq::new((last - next.started) as nat, |i: int| (next.started + i) as nat);
        if next.started == v.started + 1 {
            assert(seq![v.started] + later =~= Seq::new(
                (last - v.started) as nat,
                |i: int| (v.started + i) as nat,
            ));
        } else {
            assert(later =~= Seq::new(
                (last - v.started) as nat,
                |i: int| (v.started + i) as nat,
            ));
        }
    } else {
        assert(Seq::<nat>::empty() =~= Seq::new(0, |i: int| (v.started + i) as nat));
    }
}

/// The lines before the first that could not be read.
pub open spec fn readable_prefix(lines: Seq<Option<String>>) -> Seq<Seq<char>>
    decreases lines.len(),
{
    if lines.len() == 0 {
        Seq::empty()
    } else {
        match lines[0] {
            Some(line) => seq![line@] + readable_prefix(lines.skip(1)),
            None => Seq::empty(),
        }
    }
}

/// The lines that could be read.
pub open spec fn readable(lines: Seq<Option<String>>) -> Seq<Seq<char>>
    decreases lines.len(),
{
    if lines.len() == 0 {
        Seq::empty()
    } else {
        match lines[0] {
            Some(line) => seq![line@] + readable(lines.skip(1)),
            None => readable(lines.skip(1)),
        }
    }
}

/// The paths to prefetch of a list whose lines end at the first that could not be read.
pub fn paths_until_failure(lines: Vec<Option<String>>) -> (r: Vec<String>)
    ensures
        views(r@) == readable_prefix(lines@),
{
    let mut out: Vec<String> = Vec::new();
    let mut i: usize = 0;
    assert(lines@.skip(0) =~= lines@);
    assert(views(out@) + readable_prefix(lines@) =~= readable_prefix(lines@));
    while i < lines.len()
        invariant
            i <= lines@.len(),
            readable_prefix(lines@) == views(out@) + readable_prefix(
                lines@.skip(i as int),
            ),
        decreases lines@.len() - i,
    {
        let ghost rest = lines@.skip(i as int);
        let ghost done = views(out@);
        assert(rest.skip(1) =~= lines@.skip(i + 1));
        match &lines[i] {
            Some(line) => {
                out.push(line.as_str().to_owned());
                assert(views(out@) =~= done.push(line@));
                assert(done + (seq![line@] + readable_prefix(rest.skip(1))) =~= done.push(line@)
                    + readable_prefix(rest.skip(1)));
            },
            None => {
                assert(done + Seq::<Seq<char>>::empty() =~= done);
                return out;
            },
        }
        i = i + 1;
    }
    assert(lines@.skip(i as int).len() == 0);
    assert(views(out@) + Seq::<Seq<char>>::empty() =~= views(out@));
    out
}

/// The paths to prefetch of a list whose unreadable lines are passed over.
pub fn paths_past_failures(lines: Vec<Option<String>>) -> (r: Vec<String>)
    ensures
        views(r@) == readable(lines@),
{
    let mut out: Vec<String> = Vec::new();
    let mut i: usize = 0;
    assert(lines@.skip(0) =~= lines@);
    assert(views(out@) + readable(lines@) =~= readable(lines@));
    while i < lines.len()
        invariant
            i <= lines@.len(),
            readable(lines@) == views(out@) + readable(lines@.skip(i as int)),
        decreases lines@.len() - i,
    {
        let ghost rest = lines@.skip(i as int);
        let ghost done = views(out@);
        assert(rest.skip(1) =~= lines@.skip(i + 1));
        if let Some(line) = &lines[i] {
            out.push(line.as_str().to_owned());
            assert(views(out@) =~= done.push(line@));
            assert(done + (seq![line@] + readable(rest.skip(1))) =~= done.push(line@) + readable(
                rest.skip(1),
            ));
        }
        i = i + 1;
    }
    assert(lines@.skip(i as int).len() == 0);
    assert(views(out@) + Seq::<Seq<char>>::empty() =~= views(out@));
    out
}

/// Warming the cache for a path leaves a stored size exactly where the path leads, by a valid link, to
/// a source that has its node with content, and the store then knows the size of that content.
pub proof fn law_prefetch_warms_what_the_path_leads_to(
    host: CacheLookups,
    source: Source,
    path: Seq<char>,
    size: u64,
)
    ensures
        ({
            let after = |step: PrefetchStep|
                prefetch_after(step, prefetch_answered(host, source, path, step));
            let end = after(after(after(after(PrefetchStep::FindLink))));
            &&& end is Finished
            &&& end == (PrefetchStep::Finished { size: Some(size) }) <==> {
                &&& (host.link)(source, path) matches Some(link)
                &&& link.valid
                &&& (host.follow)(source, link) matches Some(holder)
                &&& (host.node)(holder, link.node) matches Some(node)
                &&& !forall|i: int| 0 <= i < 32 ==> node.hash@[i] == 0
                &&& (host.stored)(holder, node.hash) == Some(size)
            }
        }),
{
    assert forall|hash: ContentHash|
        #![trigger all_zero(hash@)]
        all_zero(hash@) <==> forall|i: int| 0 <= i < 32 ==> hash@[i] == 0 by {
        assert(hash@.len() == 32);
    }
}

/// Content is cached in the source that holds the node, under the hash of the node, and nothing is
/// cached where the node has none.
pub proof fn law_content_is_cached_where_it_is_held(source: Source, id: NodeID, node: Node)
    ensures
        ({
            let next = prefetch_after(
                PrefetchStep::LoadNode { source, node: id },
                PrefetchAnswer::Node { node: Some(node) },
            );
            &&& (exists|i: int| 0 <= i < node.hash@.len() && node.hash@[i] != 0) ==> next == (
            PrefetchStep::CacheAndQuery { source, hash: node.hash })
            &&& (forall|i: int| 0 <= i < node.hash@.len() ==> node.hash@[i] == 0) ==> next == (
            PrefetchStep::Finished { size: None })
        }),
{
}

/// While there are paths left and fewer run than may, the next one is started; when as many run as
/// may, one is waited for before another is started; when all were started the rest is waited for,
/// and it is over exactly when none is left running.
pub proof fn law_pool_goes_on(v: PoolView)
    requires
        pool_fits(v),
    ensures
        v.running <= 10_000,
        v.step is Start ==> {
            let after = pool_after(v, PoolAnswer::Started);
            &&& v.step == (PoolStep::Start { index: v.started as usize })
            &&& after.started == v.started + 1 && after.running == v.running + 1
            &&& after.step == if v.running + 1 == 10_000 {
                PoolStep::WaitForOne
            } else {
                PoolStep::CollectEnded
            }
        },
        v.step is CollectEnded ==> {
            let after = pool_after(v, PoolAnswer::NoneEnded);
            &&& after.started == v.started && after.running == v.running
            &&& v.started < v.total ==> after.step == (PoolStep::Start {
                index: v.started as usize,
            })
            &&& v.started == v.total ==> after.step == PoolStep::WaitForRest
        },
        v.running > 0 && !(v.step is Start) ==> {
            let after = pool_after(v, PoolAnswer::Ended);
            &&& after.running == v.running - 1 && after.started == v.started
            &&& after.step == if v.step is WaitForOne {
                PoolStep::CollectEnded
            } else {
                v.step
            }
        },
        v.step is WaitForRest && v.running == 0 ==> pool_after(v, PoolAnswer::NoneEnded).step
            == PoolStep::Finished,
        v.step is WaitForRest && v.running > 0 ==> pool_after(v, PoolAnswer::NoneEnded).step
            == PoolStep::WaitForRest,
        pool_begun(v.total).started == 0 && pool_begun(v.total).running == 0,
        pool_begun(v.total).step == if v.total > 0 {
            PoolStep::Start { index: 0 }
        } else {
            PoolStep::WaitForRest
        },
{
}

/// Of a list that ends at its first unreadable line, the paths are the lines before it, in order and
/// all of them.
pub proof fn law_paths_end_at_the_first_unreadable_line(
    lines: Seq<Option<String>>,
    n: int,
    i: int,
)
    requires
        0 <= n <= lines.len(),
        forall|k: int| 0 <= k < n ==> #[trigger] lines[k] is Some,
        n < lines.len() ==> lines[n] is None,
    ensures
        readable_prefix(lines).len() == n,
        0 <= i < n ==> readable_prefix(lines)[i] == lines[i]->0@,
    decreases lines.len(),
{
    if n > 0 {
        let rest = lines.skip(1);
        assert(lines[0] is Some);
        assert forall|k: int| 0 <= k < n - 1 implies #[trigger] rest[k] is Some by {
            assert(lines[k + 1] is Some);
        }
        law_paths_end_at_the_first_unreadable_line(rest, n - 1, i - 1);
        if i > 0 && i < n {
            assert(rest[i - 1] == lines[i]);
        }
    }
}

/// Of a list whose unreadable lines are passed over, the paths are the readable lines, in order: the
/// paths of two lists, one behind the other, are those of the first and then those of the second,
/// and a single line gives its path when it is readable.
pub proof fn law_paths_are_the_readable_lines(
    a: Seq<Option<String>>,
    b: Seq<Option<String>>,
    line: Option<String>,
)
    ensures
        readable(a + b) == readable(a) + readable(b),
        line is Some ==> readable(seq![line]) == seq![line->0@],
        line is None ==> readable(seq![line]) == Seq::<Seq<char>>::empty(),
    decreases a.len(),
{
    let none = Seq::<Option<String>>::empty();
    assert(seq![line].skip(1) =~= none);
    assert(readable(none) =~= Seq::empty());
    reveal_with_fuel(readable, 2);
    assert(seq![line->0@] + Seq::<Seq<char>>::empty() =~= seq![line->0@]);
    if a.len() == 0 {
        assert(a + b =~= b);
        assert(readable(a) + readable(b) =~= readable(b));
    } else {
        law_paths_are_the_readable_lines(a.skip(1), b, line);
        assert((a + b).skip(1) =~= a.skip(1) + b);
        assert((a + b)[0] == a[0]);
        if a[0] is Some {
            assert(seq![a[0]->0@] + (readable(a.skip(1)) + readable(b)) =~= readable(a) + readable(
                b,
            ));
        }
    }
}

} // verus!
