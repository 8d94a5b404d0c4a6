//! Files opened for writing.

use std::collections::HashMap;
use vstd::prelude::*;

verus! {

/// The handle of files opened for reading only, which need no state of their own.
pub const READ_HANDLE: u64 = 0;

/// State of a file opened for writing: the path it maps to, whether it has been modified (so the
/// node is reported dirty on release), and whether it was freshly created (already reported as an
/// add, so release must not overwrite that with a modify).
#[derive(Debug)]
pub struct WriteHandle {
    pub relative: String,
    pub modified: bool,
    pub is_new: bool,
}

/// What a [`WriteHandle`] says, with its path as text.
pub struct WriteHandleView {
    pub relative: Seq<char>,
    pub modified: bool,
    pub is_new: bool,
}

impl View for WriteHandle {
    type V = WriteHandleView;

    open spec fn view(&self) -> WriteHandleView {
        WriteHandleView { relative: self.relative@, modified: self.modified, is_new: self.is_new }
    }
}

/// Open write handles by handle number.
pub struct HandleTable {
    open: HashMap<u64, WriteHandle>,
    next: u64,
}

/// What a [`HandleTable`] holds.
#[verifier::ext_equal]
pub struct HandlesView {
    pub open: Map<u64, WriteHandleView>,
    pub next: u64,
}

impl View for HandleTable {
    type V = HandlesView;

    closed spec fn view(&self) -> HandlesView {
        HandlesView { open: self.open@.map_values(|h: WriteHandle| h@), next: self.next }
    }
}

/// The handle number after `n`; after the last one the numbers start over.
pub open spec fn handle_after(n: u64) -> u64 {
    if n == u64::MAX {
        0
    } else {
        (n + 1) as u64
    }
}

/// The handles after another file was opened.
pub open spec fn opened(v: HandlesView, relative: Seq<char>, is_new: bool) -> HandlesView {
    HandlesView {
        open: v.open.insert(v.next, WriteHandleView { relative, modified: false, is_new }),
        next: handle_after(v.next),
    }
}

/// The handles after a write through one of them.
pub open spec fn marked_modified(v: HandlesView, fh: u64) -> HandlesView {
    if v.open.contains_key(fh) {
        HandlesView {
            open: v.open.insert(fh, WriteHandleView { modified: true, ..v.open[fh] }),
            ..v
        }
    } else {
        v
    }
}

/// The handles after one was released.
pub open spec fn released(v: HandlesView, fh: u64) -> HandlesView {
    HandlesView { open: v.open.remove(fh), ..v }
}

impl HandleTable {
    /// A table with nothing open. Handle numbers start at one.
    pub fn new() -> (r: HandleTable)
        ensures
            r@ == (HandlesView { open: Map::empty(), next: 1 }),
    {
        broadcast use vstd::std_specs::hash::group_hash_axioms;

        let r = HandleTable { open: HashMap::new(), next: 1 };
        assert(r@.open =~= Map::empty());
        r
    }

    /// Open a file for writing and hand out its handle.
    pub fn open(&mut self, relative: &str, is_new: bool) -> (r: u64)
        ensures
            r == old(self)@.next,
            final(self)@ == opened(old(self)@, relative@, is_new),
    {
        broadcast use vstd::std_specs::hash::group_hash_axioms;

        let ghost before = self@;
        let fh: u64 = self.next;
        self.next = if fh == u64::MAX {
            0
        } else {
            fh + 1
        };
        self.open.insert(
            fh,
            WriteHandle { relative: relative.to_owned(), modified: false, is_new },
        );
        assert(self@.open =~= opened(before, relative@, is_new).open);
        fh
    }

    /// The path of an open handle.
    pub fn relative(&self, fh: u64) -> (r: Option<&str>)
        ensures
            match r {
                Some(relative) => self@.open.contains_key(fh) && relative@
                    == self@.open[fh].relative,
                None => !self@.open.contains_key(fh),
            },
    {
        broadcast use vstd::std_specs::hash::group_hash_axioms;

        match self.open.get(&fh) {
            Some(handle) => Some(handle.relative.as_str()),
            None => None,
        }
    }

    /// Take note of a write through a handle. One that is not open is passed over.
    pub fn mark_modified(&mut self, fh: u64)
        ensures
            final(self)@ == marked_modified(old(self)@, fh),
    {
        broadcast use vstd::std_specs::hash::group_hash_axioms;

        let ghost before = self@;
        if let Some(handle) = self.open.remove(&fh) {
            self.open.insert(fh, WriteHandle { modified: true, ..handle });
        }
        assert(self@.open =~= marked_modified(before, fh).open);
    }

    /// Release a handle and hand back its state.
    pub fn release(&mut self, fh: u64) -> (r: Option<WriteHandle>)
        ensures
            final(self)@ == released(old(self)@, fh),
            match r {
                Some(handle) => old(self)@.open.contains_key(fh) && handle@ == old(self)@.open[fh],
                None => !old(self)@.open.contains_key(fh),
            },
    {
        broadcast use vstd::std_specs::hash::group_hash_axioms;

        let ghost before = self@;
        let handle = self.open.remove(&fh);
        assert(self@.open =~= released(before, fh).open);
        handle
    }
}

/// Whether every open handle was handed out before the next one, counting from one.
pub open spec fn handles_in_order(v: HandlesView) -> bool {
    &&& v.next >= 1
    &&& forall|fh: u64| #[trigger] v.open.contains_key(fh) ==> 1 <= fh < v.next
}

/// As long as the numbers do not start over, a file that is opened gets a handle of its own, which
/// is not the one of files opened for reading; and opening, writing and releasing keep it so.
pub proof fn law_handles_are_distinct(
    v: HandlesView,
    relative: Seq<char>,
    is_new: bool,
    fh: u64,
)
    requires
        handles_in_order(v),
        v.next < u64::MAX,
    ensures
        !v.open.contains_key(v.next),
        v.next != READ_HANDLE,
        handles_in_order(opened(v, relative, is_new)),
        handles_in_order(marked_modified(v, fh)),
        handles_in_order(released(v, fh)),
{
}

/// A handle does not notice what becomes of another.
pub proof fn law_handles_are_independent(v: HandlesView, fh: u64, other: u64)
    requires
        fh != other,
        v.open.contains_key(fh),
    ensures
        marked_modified(v, other).open.contains_key(fh),
        marked_modified(v, other).open[fh] == v.open[fh],
        released(v, other).open.contains_key(fh),
        released(v, other).open[fh] == v.open[fh],
{
}

} // verus!
