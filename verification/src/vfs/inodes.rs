//! Bidirectional map between kernel inode numbers and repository-relative paths.

use std::collections::HashMap;
use vstd::hash_map::StringHashMap;
use vstd::prelude::*;

verus! {

/// The root inode is fixed by the protocol.
pub const ROOT_INODE: u64 = 1;

/// The inodes handed out so far, by inode and by path.
pub struct InodeTable {
    by_inode: HashMap<u64, String>,
    by_path: StringHashMap<u64>,
    next: u64,
}

impl View for InodeTable {
    type V = Seq<Seq<char>>;

    /// The known paths in the order of their inodes: the one of inode `i` stands at `i - 1`.
    closed spec fn view(&self) -> Seq<Seq<char>> {
        Seq::new((self.next - ROOT_INODE) as nat, |i: int| self.by_inode@[(i + 1) as u64]@)
    }
}

/// The path of an inode.
pub open spec fn path_of(paths: Seq<Seq<char>>, inode: u64) -> Option<Seq<char>> {
    if ROOT_INODE <= inode <= paths.len() {
        Some(paths[inode - ROOT_INODE])
    } else {
        None
    }
}

/// Whether `inode` is the inode of `path`.
pub open spec fn is_inode_of(paths: Seq<Seq<char>>, inode: u64, path: Seq<char>) -> bool {
    path_of(paths, inode) == Some(path)
}

/// The known paths after a path was looked up: a path seen for the first time is added.
pub open spec fn interned(paths: Seq<Seq<char>>, path: Seq<char>) -> Seq<Seq<char>> {
    if paths.contains(path) {
        paths
    } else {
        paths.push(path)
    }
}

/// The inode that a path has once it was looked up.
pub open spec fn inode_for(paths: Seq<Seq<char>>, path: Seq<char>) -> u64 {
    (interned(paths, path).index_of(path) + ROOT_INODE) as u64
}

/// The inode of a path leads back to it, and no other inode does.
pub proof fn lemma_inode_for(paths: Seq<Seq<char>>, path: Seq<char>)
    requires
        paths_valid(paths),
        paths.len() < u64::MAX - 1,
    ensures
        paths_valid(interned(paths, path)),
        is_inode_of(interned(paths, path), inode_for(paths, path), path),
        forall|inode: u64|
            is_inode_of(interned(paths, path), inode, path) ==> inode == inode_for(paths, path),
{
    let after = interned(paths, path);
    if !paths.contains(path) {
        assert(after[paths.len() as int] == path);
        assert(after.no_duplicates());
    }
    assert(after.contains(path));
    let i = after.index_of(path);
    assert forall|inode: u64| is_inode_of(after, inode, path) implies inode == inode_for(
        paths,
        path,
    ) by {
        assert(after[inode - ROOT_INODE] == after[i]);
    }
}

/// Whether a list of known paths is one that a table can hold: the root comes first, and no path
/// has two inodes.
pub open spec fn paths_valid(paths: Seq<Seq<char>>) -> bool {
    &&& 1 <= paths.len() < u64::MAX
    &&& paths[0] == Seq::<char>::empty()
    &&& paths.no_duplicates()
}

impl InodeTable {
    /// Whether the two maps are inverse to each other and hold exactly the inodes handed out.
    pub closed spec fn well_formed(&self) -> bool {
        &&& self.next > ROOT_INODE
        &&& forall|inode: u64|
            #![trigger self.by_inode@.contains_key(inode)]
            self.by_inode@.contains_key(inode) <==> ROOT_INODE <= inode < self.next
        &&& forall|inode: u64|
            #![trigger self.by_inode@[inode]]
            ROOT_INODE <= inode < self.next ==> {
                &&& self.by_path@.contains_key(self.by_inode@[inode]@)
                &&& self.by_path@[self.by_inode@[inode]@] == inode
            }
        &&& forall|path: Seq<char>|
            #![trigger self.by_path@.contains_key(path)]
            self.by_path@.contains_key(path) ==> {
                &&& ROOT_INODE <= self.by_path@[path] < self.next
                &&& self.by_inode@[self.by_path@[path]]@ == path
            }
        &&& self.by_inode@[ROOT_INODE]@ == Seq::<char>::empty()
    }

    /// What every well-formed table holds.
    proof fn lemma_valid(&self)
        requires
            self.well_formed(),
        ensures
            paths_valid(self@),
            self@.len() == self.next - ROOT_INODE,
            forall|path: Seq<char>|
                #![trigger self.by_path@.contains_key(path)]
                self.by_path@.contains_key(path) <==> self@.contains(path),
            forall|path: Seq<char>| #[trigger]
                self.by_path@.contains_key(path) ==> is_inode_of(
                    self@,
                    self.by_path@[path],
                    path,
                ),
    {
        assert forall|path: Seq<char>|
            #![trigger self.by_path@.contains_key(path)]
            self.by_path@.contains_key(path) <==> self@.contains(path) by {
            if self.by_path@.contains_key(path) {
                let inode = self.by_path@[path];
                assert(self@[inode - ROOT_INODE] == path);
            }
            if self@.contains(path) {
                let i = choose|i: int| 0 <= i < self@.len() && self@[i] == path;
                assert(self.by_inode@[(i + 1) as u64]@ == path);
            }
        }
        assert forall|i: int, j: int| 0 <= i < self@.len() && 0 <= j < self@.len() && i
            != j implies self@[i] != self@[j] by {
            assert(self.by_path@[self.by_inode@[(i + 1) as u64]@] == i + 1);
            assert(self.by_path@[self.by_inode@[(j + 1) as u64]@] == j + 1);
        }
    }

    /// The paths that a well-formed table knows start with the root, and no two of them are equal.
    pub proof fn lemma_paths_valid(&self)
        requires
            self.well_formed(),
        ensures
            paths_valid(self@),
    {
        self.lemma_valid();
    }

    /// A table that knows the root alone.
    pub fn new() -> (r: InodeTable)
        ensures
            r.well_formed(),
            r@ == seq![Seq::<char>::empty()],
    {
        broadcast use vstd::std_specs::hash::group_hash_axioms;

        let mut by_inode: HashMap<u64, String> = HashMap::new();
        let mut by_path: StringHashMap<u64> = StringHashMap::new();
        let root = String::new();
        let key = String::new();
        assert(root@ =~= Seq::<char>::empty());
        assert(key@ =~= Seq::<char>::empty());
        by_inode.insert(ROOT_INODE, root);
        by_path.insert(key, ROOT_INODE);
        let r = InodeTable { by_inode, by_path, next: ROOT_INODE + 1 };
        assert(r@ =~= seq![Seq::<char>::empty()]);
        r
    }

    /// The path of an inode.
    pub fn path(&self, inode: u64) -> (r: Option<&str>)
        requires
            self.well_formed(),
        ensures
            paths_valid(self@),
            match r {
                Some(path) => path_of(self@, inode) == Some(path@),
                None => path_of(self@, inode) is None,
            },
    {
        broadcast use vstd::std_specs::hash::group_hash_axioms;

        proof {
            self.lemma_valid();
        }
        match self.by_inode.get(&inode) {
            Some(path) => {
                assert(self@[inode - ROOT_INODE] == path@);
                Some(path.as_str())
            },
            None => None,
        }
    }

    /// How many inodes can still be handed out.
    pub fn room(&self) -> (r: u64)
        requires
            self.well_formed(),
        ensures
            r == u64::MAX - 1 - self@.len(),
    {
        proof {
            self.lemma_valid();
        }
        u64::MAX - self.next
    }

    /// The inode of a path, allocating a new one on first sight.
    pub fn intern(&mut self, path: &str) -> (r: u64)
        requires
            old(self).well_formed(),
            old(self)@.len() < u64::MAX - 1,
        ensures
            final(self).well_formed(),
            final(self)@ == interned(old(self)@, path@),
            paths_valid(final(self)@),
            is_inode_of(final(self)@, r, path@),
            r == inode_for(old(self)@, path@),
    {
        broadcast use vstd::std_specs::hash::group_hash_axioms;

        proof {
            self.lemma_valid();
        }
        let ghost before = *self;
        proof {
            lemma_inode_for(before@, path@);
        }
        if let Some(inode) = self.by_path.get(path) {
            return *inode;
        }
        let inode: u64 = self.next;
        self.next = self.next + 1;
        self.by_inode.insert(inode, path.to_owned());
        self.by_path.insert(path.to_owned(), inode);
        assert(self@ =~= before@.push(path@));
        assert(self.well_formed()) by {
            assert forall|i: u64|
                #![trigger self.by_inode@[i]]
                ROOT_INODE <= i < self.next implies {
                &&& self.by_path@.contains_key(self.by_inode@[i]@)
                &&& self.by_path@[self.by_inode@[i]@] == i
            } by {
                if i < inode {
                    assert(before.by_inode@[i] == self.by_inode@[i]);
                    assert(before.by_path@.contains_key(before.by_inode@[i]@));
                }
            }
        }
        proof {
            self.lemma_valid();
        }
        assert(self@[inode - ROOT_INODE] == path@);
        inode
    }
}

/// Looking a path up again changes nothing, and every inode keeps its path when another path is
/// looked up.
pub proof fn law_intern_keeps_inodes(paths: Seq<Seq<char>>, path: Seq<char>, inode: u64)
    ensures
        interned(interned(paths, path), path) == interned(paths, path),
        path_of(paths, inode) is Some ==> path_of(interned(paths, path), inode) == path_of(
            paths,
            inode,
        ),
{
    if !paths.contains(path) {
        assert(paths.push(path)[paths.len() as int] == path);
    }
}

/// A path has one inode and an inode one path, and the root is always inode one.
pub proof fn law_inodes_are_one_to_one(
    paths: Seq<Seq<char>>,
    a: u64,
    b: u64,
    path: Seq<char>,
)
    requires
        paths_valid(paths),
        is_inode_of(paths, a, path),
    ensures
        is_inode_of(paths, b, path) ==> a == b,
        path == Seq::<char>::empty() <==> a == ROOT_INODE,
{
    assert(paths[a - ROOT_INODE] == path);
    if path == Seq::<char>::empty() {
        assert(paths[0] == paths[a - ROOT_INODE]);
    }
}

} // verus!
