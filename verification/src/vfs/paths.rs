//! Repository-relative paths: forward-slash separated, with no leading slash.

use crate::text::{chars_of, last_index, lemma_last_index, rfind_char, string_of};
use vstd::prelude::*;

verus! {

/// The path of `name` within the directory `parent`.
pub open spec fn joined_path(parent: Seq<char>, name: Seq<char>) -> Seq<char> {
    if parent.len() == 0 {
        name
    } else {
        parent.push('/') + name
    }
}

/// Join a repository-relative parent path with a child name.
pub fn join_path(parent: &str, name: &str) -> (r: String)
    ensures
        r@ == joined_path(parent@, name@),
{
    if parent.is_empty() {
        name.to_owned()
    } else {
        let mut path = parent.to_owned();
        path.push('/');
        path.append(name);
        path
    }
}

/// The directory that a path lies in; the root for a path without a slash.
pub open spec fn parent_path(path: Seq<char>) -> Seq<char> {
    let slash = last_index(path, '/');
    if slash < 0 {
        Seq::empty()
    } else {
        path.take(slash)
    }
}

/// The directory that a path lies in.
pub fn parent_of(path: &str) -> (r: String)
    ensures
        r@ == parent_path(path@),
{
    let chars = chars_of(path);
    match rfind_char(chars.as_slice(), '/') {
        Some(slash) => {
            proof {
                lemma_last_index(path@, '/');
            }
            let r = string_of(chars.as_slice(), 0, slash);
            assert(r@ =~= path@.take(slash as int));
            r
        },
        None => {
            let r = String::new();
            assert(r@ =~= Seq::<char>::empty());
            r
        },
    }
}

/// A child lies in the directory that it was joined to, when its name has no slash.
pub proof fn law_parent_of_child(parent: Seq<char>, name: Seq<char>)
    requires
        !name.contains('/'),
    ensures
        parent_path(joined_path(parent, name)) == parent,
{
    let path = joined_path(parent, name);
    lemma_last_index(path, '/');
    let slash = last_index(path, '/');
    if parent.len() == 0 {
        if slash >= 0 {
            assert(name.contains(name[slash]));
        }
        assert(parent =~= Seq::<char>::empty());
    } else {
        assert(path[parent.len() as int] == '/');
        if slash > parent.len() {
            assert(name[slash - parent.len() - 1] == '/');
        }
        assert(path.take(slash) =~= parent);
    }
}

/// Two children of one directory have the same path only when they have the same name.
pub proof fn law_child_names_are_distinct(parent: Seq<char>, a: Seq<char>, b: Seq<char>)
    requires
        joined_path(parent, a) == joined_path(parent, b),
    ensures
        a == b,
{
    if parent.len() > 0 {
        let prefix = parent.push('/');
        assert(a =~= (prefix + a).skip(prefix.len() as int));
        assert(b =~= (prefix + b).skip(prefix.len() as int));
    }
}

} // verus!
