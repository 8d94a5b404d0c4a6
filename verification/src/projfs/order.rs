//! Sorting a listing by a name comparison that the system provides.

use crate::projfs::enumeration::{with_wide_name, EnumerationEntry, EnumerationEntryView};
use crate::vfs::tree::{entry_views, DirEntry, DirEntryView};
use crate::wide::encode_utf16;
use vstd::prelude::*;

verus! {

/// What a listing's entries say.
pub open spec fn listing_views(entries: Seq<EnumerationEntry>) -> Seq<EnumerationEntryView> {
    entries.map_values(|e: EnumerationEntry| e@)
}

/// Whether a relation on names is reflexive, transitive and total.
pub open spec fn is_total_preorder(le: spec_fn(Seq<u16>, Seq<u16>) -> bool) -> bool {
    &&& forall|a: Seq<u16>, b: Seq<u16>| #[trigger] le(a, b) || le(b, a)
    &&& forall|a: Seq<u16>, b: Seq<u16>, c: Seq<u16>|
        #[trigger] le(a, b) && #[trigger] le(b, c) ==> le(a, c)
}

/// Whether a comparison answers by a relation: at most zero only where the first name is not
/// after the second, at least zero only where it is not before it.
pub open spec fn compares_by<C: Fn(&Vec<u16>, &Vec<u16>) -> i32>(
    compare: C,
    le: spec_fn(Seq<u16>, Seq<u16>) -> bool,
) -> bool {
    forall|a: &Vec<u16>, b: &Vec<u16>, r: i32| #[trigger]
        compare.ensures((a, b), r) ==> (r <= 0 ==> le(a@, b@)) && (r >= 0 ==> le(b@, a@))
}

/// Whether a listing is in the order of a relation.
pub open spec fn in_order(
    file: Seq<EnumerationEntry>,
    le: spec_fn(Seq<u16>, Seq<u16>) -> bool,
) -> bool {
    forall|i: int, j: int|
        0 <= i < j < file.len() ==> le(#[trigger] file[i].file_name@, #[trigger] file[j].file_name@)
}

/// Give every entry its zero-terminated wide name.
pub fn name_entries(entries: Vec<DirEntry>) -> (r: Vec<EnumerationEntry>)
    ensures
        listing_views(r@) == entry_views(entries@).map_values(|e: DirEntryView| with_wide_name(e)),
{
    let mut out: Vec<EnumerationEntry> = Vec::new();
    let ghost all = entry_views(entries@);
    for entry in it: entries
        invariant
            it.seq() == entries@,
            all == entry_views(entries@),
            listing_views(out@) == all.take(it.index()).map_values(
                |e: DirEntryView| with_wide_name(e),
            ),
    {
        let ghost before = listing_views(out@);
        let mut file_name = encode_utf16(entry.name.as_str());
        file_name.push(0);
        let named = EnumerationEntry { entry, file_name };
        assert(named@ == with_wide_name(all[it.index()]));
        out.push(named);
        assert(listing_views(out@) =~= before.push(named@));
        assert(listing_views(out@) =~= all.take(it.index() + 1).map_values(
            |e: DirEntryView| with_wide_name(e),
        ));
    }
    assert(all.take(all.len() as int) =~= all);
    out
}

/// Position at which an entry goes into a listing that is in order: after everything that is not
/// after it.
fn insertion_point<C: Fn(&Vec<u16>, &Vec<u16>) -> i32>(
    file: &Vec<EnumerationEntry>,
    name: &Vec<u16>,
    compare: &C,
) -> (r: usize)
    requires
        forall|a: &Vec<u16>, b: &Vec<u16>| #[trigger] compare.requires((a, b)),
    ensures
        r <= file@.len(),
        forall|le: spec_fn(Seq<u16>, Seq<u16>) -> bool|
            #![trigger is_total_preorder(le)]
            is_total_preorder(le) && compares_by(*compare, le) && in_order(file@, le) ==> {
                &&& forall|k: int| 0 <= k < r ==> le(#[trigger] file@[k].file_name@, name@)
                &&& forall|k: int|
                    r <= k < file@.len() ==> le(name@, #[trigger] file@[k].file_name@)
            },
{
    let mut lo: usize = 0;
    let mut hi: usize = file.len();
    while lo < hi
        invariant
            lo <= hi <= file@.len(),
            forall|a: &Vec<u16>, b: &Vec<u16>| #[trigger] compare.requires((a, b)),
            forall|le: spec_fn(Seq<u16>, Seq<u16>) -> bool|
                #![trigger is_total_preorder(le)]
                is_total_preorder(le) && compares_by(*compare, le) && in_order(file@, le) ==> {
                    &&& forall|k: int| 0 <= k < lo ==> le(#[trigger] file@[k].file_name@, name@)
                    &&& forall|k: int|
                        hi <= k < file@.len() ==> le(name@, #[trigger] file@[k].file_name@)
                },
        decreases hi - lo,
    {
        let mid: usize = lo + (hi - lo) / 2;
        let order: i32 = compare(name, &file[mid].file_name);
        let ghost at = file@[mid as int].file_name@;
        if order < 0 {
            assert forall|le: spec_fn(Seq<u16>, Seq<u16>) -> bool|
                #![trigger is_total_preorder(le)]
                is_total_preorder(le) && compares_by(*compare, le) && in_order(
                    file@,
                    le,
                ) implies forall|k: int|
                mid <= k < file@.len() ==> le(name@, #[trigger] file@[k].file_name@) by {
                assert(le(name@, at));
                assert forall|k: int| mid <= k < file@.len() implies le(
                    name@,
                    #[trigger] file@[k].file_name@,
                ) by {
                    if k > mid {
                        assert(le(at, file@[k].file_name@));
                    }
                }
            }
            hi = mid;
        } else {
            assert forall|le: spec_fn(Seq<u16>, Seq<u16>) -> bool|
                #![trigger is_total_preorder(le)]
                is_total_preorder(le) && compares_by(*compare, le) && in_order(
                    file@,
                    le,
                ) implies forall|k: int|
                0 <= k <= mid ==> le(#[trigger] file@[k].file_name@, name@) by {
                assert(le(at, name@));
                assert forall|k: int| 0 <= k <= mid implies le(
                    #[trigger] file@[k].file_name@,
                    name@,
                ) by {
                    if k < mid {
                        assert(le(file@[k].file_name@, at));
                    }
                }
            }
            lo = mid + 1;
        }
    }
    lo
}

/// Sort a listing by name. The result holds the same entries; it is in the order of every total
/// preorder that the comparison answers by.
pub fn sort_by_name<C: Fn(&Vec<u16>, &Vec<u16>) -> i32>(
    entries: Vec<EnumerationEntry>,
    compare: C,
) -> (r: Vec<EnumerationEntry>)
    requires
        forall|a: &Vec<u16>, b: &Vec<u16>| #[trigger] compare.requires((a, b)),
    ensures
        listing_views(r@).to_multiset() == listing_views(entries@).to_multiset(),
        forall|le: spec_fn(Seq<u16>, Seq<u16>) -> bool|
            #![trigger is_total_preorder(le)]
            is_total_preorder(le) && compares_by(compare, le) ==> in_order(r@, le),
{
    broadcast use vstd::seq_lib::group_to_multiset_ensures;

    let mut out: Vec<EnumerationEntry> = Vec::new();
    let ghost all = listing_views(entries@);
    assert(all.take(0) =~= listing_views(out@));
    for entry in it: entries
        invariant
            it.seq() == entries@,
            all == listing_views(entries@),
            forall|a: &Vec<u16>, b: &Vec<u16>| #[trigger] compare.requires((a, b)),
            listing_views(out@).to_multiset() == all.take(it.index()).to_multiset(),
            forall|le: spec_fn(Seq<u16>, Seq<u16>) -> bool|
                #![trigger is_total_preorder(le)]
                is_total_preorder(le) && compares_by(compare, le) ==> in_order(out@, le),
    {
        broadcast use vstd::seq_lib::group_to_multiset_ensures;

        let at = insertion_point(&out, &entry.file_name, &compare);
        let ghost before = out@;
        let ghost new = entry;
        out.insert(at, entry);
        proof {
            assert(out@ == before.insert(at as int, new));
            assert(listing_views(out@) =~= listing_views(before).insert(at as int, new@));
            vstd::seq_lib::to_multiset_insert(listing_views(before), at as int, new@);
            assert(all.take(it.index() + 1) =~= all.take(it.index()).push(new@));
            assert forall|le: spec_fn(Seq<u16>, Seq<u16>) -> bool|
                #![trigger is_total_preorder(le)]
                is_total_preorder(le) && compares_by(compare, le) implies in_order(out@, le) by {
                assert(in_order(before, le));
                assert forall|i: int, j: int| 0 <= i < j < out@.len() implies le(
                    #[trigger] out@[i].file_name@,
                    #[trigger] out@[j].file_name@,
                ) by {
                    let bi = if i < at { i } else { i - 1 };
                    let bj = if j < at { j } else { j - 1 };
                    if i != at {
                        assert(out@[i] == before[bi]);
                    }
                    if j != at {
                        assert(out@[j] == before[bj]);
                    }
                }
            }
        }
    }
    assert(all.take(all.len() as int) =~= all);
    out
}

} // verus!
