//! What a whole enumeration comes to, over all of its callbacks.

use crate::projfs::enumeration::{
    asks_for_all, callback, callbacks, captured, captured_target, directory_end,
    law_callback_adds_what_fits, offered_path, restarted, resume_index, search_text, wanted_from,
    scan_filled, scan_matched, scan_started, with_wide_name, EnumerationEntryView,
    EnumerationView, Scan, ERROR_FILE_NOT_FOUND, ERROR_INSUFFICIENT_BUFFER,
};
use crate::projfs::file_data::{ERROR_OUTOFMEMORY, ERROR_READ_FAULT};
use crate::projfs::win32::{reports, signed, FileBasicInfo};
use crate::text::{last_index, lemma_last_index};
use crate::vfs::tree::{DirEntryView, EntryKind};
use crate::wide::{utf16, utf16_lossy};
use vstd::prelude::*;

verus! {

/// The enumeration that a series of callbacks leaves behind.
pub open spec fn after_callbacks(
    v: EnumerationView,
    matches: spec_fn(int) -> bool,
    rooms: Seq<nat>,
) -> EnumerationView
    decreases rooms.len(),
{
    if rooms.len() == 0 {
        v
    } else {
        after_callbacks(callback(v, matches, rooms[0]).1, matches, rooms.skip(1))
    }
}

/// The enumeration that starts over with a search and the listing of the directory it is about.
pub open spec fn begun_over(
    v: EnumerationView,
    expression: Option<Seq<u16>>,
    file: Seq<EnumerationEntryView>,
) -> EnumerationView {
    EnumerationView { file, ..captured(restarted(v, true), expression) }
}

/// Whether an entry is one that a search is for: every one where there is no search or it asks for
/// all, and else those whose name the system matches with it.
pub open spec fn is_searched_for(
    expression: Option<Seq<u16>>,
    matches: spec_fn(Seq<u16>, Seq<u16>) -> bool,
    entry: EnumerationEntryView,
) -> bool {
    let text = search_text(expression);
    text.len() == 0 || asks_for_all(text) || matches(entry.file_name, expression->0.push(0))
}

/// The system's matching of the names of a listing with the search of an enumeration, by index.
pub open spec fn matches_at(
    v: EnumerationView,
    matches: spec_fn(Seq<u16>, Seq<u16>) -> bool,
) -> spec_fn(int) -> bool {
    |i: int| matches(v.file[i].file_name, v.search_wide)
}

/// The entries that a series of callbacks hands out, one after the other.
pub open spec fn handed_out(
    v: EnumerationView,
    matches: spec_fn(Seq<u16>, Seq<u16>) -> bool,
    rooms: Seq<nat>,
) -> Seq<EnumerationEntryView> {
    callbacks(v, matches_at(v, matches), rooms).map_values(|i: int| v.file[i])
}

/// What callbacks add, and what is still wanted after them, make up what was wanted.
proof fn lemma_after_callbacks(v: EnumerationView, matches: spec_fn(int) -> bool, rooms: Seq<nat>)
    requires
        v.file.len() <= usize::MAX,
        resume_index(v) <= v.file.len(),
    ensures
        ({
            let after = after_callbacks(v, matches, rooms);
            &&& after.file == v.file
            &&& after.search == v.search
            &&& resume_index(after) <= after.file.len()
            &&& callbacks(v, matches, rooms) + wanted_from(after, resume_index(after), matches)
                == wanted_from(v, resume_index(v), matches)
        }),
    decreases rooms.len(),
{
    let wanted = wanted_from(v, resume_index(v), matches);
    if rooms.len() == 0 {
        assert(Seq::<int>::empty() + wanted =~= wanted);
    } else {
        let (added, next, code) = callback(v, matches, rooms[0]);
        law_callback_adds_what_fits(v, matches, rooms[0]);
        lemma_after_callbacks(next, matches, rooms.skip(1));
        let later = callbacks(next, matches, rooms.skip(1));
        let after = after_callbacks(v, matches, rooms);
        let left = wanted_from(after, resume_index(after), matches);
        assert(later + left == wanted.skip(added.len() as int));
        assert(added == wanted.take(added.len() as int));
        assert(added + later + left =~= added + (later + left));
        assert(added + wanted.skip(added.len() as int) =~= wanted);
    }
}

/// The entries that are wanted are those of the listing that the search is for, in order.
proof fn lemma_wanted_entries(
    v: EnumerationView,
    from: int,
    matches: spec_fn(int) -> bool,
    wanted: spec_fn(EnumerationEntryView) -> bool,
)
    requires
        0 <= from <= v.file.len(),
        forall|i: int|
            0 <= i < v.file.len() ==> wanted(#[trigger] v.file[i]) == (v.search.len() == 0
                || matches(i)),
    ensures
        wanted_from(v, from, matches).map_values(|i: int| v.file[i]) == v.file.skip(from).filter(
            wanted,
        ),
    decreases v.file.len() - from,
{
    let entries = |i: int| v.file[i];
    if from == v.file.len() {
        assert(v.file.skip(from) =~= Seq::empty());
        reveal(Seq::filter);
        assert(wanted_from(v, from, matches).map_values(entries) =~= Seq::empty());
    } else {
        let rest = v.file.skip(from + 1);
        lemma_wanted_entries(v, from + 1, matches, wanted);
        rest.lemma_filter_prepend(v.file[from], wanted);
        assert(v.file.skip(from) =~= seq![v.file[from]] + rest);
        let later = wanted_from(v, from + 1, matches);
        if wanted(v.file[from]) {
            assert((seq![from] + later).map_values(entries) =~= seq![v.file[from]]
                + later.map_values(entries));
        } else {
            assert(Seq::<EnumerationEntryView>::empty() + rest.filter(wanted) =~= rest.filter(
                wanted,
            ));
        }
    }
}

/// A filter keeps every element that it is for as often as it was there, and no other.
proof fn lemma_filter_counts<A>(s: Seq<A>, wanted: spec_fn(A) -> bool, a: A)
    ensures
        s.filter(wanted).to_multiset().count(a) == if wanted(a) {
            s.to_multiset().count(a)
        } else {
            0
        },
    decreases s.len(),
{
    broadcast use vstd::seq_lib::group_to_multiset_ensures;

    reveal(Seq::filter);
    if s.len() > 0 {
        let before = s.drop_last();
        lemma_filter_counts(before, wanted, a);
        assert(s =~= before.push(s.last()));
        assert(s.to_multiset() == before.to_multiset().insert(s.last()));
    }
}

/// A filter keeps the order of what it keeps.
proof fn lemma_filter_in_order<A>(
    s: Seq<A>,
    wanted: spec_fn(A) -> bool,
    le: spec_fn(A, A) -> bool,
)
    requires
        forall|i: int, j: int| 0 <= i < j < s.len() ==> le(#[trigger] s[i], #[trigger] s[j]),
    ensures
        forall|i: int, j: int|
            0 <= i < j < s.filter(wanted).len() ==> le(
                #[trigger] s.filter(wanted)[i],
                #[trigger] s.filter(wanted)[j],
            ),
        forall|i: int|
            0 <= i < s.filter(wanted).len() ==> exists|k: int|
                0 <= k < s.len() && s[k] == #[trigger] s.filter(wanted)[i],
    decreases s.len(),
{
    reveal(Seq::filter);
    if s.len() > 0 {
        let before = s.drop_last();
        lemma_filter_in_order(before, wanted, le);
        let kept = s.filter(wanted);
        let earlier = before.filter(wanted);
        assert forall|i: int| 0 <= i < kept.len() implies exists|k: int|
            0 <= k < s.len() && s[k] == #[trigger] kept[i] by {
            if i < earlier.len() {
                assert(kept[i] == earlier[i]);
                let k = choose|k: int| 0 <= k < before.len() && before[k] == earlier[i];
                assert(s[k] == kept[i]);
            } else {
                assert(s[s.len() - 1] == kept[i]);
            }
        }
        assert forall|i: int, j: int| 0 <= i < j < kept.len() implies le(
            #[trigger] kept[i],
            #[trigger] kept[j],
        ) by {
            assert(kept[i] == earlier[i]);
            if j < earlier.len() {
                assert(kept[j] == earlier[j]);
            } else {
                let k = choose|k: int| 0 <= k < before.len() && before[k] == earlier[i];
                assert(s[k] == kept[i]);
                assert(s[s.len() - 1] == kept[j]);
            }
        }
    }
}

/// An enumeration that starts over with no search, with one for everything or with one that names
/// no directory lists the requested directory. When it is continued until a callback with room for
/// an entry adds none, however the buffers are sized, the callbacks have together handed out the
/// entries of the listing that the search is for: each as often as the directory holds it, none
/// besides, and in the order of the listing. Each is offered under its own name, a directory
/// without a size and a file with its own.
pub proof fn law_enumeration_hands_out_what_is_searched_for(
    v: EnumerationView,
    expression: Option<Seq<u16>>,
    entries: Seq<DirEntryView>,
    file: Seq<EnumerationEntryView>,
    le: spec_fn(EnumerationEntryView, EnumerationEntryView) -> bool,
    matches: spec_fn(Seq<u16>, Seq<u16>) -> bool,
    rooms: Seq<nat>,
    room: nat,
)
    requires
        directory_end(search_text(expression)) is None,
        file.len() <= usize::MAX,
        file.to_multiset() == entries.map_values(
            |e: DirEntryView| with_wide_name(e),
        ).to_multiset(),
        forall|i: int, j: int| 0 <= i < j < file.len() ==> le(#[trigger] file[i], #[trigger] file[j]),
        room > 0,
        ({
            let start = begun_over(v, expression, file);
            let after = after_callbacks(start, matches_at(start, matches), rooms);
            callback(after, matches_at(start, matches), room).0.len() == 0
        }),
    ensures
        captured_target(expression) is None,
        ({
            let start = begun_over(v, expression, file);
            let handed = handed_out(start, matches, rooms);
            let named = entries.map_values(|e: DirEntryView| with_wide_name(e));
            let wanted = |e: EnumerationEntryView| is_searched_for(expression, matches, e);
            &&& handed == file.filter(wanted)
            &&& forall|e: EnumerationEntryView| #[trigger]
                handed.to_multiset().count(e) == if is_searched_for(expression, matches, e) {
                    named.to_multiset().count(e)
                } else {
                    0
                }
            &&& forall|i: int, j: int|
                0 <= i < j < handed.len() ==> le(#[trigger] handed[i], #[trigger] handed[j])
            &&& forall|e: EnumerationEntryView| #[trigger]
                offered_path(start.base_path, e.file_name) == e.file_name.push(0)
        }),
        forall|e: EnumerationEntryView, info: FileBasicInfo, ms: u64| #[trigger]
            reports(info, e.entry.kind, e.entry.size, ms) ==> info.file_size == if e.entry.kind
                == EntryKind::Directory {
                0
            } else {
                signed(e.entry.size)
            },
{
    let start = begun_over(v, expression, file);
    let at = matches_at(start, matches);
    let text = search_text(expression);
    let wanted = |e: EnumerationEntryView| is_searched_for(expression, matches, e);
    let after = after_callbacks(start, at, rooms);
    lemma_after_callbacks(start, at, rooms);
    law_callback_adds_what_fits(after, at, room);
    let left = wanted_from(after, resume_index(after), at);
    assert(left.len() == 0);
    assert(callbacks(start, at, rooms) + left =~= callbacks(start, at, rooms));
    assert(utf16_lossy(Seq::empty()) =~= Seq::empty());
    assert(expression matches Some(units) && units.len() == 0 ==> expression->0 =~= Seq::empty());
    assert forall|i: int| 0 <= i < start.file.len() implies wanted(#[trigger] start.file[i]) == (
    start.search.len() == 0 || at(i)) by {
        if !asks_for_all(text) && text.len() > 0 {
            assert(start.search_wide == expression->0.push(0));
        }
    }
    lemma_wanted_entries(start, 0, at, wanted);
    assert(start.file.skip(0) =~= file);
    let handed = handed_out(start, matches, rooms);
    assert(handed == file.filter(wanted));
    assert forall|e: EnumerationEntryView| #[trigger]
        handed.to_multiset().count(e) == if is_searched_for(expression, matches, e) {
            entries.map_values(|e: DirEntryView| with_wide_name(e)).to_multiset().count(e)
        } else {
            0
        } by {
        lemma_filter_counts(file, wanted, e);
    }
    lemma_filter_in_order(file, wanted, le);
    assert(utf16(start.base_path) =~= Seq::empty());
    assert forall|e: EnumerationEntryView| #[trigger]
        offered_path(start.base_path, e.file_name) == e.file_name.push(0) by {
        assert(Seq::<u16>::empty() + e.file_name =~= e.file_name);
    }
}

/// A search without a directory, or none, lists the requested directory; one that asks for all
/// searches for nothing in particular. A search that names a directory lists that one, and what
/// stands from its last separator on is searched for in it.
pub proof fn law_search_names_where_and_what(
    v: EnumerationView,
    expression: Seq<u16>,
    directory: Seq<char>,
    name: Seq<char>,
)
    requires
        directory.len() > 0,
        !name.contains('/'),
        utf16_lossy(expression) == directory + seq!['/'] + name,
    ensures
        captured_target(Some(expression)) == Some(directory),
        ({
            let after = captured(v, Some(expression));
            &&& after.base_path == directory
            &&& after.search == seq!['/'] + name
            &&& after.search_wide == utf16(seq!['/'] + name).push(0)
            &&& after.file == Seq::<EnumerationEntryView>::empty()
            &&& !after.capture_search
        }),
{
    let text = directory + seq!['/'] + name;
    lemma_last_index(text, '/');
    let sep = last_index(text, '/');
    assert(text[directory.len() as int] == '/');
    if sep > directory.len() {
        assert(name[sep - directory.len() - 1] == '/');
    }
    assert(text.take(sep) =~= directory);
    assert(text.skip(sep) =~= seq!['/'] + name);
    assert(text.len() > 1);
}

/// A search that asks for all, with an asterisk or a lone separator, and the absence of one list the
/// requested directory whole.
pub proof fn law_search_for_all_lists_everything(
    v: EnumerationView,
    expression: Option<Seq<u16>>,
)
    requires
        expression is None || utf16_lossy(expression->0) == seq!['*'] || utf16_lossy(expression->0)
            == seq!['/'],
    ensures
        captured_target(expression) is None,
        captured(v, expression).search.len() == 0,
        captured(v, expression).base_path.len() == 0,
        !captured(v, expression).capture_search,
{
    let text = search_text(expression);
    if expression is None {
        lemma_last_index(text, '/');
    }
}

/// A search that names no directory is kept as it is, and the requested directory is listed.
pub proof fn law_plain_search_is_kept(v: EnumerationView, expression: Seq<u16>)
    requires
        expression.len() > 0,
        !utf16_lossy(expression).contains('/'),
        utf16_lossy(expression) != seq!['*'],
    ensures
        captured_target(Some(expression)) is None,
        captured(v, Some(expression)).search == utf16_lossy(expression),
        captured(v, Some(expression)).search_wide == expression.push(0),
        captured(v, Some(expression)).base_path.len() == 0,
{
    let text = utf16_lossy(expression);
    lemma_last_index(text, '/');
    if last_index(text, '/') >= 0 {
        assert(text.contains(text[last_index(text, '/')]));
    }
    if text == seq!['/'] {
        assert(text[0] == '/');
        assert(text.contains('/'));
    }
}

/// A restart captures the search anew and starts from the first entry; without one an enumeration
/// goes on where it stands.
pub proof fn law_restart_starts_over(v: EnumerationView)
    ensures
        restarted(v, true).capture_search,
        restarted(v, true).last_index is None,
        !restarted(v, true).done,
        resume_index(restarted(v, true)) == 0,
        restarted(v, false) == v,
{
}

/// An entry that the system takes counts as added, and the scan moves on to the next one; one that
/// does not match is passed over and does not count; one that does is offered. Any answer but that
/// the buffer is full counts as taken, and a full buffer ends the callback at that very entry, which
/// fails only where nothing was added.
pub proof fn law_scan_moves_entry_by_entry(
    v: EnumerationView,
    index: usize,
    added: usize,
    answer: i32,
)
    requires
        added <= index < v.file.len() <= usize::MAX,
    ensures
        ({
            let testing = Scan::Testing { index, added };
            let offering = Scan::Offering { index, added };
            let last = index + 1 == v.file.len();
            &&& scan_matched(v, testing, true) == (v, offering)
            &&& scan_matched(v, testing, false).1 == if last {
                Scan::Ended { code: 0 }
            } else if v.search.len() == 0 {
                Scan::Offering { index: (index + 1) as usize, added }
            } else {
                Scan::Testing { index: (index + 1) as usize, added }
            }
            &&& answer != ERROR_INSUFFICIENT_BUFFER ==> scan_filled(v, offering, answer).1 == if last {
                Scan::Ended { code: 0 }
            } else if v.search.len() == 0 {
                Scan::Offering { index: (index + 1) as usize, added: (added + 1) as usize }
            } else {
                Scan::Testing { index: (index + 1) as usize, added: (added + 1) as usize }
            }
            &&& scan_filled(v, offering, ERROR_INSUFFICIENT_BUFFER).1 == (Scan::Ended {
                code: if added == 0 {
                    ERROR_INSUFFICIENT_BUFFER
                } else {
                    0
                },
            })
            &&& scan_filled(v, offering, ERROR_INSUFFICIENT_BUFFER).0.last_index == Some(index)
            &&& last ==> resume_index(scan_matched(v, testing, false).0) == v.file.len()
        }),
{
}

/// A callback begins at the entry where the last one stopped, and is over at once where none is
/// left.
pub proof fn law_callback_begins_where_the_last_stopped(v: EnumerationView)
    requires
        v.file.len() <= usize::MAX,
    ensures
        ({
            let from = if v.last_index is Some {
                v.last_index->0 as int
            } else {
                0
            };
            let (after, scan) = scan_started(v);
            &&& from >= v.file.len() ==> scan == (Scan::Ended { code: 0 }) && after.done
            &&& from < v.file.len() && v.search.len() == 0 ==> scan == (Scan::Offering {
                index: from as usize,
                added: 0,
            })
            &&& from < v.file.len() && v.search.len() > 0 ==> scan == (Scan::Testing {
                index: from as usize,
                added: 0,
            })
            &&& after.file == v.file && after.search == v.search && after.base_path == v.base_path
        }),
{
}

/// An entry is offered under the directory that was searched, a separator, and its own name; where
/// none was searched, under its name alone.
pub proof fn law_entries_are_offered_under_their_directory(
    directory: Seq<char>,
    file_name: Seq<u16>,
)
    ensures
        ({
            let base = utf16(directory);
            &&& base.len() == 0 ==> offered_path(directory, file_name) == file_name.push(0)
            &&& base.len() > 0 && base.last() == 47 ==> offered_path(directory, file_name) == (base
                + file_name).push(0)
            &&& base.len() > 0 && base.last() != 47 ==> offered_path(directory, file_name) == (base
                + seq![47u16] + file_name).push(0)
        }),
{
    let base = utf16(directory);
    assert('/' as u16 == 47);
    if base.len() == 0 {
        assert(base + file_name =~= file_name);
    }
    assert(base.push(47) =~= base + seq![47u16]);
}

/// A listed entry keeps what it says and gets its own name, with a zero behind it.
pub proof fn law_entries_get_their_own_names(entry: DirEntryView)
    ensures
        with_wide_name(entry).entry == entry,
        with_wide_name(entry).file_name == utf16(entry.name) + seq![0u16],
{
    assert(utf16(entry.name).push(0) =~= utf16(entry.name) + seq![0u16]);
}

/// The codes that callbacks return are the Windows errors in the form of results: the error's number
/// in the low half, and the failure bit and the facility in the high half.
pub proof fn law_codes_are_windows_errors()
    ensures
        ERROR_FILE_NOT_FOUND + 0x1_0000_0000 == 0x8007_0000 + 2,
        ERROR_OUTOFMEMORY + 0x1_0000_0000 == 0x8007_0000 + 14,
        ERROR_READ_FAULT + 0x1_0000_0000 == 0x8007_0000 + 30,
        ERROR_INSUFFICIENT_BUFFER + 0x1_0000_0000 == 0x8007_0000 + 122,
{
}

} // verus!
