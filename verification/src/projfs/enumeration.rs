//! One directory enumeration, as the system drives it: a search is captured once, the directory
//! is listed and sorted once, and the matching entries are then handed out over as many callbacks
//! as the system's buffers need.

use crate::projfs::order::{
    compares_by, in_order, is_total_preorder, name_entries, sort_by_name,
};
use crate::projfs::win32::{basic_info, reports, FileBasicInfo, MAX_FILETIME_MS};
use crate::text::{chars_of, last_index, lemma_last_index, rfind_char, string_of};
use crate::vfs::tree::{entry_views, DirEntry, DirEntryView};
use crate::wide::{decode_utf16_lossy, encode_utf16, utf16, utf16_lossy};
use vstd::prelude::*;

verus! {

/// `HRESULT` for "the file was not found".
pub const ERROR_FILE_NOT_FOUND: i32 = -2147024894;

/// `HRESULT` for "the buffer is too small".
pub const ERROR_INSUFFICIENT_BUFFER: i32 = -2147024774;

/// A listed entry together with its leaf name as a zero-terminated UTF-16 string.
pub struct EnumerationEntry {
    pub entry: DirEntry,
    pub file_name: Vec<u16>,
}

/// What an [`EnumerationEntry`] says.
pub struct EnumerationEntryView {
    pub entry: DirEntryView,
    pub file_name: Seq<u16>,
}

impl View for EnumerationEntry {
    type V = EnumerationEntryView;

    open spec fn view(&self) -> EnumerationEntryView {
        EnumerationEntryView { entry: self.entry@, file_name: self.file_name@ }
    }
}

/// An entry with the wide name that belongs to it.
pub open spec fn with_wide_name(e: DirEntryView) -> EnumerationEntryView {
    EnumerationEntryView { entry: e, file_name: utf16(e.name).push(0) }
}

/// State of one enumeration between the callbacks that drive it.
pub struct EnumerationInstance {
    pub search: String,
    pub search_wide: Vec<u16>,
    pub base_path: String,
    pub file: Vec<EnumerationEntry>,
    pub last_index: Option<usize>,
    pub capture_search: bool,
    pub done: bool,
}

/// What an [`EnumerationInstance`] holds.
pub struct EnumerationView {
    pub search: Seq<char>,
    pub search_wide: Seq<u16>,
    pub base_path: Seq<char>,
    pub file: Seq<EnumerationEntryView>,
    pub last_index: Option<usize>,
    pub capture_search: bool,
    pub done: bool,
}

impl View for EnumerationInstance {
    type V = EnumerationView;

    open spec fn view(&self) -> EnumerationView {
        EnumerationView {
            search: self.search@,
            search_wide: self.search_wide@,
            base_path: self.base_path@,
            file: self.file@.map_values(|e: EnumerationEntry| e@),
            last_index: self.last_index,
            capture_search: self.capture_search,
            done: self.done,
        }
    }
}

/// The directory that a captured search lists.
pub enum ScanTarget {
    /// The directory that the callback names.
    Requested,
    /// The directory part of the search expression.
    Searched(String),
}

/// What a [`ScanTarget`] names: nothing for the callback's own directory.
pub open spec fn target_view(t: ScanTarget) -> Option<Seq<char>> {
    match t {
        ScanTarget::Requested => None,
        ScanTarget::Searched(path) => Some(path@),
    }
}

/// The text of a search expression; an absent or empty one searches for nothing in particular.
pub open spec fn search_text(expression: Option<Seq<u16>>) -> Seq<char> {
    match expression {
        Some(units) => utf16_lossy(units),
        None => Seq::empty(),
    }
}

/// Whether a search text asks for every file.
pub open spec fn asks_for_all(text: Seq<char>) -> bool {
    text == seq!['*'] || text == seq!['/']
}

/// Where the directory part of a search text ends: the last separator, unless it comes first.
pub open spec fn directory_end(text: Seq<char>) -> Option<int> {
    let sep = last_index(text, '/');
    if !asks_for_all(text) && sep > 0 {
        Some(sep)
    } else {
        None
    }
}

/// The enumeration once a restart has been honoured.
pub open spec fn restarted(v: EnumerationView, restart: bool) -> EnumerationView {
    if restart {
        EnumerationView { done: false, capture_search: true, last_index: None, ..v }
    } else {
        v
    }
}

/// The enumeration once it has taken note of what is searched for, before the workspace is known
/// to have a path.
pub open spec fn noted(v: EnumerationView, expression: Option<Seq<u16>>) -> EnumerationView {
    let units = match expression {
        Some(units) => units,
        None => Seq::empty(),
    };
    EnumerationView {
        capture_search: false,
        search: search_text(expression),
        search_wide: if units.len() > 0 {
            units.push(0)
        } else {
            v.search_wide
        },
        file: Seq::empty(),
        ..v
    }
}

/// The enumeration once the search is split into a directory and what is searched for in it.
pub open spec fn captured(v: EnumerationView, expression: Option<Seq<u16>>) -> EnumerationView {
    let n = noted(v, expression);
    let text = n.search;
    if asks_for_all(text) {
        EnumerationView {
            search: Seq::empty(),
            search_wide: Seq::empty(),
            base_path: Seq::empty(),
            ..n
        }
    } else {
        match directory_end(text) {
            Some(sep) => EnumerationView {
                search: text.skip(sep),
                search_wide: utf16(text.skip(sep)).push(0),
                base_path: text.take(sep),
                ..n
            },
            None => EnumerationView { base_path: Seq::empty(), ..n },
        }
    }
}

/// The directory that a captured search lists.
pub open spec fn captured_target(expression: Option<Seq<u16>>) -> Option<Seq<char>> {
    match directory_end(search_text(expression)) {
        Some(sep) => Some(search_text(expression).take(sep)),
        None => None,
    }
}

impl EnumerationInstance {
    /// A new enumeration, which captures the search of its first callback.
    pub fn new() -> (r: EnumerationInstance)
        ensures
            r@ == (EnumerationView {
                search: Seq::empty(),
                search_wide: Seq::empty(),
                base_path: Seq::empty(),
                file: Seq::empty(),
                last_index: None,
                capture_search: true,
                done: false,
            }),
    {
        let r = EnumerationInstance {
            search: String::new(),
            search_wide: Vec::new(),
            base_path: String::new(),
            file: Vec::new(),
            last_index: None,
            capture_search: true,
            done: false,
        };
        assert(r@.file =~= Seq::<EnumerationEntryView>::empty());
        r
    }

    /// Begin a callback. Yields the directory to list when this callback captures a search, and
    /// nothing when the listing of an earlier callback is continued. `rooted` says whether the
    /// workspace has a path; without one a search cannot be placed.
    pub fn begin(&mut self, restart: bool, expression: Option<&[u16]>, rooted: bool) -> (r: Result<
        Option<ScanTarget>,
        i32,
    >)
        ensures
            ({
                let start = restarted(old(self)@, restart);
                let units = match expression {
                    Some(u) => Some(u@),
                    None => None,
                };
                if !start.capture_search {
                    r == Ok::<Option<ScanTarget>, i32>(None) && final(self)@ == start
                } else if !rooted {
                    r == Err::<Option<ScanTarget>, i32>(ERROR_FILE_NOT_FOUND) && final(self)@
                        == noted(start, units)
                } else {
                    &&& r matches Ok(Some(target))
                    &&& target_view(target) == captured_target(units)
                    &&& final(self)@ == captured(start, units)
                }
            }),
    {
        if restart {
            self.done = false;
            self.capture_search = true;
            self.last_index = None;
        }
        if !self.capture_search {
            return Ok(None);
        }
        let ghost start = self@;
        self.capture_search = false;
        match expression {
            Some(units) if units.len() > 0 => {
                self.search = decode_utf16_lossy(units);
                let mut wide = vstd::slice::slice_to_vec(units);
                wide.push(0);
                self.search_wide = wide;
            },
            _ => {
                self.search = String::new();
            },
        }
        self.file = Vec::new();
        let ghost units = match expression {
            Some(u) => Some(u@),
            None => None,
        };
        assert(self@.file =~= Seq::<EnumerationEntryView>::empty());
        assert(self@.search =~= search_text(units));
        assert(self@ == noted(start, units));
        if !rooted {
            return Err(ERROR_FILE_NOT_FOUND);
        }
        self.base_path = String::new();
        let text = chars_of(self.search.as_str());
        let ghost whole = text@;
        let all: bool = text.len() == 1 && (text[0] == '*' || text[0] == '/');
        proof {
            if all {
                assert(text@ =~= seq![text@[0]]);
            }
            assert(all == asks_for_all(text@));
            lemma_last_index(text@, '/');
        }
        if all {
            self.search_wide = Vec::new();
            self.search = String::new();
            return Ok(Some(ScanTarget::Requested));
        }
        let sep: usize = match rfind_char(text.as_slice(), '/') {
            Some(sep) => sep,
            None => 0,
        };
        if sep == 0 {
            assert(directory_end(whole) == None::<int>);
            assert(self@ == captured(start, units));
            return Ok(Some(ScanTarget::Requested));
        }
        let directory = string_of(text.as_slice(), 0, sep);
        let search = string_of(text.as_slice(), sep, text.len());
        assert(directory@ =~= whole.take(sep as int));
        assert(search@ =~= whole.skip(sep as int));
        let mut wide = encode_utf16(search.as_str());
        wide.push(0);
        self.search_wide = wide;
        self.search = search;
        self.base_path = directory.clone();
        assert(directory_end(whole) == Some(sep as int));
        assert(self@ == captured(start, units));
        Ok(Some(ScanTarget::Searched(directory)))
    }
}

/// Where a callback stands while it hands out entries.
#[derive(Debug, Clone, Copy, PartialEq, Eq, Structural)]
pub enum Scan {
    /// The entry at `index` is to be held against the search.
    Testing { index: usize, added: usize },
    /// The entry at `index` is to be put into the system's buffer.
    Offering { index: usize, added: usize },
    /// The callback is over and returns `code`.
    Ended { code: i32 },
}

/// Whether a scan stands at an entry of the listing, or is over.
pub open spec fn scan_fits(v: EnumerationView, scan: Scan) -> bool {
    match scan {
        Scan::Testing { index, added } => added <= index < v.file.len() <= usize::MAX,
        Scan::Offering { index, added } => added <= index < v.file.len() <= usize::MAX,
        Scan::Ended { .. } => true,
    }
}

/// The index at which the next callback resumes.
pub open spec fn resume_index(v: EnumerationView) -> int {
    match v.last_index {
        Some(index) => index as int,
        None => 0,
    }
}

/// The scan that stands at `index`: without a search every entry is offered, with one it is
/// tested first; past the last entry the callback is over.
pub open spec fn scan_at(v: EnumerationView, index: int, added: int) -> Scan {
    if index >= v.file.len() {
        Scan::Ended { code: 0 }
    } else if v.search.len() == 0 {
        Scan::Offering { index: index as usize, added: added as usize }
    } else {
        Scan::Testing { index: index as usize, added: added as usize }
    }
}

/// The enumeration after the scan moves to `index`: past the last entry it remembers that it
/// handed out everything.
pub open spec fn moved_to(v: EnumerationView, index: int) -> EnumerationView {
    if index >= v.file.len() {
        EnumerationView { last_index: Some(index as usize), ..v }
    } else {
        v
    }
}

/// The enumeration and scan with which a callback starts to hand out entries.
pub open spec fn scan_started(v: EnumerationView) -> (EnumerationView, Scan) {
    let index = resume_index(v);
    if index >= v.file.len() {
        (EnumerationView { done: true, ..v }, Scan::Ended { code: 0 })
    } else {
        (v, scan_at(v, index, 0))
    }
}

/// What follows the answer to whether the tested entry matches the search.
pub open spec fn scan_matched(v: EnumerationView, scan: Scan, matched: bool) -> (
    EnumerationView,
    Scan,
) {
    match scan {
        Scan::Testing { index, added } => if matched {
            (v, Scan::Offering { index, added })
        } else {
            (moved_to(v, index + 1), scan_at(v, index + 1, added as int))
        },
        _ => (v, scan),
    }
}

/// What follows the system's answer to the offered entry. When its buffer is full the entry is
/// offered again by the next callback, and this one fails if it added none.
pub open spec fn scan_filled(v: EnumerationView, scan: Scan, answer: i32) -> (
    EnumerationView,
    Scan,
) {
    match scan {
        Scan::Offering { index, added } => if answer == ERROR_INSUFFICIENT_BUFFER {
            (
                EnumerationView { last_index: Some(index), ..v },
                Scan::Ended {
                    code: if added == 0 {
                        ERROR_INSUFFICIENT_BUFFER
                    } else {
                        0
                    },
                },
            )
        } else {
            (moved_to(v, index + 1), scan_at(v, index + 1, added + 1))
        },
        _ => (v, scan),
    }
}

/// The zero-terminated wide path under which an entry is offered.
pub open spec fn offered_path(base_path: Seq<char>, file_name: Seq<u16>) -> Seq<u16> {
    let base = utf16(base_path);
    let prefix = if base.len() > 0 && base.last() != '/' as u16 {
        base.push('/' as u16)
    } else {
        base
    };
    (prefix + file_name).push(0)
}

impl EnumerationInstance {
    /// Take over the listing of the captured directory, sorted by name.
    pub fn load<C: Fn(&Vec<u16>, &Vec<u16>) -> i32>(&mut self, entries: Vec<DirEntry>, compare: C)
        requires
            forall|a: &Vec<u16>, b: &Vec<u16>| #[trigger] compare.requires((a, b)),
        ensures
            final(self)@ == (EnumerationView { file: final(self)@.file, ..old(self)@ }),
            final(self)@.file.to_multiset() == entry_views(entries@).map_values(
                |e: DirEntryView| with_wide_name(e),
            ).to_multiset(),
            forall|le: spec_fn(Seq<u16>, Seq<u16>) -> bool|
                #![trigger is_total_preorder(le)]
                is_total_preorder(le) && compares_by(compare, le) ==> in_order(
                    final(self).file@,
                    le,
                ),
    {
        self.file = sort_by_name(name_entries(entries), compare);
    }

    /// Start to hand out entries where the last callback stopped.
    pub fn start_scan(&mut self) -> (r: Scan)
        ensures
            (final(self)@, r) == scan_started(old(self)@),
            scan_fits(final(self)@, r),
    {
        let index: usize = match self.last_index {
            Some(index) => index,
            None => 0,
        };
        if index >= self.file.len() {
            self.done = true;
            return Scan::Ended { code: 0 };
        }
        self.stand_at(index, 0)
    }

    /// The scan that stands at an index.
    fn stand_at(&self, index: usize, added: usize) -> (r: Scan)
        ensures
            r == scan_at(self@, index as int, added as int),
    {
        if index >= self.file.len() {
            Scan::Ended { code: 0 }
        } else if self.search.as_str().is_empty() {
            Scan::Offering { index, added }
        } else {
            Scan::Testing { index, added }
        }
    }

    /// Take the answer to whether the tested entry matches the search.
    pub fn matched(&mut self, scan: Scan, matched: bool) -> (r: Scan)
        requires
            scan_fits(old(self)@, scan),
        ensures
            (final(self)@, r) == scan_matched(old(self)@, scan, matched),
            scan_fits(final(self)@, r),
    {
        match scan {
            Scan::Testing { index, added } => {
                if matched {
                    return Scan::Offering { index, added };
                }
                let r = self.stand_at(index + 1, added);
                if index + 1 >= self.file.len() {
                    self.last_index = Some(index + 1);
                }
                r
            },
            _ => scan,
        }
    }

    /// Take the system's answer to the offered entry.
    pub fn filled(&mut self, scan: Scan, answer: i32) -> (r: Scan)
        requires
            scan_fits(old(self)@, scan),
        ensures
            (final(self)@, r) == scan_filled(old(self)@, scan, answer),
            scan_fits(final(self)@, r),
    {
        match scan {
            Scan::Offering { index, added } => {
                if answer == ERROR_INSUFFICIENT_BUFFER {
                    self.last_index = Some(index);
                    let code: i32 = if added == 0 {
                        ERROR_INSUFFICIENT_BUFFER
                    } else {
                        0
                    };
                    return Scan::Ended { code };
                }
                let r = self.stand_at(index + 1, added + 1);
                if index + 1 >= self.file.len() {
                    self.last_index = Some(index + 1);
                }
                r
            },
            _ => scan,
        }
    }

    /// The path and file information under which an entry is offered.
    pub fn offer(&self, index: usize) -> (r: (Vec<u16>, FileBasicInfo))
        requires
            index < self@.file.len(),
            self@.file[index as int].entry.timestamp_ms <= MAX_FILETIME_MS,
        ensures
            r.0@ == offered_path(self@.base_path, self@.file[index as int].file_name),
            reports(
                r.1,
                self@.file[index as int].entry.kind,
                self@.file[index as int].entry.size,
                self@.file[index as int].entry.timestamp_ms,
            ),
    {
        let file = &self.file[index];
        let info = basic_info(file.entry.kind, file.entry.size, file.entry.timestamp_ms);
        let mut path = encode_utf16(self.base_path.as_str());
        if path.len() > 0 && path[path.len() - 1] != '/' as u16 {
            path.push('/' as u16);
        }
        let ghost prefix = path@;
        let mut i: usize = 0;
        while i < file.file_name.len()
            invariant
                i <= file.file_name@.len(),
                path@ == prefix + file.file_name@.take(i as int),
            decreases file.file_name@.len() - i,
        {
            path.push(file.file_name[i]);
            i = i + 1;
            assert(path@ =~= prefix + file.file_name@.take(i as int));
        }
        assert(file.file_name@.take(i as int) =~= file.file_name@);
        path.push(0);
        (path, info)
    }
}

/// The indices from `from` on whose entries are wanted, in order.
pub open spec fn wanted_from(v: EnumerationView, from: int, matches: spec_fn(int) -> bool) -> Seq<
    int,
>
    decreases v.file.len() - from,
{
    if from >= v.file.len() {
        Seq::empty()
    } else if v.search.len() == 0 || matches(from) {
        seq![from] + wanted_from(v, from + 1, matches)
    } else {
        wanted_from(v, from + 1, matches)
    }
}

/// How far a scan has to go: twice the entries ahead of it, and one more while one is tested.
pub open spec fn scan_distance(v: EnumerationView, scan: Scan) -> int {
    match scan {
        Scan::Testing { index, .. } => 2 * (v.file.len() - index) + 1,
        Scan::Offering { index, .. } => 2 * (v.file.len() - index),
        Scan::Ended { .. } => 0,
    }
}

/// A callback driven to its end by a system whose buffer has room for `room` entries: the indices
/// it added, the enumeration it leaves behind, and the code it returns.
pub open spec fn driven(
    v: EnumerationView,
    scan: Scan,
    matches: spec_fn(int) -> bool,
    room: nat,
) -> (Seq<int>, EnumerationView, i32)
    decreases scan_distance(v, scan),
    when scan_fits(v, scan)
{
    match scan {
        Scan::Ended { code } => (Seq::empty(), v, code),
        Scan::Testing { index, .. } => {
            let (next, after) = scan_matched(v, scan, matches(index as int));
            driven(next, after, matches, room)
        },
        Scan::Offering { index, .. } => if room == 0 {
            let (next, after) = scan_filled(v, scan, ERROR_INSUFFICIENT_BUFFER);
            driven(next, after, matches, room)
        } else {
            let (next, after) = scan_filled(v, scan, 0);
            let rest = driven(next, after, matches, (room - 1) as nat);
            (seq![index as int] + rest.0, rest.1, rest.2)
        },
    }
}

/// What one callback adds, leaves behind and returns.
pub open spec fn callback(v: EnumerationView, matches: spec_fn(int) -> bool, room: nat) -> (
    Seq<int>,
    EnumerationView,
    i32,
) {
    let (next, scan) = scan_started(v);
    driven(next, scan, matches, room)
}

/// What a series of callbacks adds, one after the other.
pub open spec fn callbacks(
    v: EnumerationView,
    matches: spec_fn(int) -> bool,
    rooms: Seq<nat>,
) -> Seq<int>
    decreases rooms.len(),
{
    if rooms.len() == 0 {
        Seq::empty()
    } else {
        let (added, next, code) = callback(v, matches, rooms[0]);
        added + callbacks(next, matches, rooms.skip(1))
    }
}

/// The room that a series of buffers has in all.
pub open spec fn total_room(rooms: Seq<nat>) -> nat
    decreases rooms.len(),
{
    if rooms.len() == 0 {
        0
    } else {
        rooms[0] + total_room(rooms.skip(1))
    }
}

/// The part of a sequence that fits a room.
pub open spec fn fitting(s: Seq<int>, room: nat) -> Seq<int> {
    if room <= s.len() {
        s.take(room as int)
    } else {
        s
    }
}

proof fn lemma_wanted_ignores_progress(
    a: EnumerationView,
    b: EnumerationView,
    from: int,
    matches: spec_fn(int) -> bool,
)
    requires
        a.file == b.file,
        a.search == b.search,
    ensures
        wanted_from(a, from, matches) == wanted_from(b, from, matches),
    decreases a.file.len() - from,
{
    if from < a.file.len() {
        lemma_wanted_ignores_progress(a, b, from + 1, matches);
    }
}

/// The wanted entries from where a scan stands.
spec fn ahead(v: EnumerationView, scan: Scan, matches: spec_fn(int) -> bool) -> Seq<int> {
    match scan {
        Scan::Testing { index, .. } => wanted_from(v, index as int, matches),
        Scan::Offering { index, .. } => wanted_from(v, index as int, matches),
        Scan::Ended { .. } => Seq::empty(),
    }
}

/// Whether a scan stands where a callback can get to: a tested entry has a search to be held
/// against, an offered one is wanted.
spec fn reachable(v: EnumerationView, scan: Scan, matches: spec_fn(int) -> bool) -> bool {
    match scan {
        Scan::Testing { index, .. } => v.search.len() > 0,
        Scan::Offering { index, .. } => v.search.len() == 0 || matches(index as int),
        Scan::Ended { .. } => true,
    }
}

/// The entries that a scan has added so far.
spec fn added_so_far(scan: Scan) -> int {
    match scan {
        Scan::Testing { added, .. } => added as int,
        Scan::Offering { added, .. } => added as int,
        Scan::Ended { .. } => 0,
    }
}

proof fn lemma_driven(v: EnumerationView, scan: Scan, matches: spec_fn(int) -> bool, room: nat)
    requires
        scan_fits(v, scan),
        reachable(v, scan, matches),
        scan !is Ended,
    ensures
        driven(v, scan, matches, room).0 == fitting(ahead(v, scan, matches), room),
        wanted_from(v, resume_index(driven(v, scan, matches, room).1), matches) == ahead(
            v,
            scan,
            matches,
        ).skip(driven(v, scan, matches, room).0.len() as int),
        driven(v, scan, matches, room).1.file == v.file,
        driven(v, scan, matches, room).1.search == v.search,
        resume_index(driven(v, scan, matches, room).1) <= v.file.len(),
        driven(v, scan, matches, room).2 == (if ahead(v, scan, matches).len() > 0 && room == 0
            && added_so_far(scan) == 0 {
            ERROR_INSUFFICIENT_BUFFER
        } else {
            0
        }),
    decreases scan_distance(v, scan),
{
    let wanted = ahead(v, scan, matches);
    let whole = driven(v, scan, matches, room);
    reveal_with_fuel(driven, 2);
    match scan {
        Scan::Ended { .. } => {},
        Scan::Testing { index, added } => {
            let (next, after) = scan_matched(v, scan, matches(index as int));
            lemma_wanted_ignores_progress(v, next, index as int, matches);
            lemma_wanted_ignores_progress(v, next, index + 1, matches);
            lemma_wanted_ignores_progress(v, next, resume_index(whole.1), matches);
            if after is Ended {
                assert(wanted =~= Seq::<int>::empty());
                assert(fitting(wanted, room) =~= Seq::<int>::empty());
                assert(wanted.skip(0) =~= wanted);
            } else {
                lemma_driven(next, after, matches, room);
            }
        },
        Scan::Offering { index, added } => {
            let tail = wanted_from(v, index + 1, matches);
            assert(wanted == seq![index as int] + tail);
            if room == 0 {
                assert(fitting(wanted, room) =~= Seq::<int>::empty());
                assert(wanted.skip(0) =~= wanted);
                let (next, after) = scan_filled(v, scan, ERROR_INSUFFICIENT_BUFFER);
                assert(whole == driven(next, after, matches, room));
            } else {
                let (next, after) = scan_filled(v, scan, 0);
                let less = (room - 1) as nat;
                let rest = driven(next, after, matches, less);
                lemma_wanted_ignores_progress(v, next, index + 1, matches);
                lemma_wanted_ignores_progress(v, next, resume_index(rest.1), matches);
                if after is Ended {
                    assert(tail =~= Seq::<int>::empty());
                    assert(rest.0 =~= fitting(tail, less));
                    assert(tail.skip(0) =~= tail);
                } else {
                    lemma_driven(next, after, matches, less);
                }
                assert(whole.0 == seq![index as int] + rest.0);
                assert(whole.0 =~= fitting(wanted, room));
                assert(wanted.skip(whole.0.len() as int) =~= tail.skip(rest.0.len() as int));
            }
        },
    }
}

/// One callback adds the next wanted entries, as many as the buffer has room for and in the order
/// of the listing, and the next one resumes right after them. It fails exactly when there is a
/// wanted entry and no room for even one.
pub proof fn law_callback_adds_what_fits(
    v: EnumerationView,
    matches: spec_fn(int) -> bool,
    room: nat,
)
    requires
        v.file.len() <= usize::MAX,
        resume_index(v) <= v.file.len(),
    ensures
        ({
            let wanted = wanted_from(v, resume_index(v), matches);
            let (added, next, code) = callback(v, matches, room);
            &&& added == fitting(wanted, room)
            &&& wanted_from(next, resume_index(next), matches) == wanted.skip(added.len() as int)
            &&& next.file == v.file
            &&& next.search == v.search
            &&& resume_index(next) <= next.file.len()
            &&& code == (if wanted.len() > 0 && room == 0 {
                ERROR_INSUFFICIENT_BUFFER
            } else {
                0
            })
        }),
{
    let wanted = wanted_from(v, resume_index(v), matches);
    let (start, scan) = scan_started(v);
    let next = callback(v, matches, room).1;
    lemma_wanted_ignores_progress(v, start, resume_index(v), matches);
    if scan is Ended {
        assert(wanted =~= Seq::<int>::empty());
        assert(fitting(wanted, room) =~= Seq::<int>::empty());
        assert(wanted.skip(0) =~= wanted);
        lemma_wanted_ignores_progress(v, next, resume_index(next), matches);
    } else {
        lemma_driven(start, scan, matches, room);
        lemma_wanted_ignores_progress(start, next, resume_index(next), matches);
    }
}

/// However the buffers are sized, the callbacks of one enumeration together add every wanted
/// entry at most once and in order, none is skipped, and all are added once the buffers had room
/// for them.
pub proof fn law_callbacks_add_every_entry_once(
    v: EnumerationView,
    matches: spec_fn(int) -> bool,
    rooms: Seq<nat>,
)
    requires
        v.file.len() <= usize::MAX,
        resume_index(v) <= v.file.len(),
    ensures
        callbacks(v, matches, rooms) == fitting(
            wanted_from(v, resume_index(v), matches),
            total_room(rooms),
        ),
    decreases rooms.len(),
{
    let wanted = wanted_from(v, resume_index(v), matches);
    if rooms.len() == 0 {
        assert(fitting(wanted, 0) =~= Seq::<int>::empty());
    } else {
        law_callback_adds_what_fits(v, matches, rooms[0]);
        let (added, next, code) = callback(v, matches, rooms[0]);
        law_callbacks_add_every_entry_once(next, matches, rooms.skip(1));
        let later = fitting(wanted.skip(added.len() as int), total_room(rooms.skip(1)));
        assert(added + later =~= fitting(wanted, total_room(rooms)));
    }
}

} // verus!
