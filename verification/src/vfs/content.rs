//! Content reads: which part of an object to fetch for a read, and which of the fetched bytes
//! the read delivers.
//!
//! The store supports ranged reads only for fragmented objects, those larger than
//! [`FRAGMENT_SIZE_THRESHOLD`]. A smaller object is fetched whole and the window is taken out of
//! it.

use vstd::prelude::*;

verus! {

/// The largest size in bytes at which an object is stored as a single fragment.
pub const FRAGMENT_SIZE_THRESHOLD: u64 = 262144;

/// What to fetch from the store for a read.
#[derive(Debug, Clone, Copy, PartialEq, Eq, Structural)]
pub enum ReadPlan {
    /// Nothing: the read delivers no bytes.
    Nothing,
    /// The whole object, all of which is delivered.
    Whole { size: u64 },
    /// The whole object, of which the window of `want` bytes at `start` is delivered.
    Window { size: u64, start: u64, want: u64 },
    /// The bytes from `start` up to `end`, all of which are delivered.
    Range { start: u64, end: u64 },
}

/// The number of bytes that a read at `offset` into a buffer of `room` bytes delivers of an object
/// of `size` bytes.
pub open spec fn read_length(size: nat, offset: nat, room: nat) -> nat {
    if offset >= size {
        0
    } else if room <= size - offset {
        room
    } else {
        (size - offset) as nat
    }
}

/// The plan for a read at `offset` into a buffer of `room` bytes.
pub open spec fn read_plan(size: u64, offset: u64, room: nat) -> ReadPlan {
    let want = read_length(size as nat, offset as nat, room);
    if want == 0 {
        ReadPlan::Nothing
    } else if offset == 0 && want == size {
        ReadPlan::Whole { size }
    } else if size <= FRAGMENT_SIZE_THRESHOLD {
        ReadPlan::Window { size, start: offset, want: want as u64 }
    } else {
        ReadPlan::Range { start: offset, end: (offset + want) as u64 }
    }
}

/// Plan a read of up to `room` bytes at `offset` of an object of `size` bytes. Past the end of the
/// object there is nothing to read.
pub fn read_range(size: u64, offset: u64, room: usize) -> (r: ReadPlan)
    ensures
        r == read_plan(size, offset, room as nat),
{
    if room == 0 || offset >= size {
        return ReadPlan::Nothing;
    }
    let left: u64 = size - offset;
    let want: u64 = if room as u64 <= left {
        room as u64
    } else {
        left
    };
    if offset == 0 && want == size {
        ReadPlan::Whole { size }
    } else if size <= FRAGMENT_SIZE_THRESHOLD {
        ReadPlan::Window { size, start: offset, want }
    } else {
        ReadPlan::Range { start: offset, end: offset + want }
    }
}

/// The number of bytes that a plan fetches.
pub open spec fn fetch_length(plan: ReadPlan) -> int {
    match plan {
        ReadPlan::Nothing => 0,
        ReadPlan::Whole { size } => size as int,
        ReadPlan::Window { size, .. } => size as int,
        ReadPlan::Range { start, end } => end - start,
    }
}

/// Whether the window of a plan lies within what it fetches.
pub open spec fn plan_fits(plan: ReadPlan) -> bool {
    match plan {
        ReadPlan::Window { size, start, want } => start + want <= size,
        _ => true,
    }
}

/// The bytes that a read delivers of those that its plan fetched.
pub open spec fn delivered(plan: ReadPlan, fetched: Seq<u8>) -> Seq<u8> {
    match plan {
        ReadPlan::Nothing => Seq::empty(),
        ReadPlan::Window { start, want, .. } => fetched.subrange(start as int, start + want),
        _ => fetched,
    }
}

/// Take the bytes that a read delivers out of those that its plan fetched.
pub fn finish_read(plan: ReadPlan, fetched: Vec<u8>) -> (r: Vec<u8>)
    requires
        plan_fits(plan),
        fetched@.len() == fetch_length(plan),
    ensures
        r@ == delivered(plan, fetched@),
{
    match plan {
        ReadPlan::Nothing => Vec::new(),
        ReadPlan::Window { size, start, want } => {
            let length: usize = fetched.len();
            assert(start as usize == start && (start + want) as usize == start + want);
            let from: usize = start as usize;
            let to: usize = (start + want) as usize;
            let window = vstd::slice::slice_subrange(fetched.as_slice(), from, to);
            vstd::slice::slice_to_vec(window)
        },
        _ => fetched,
    }
}

/// What the store hands back of an object for a plan.
pub open spec fn fetched(plan: ReadPlan, content: Seq<u8>) -> Seq<u8> {
    match plan {
        ReadPlan::Nothing => Seq::empty(),
        ReadPlan::Range { start, end } => content.subrange(start as int, end as int),
        _ => content,
    }
}

/// A read delivers exactly the bytes of the object from its offset on, as many as the buffer has
/// room for and the object has; and the bytes to fetch are those that finishing the read takes.
pub proof fn law_read_delivers_window(content: Seq<u8>, offset: u64, room: nat)
    requires
        content.len() <= u64::MAX,
    ensures
        ({
            let plan = read_plan(content.len() as u64, offset, room);
            let length = read_length(content.len(), offset as nat, room);
            &&& plan_fits(plan)
            &&& fetched(plan, content).len() == fetch_length(plan)
            &&& delivered(plan, fetched(plan, content)) == (if length == 0 {
                Seq::empty()
            } else {
                content.subrange(offset as int, offset + length)
            })
        }),
{
    let plan = read_plan(content.len() as u64, offset, room);
    let length = read_length(content.len(), offset as nat, room);
    if plan is Whole {
        assert(content.subrange(0, content.len() as int) =~= content);
    }
}

/// Progress of a copy that reads an object piece by piece.
#[derive(Debug, Clone, Copy, PartialEq, Eq, Structural)]
pub struct CopyProgress {
    pub size: u64,
    pub offset: u64,
    pub finished: bool,
}

impl CopyProgress {
    /// Whether the copy stands within the object.
    pub open spec fn well_formed(self) -> bool {
        self.offset <= self.size && (self.finished || self.offset < self.size)
    }
}

/// A copy of an object of `size` bytes that stands at `offset`.
pub open spec fn copy_at(size: u64, offset: u64) -> CopyProgress {
    CopyProgress { size, offset, finished: offset >= size }
}

/// Begin to copy an object of `size` bytes.
pub fn begin_copy(size: u64) -> (r: CopyProgress)
    ensures
        r == copy_at(size, 0),
        r.well_formed(),
{
    CopyProgress { size, offset: 0, finished: size == 0 }
}

/// The copy after a read that delivered `read` bytes: it is over where none came, or when the end
/// of the object is reached.
pub open spec fn copy_after(copy: CopyProgress, read: nat) -> CopyProgress {
    if read == 0 {
        CopyProgress { finished: true, ..copy }
    } else {
        copy_at(copy.size, (copy.offset + read) as u64)
    }
}

/// Take note of a read of `read` bytes at the offset of the copy.
pub fn copied(copy: CopyProgress, read: usize) -> (r: CopyProgress)
    requires
        copy.well_formed(),
        read <= copy.size - copy.offset,
    ensures
        r == copy_after(copy, read as nat),
        r.well_formed(),
{
    if read == 0 {
        CopyProgress { finished: true, ..copy }
    } else {
        let offset: u64 = copy.offset + read as u64;
        CopyProgress { size: copy.size, offset, finished: offset >= copy.size }
    }
}

/// All that a copy writes from where it stands, when each read has a buffer of `room` bytes.
pub open spec fn copy_written(content: Seq<u8>, copy: CopyProgress, room: nat) -> Seq<u8>
    decreases copy.size - copy.offset,
    when copy.well_formed() && copy.size == content.len()
{
    let length = read_length(copy.size as nat, copy.offset as nat, room);
    if copy.finished || length == 0 {
        Seq::empty()
    } else {
        content.subrange(copy.offset as int, copy.offset + length) + copy_written(
            content,
            copy_after(copy, length),
            room,
        )
    }
}

/// A copy reproduces the object, whatever the size of its buffer.
pub proof fn law_copy_reproduces_content(content: Seq<u8>, room: nat)
    requires
        content.len() <= u64::MAX,
        room > 0,
    ensures
        copy_written(content, copy_at(content.len() as u64, 0), room) == content,
{
    lemma_copy_written(content, copy_at(content.len() as u64, 0), room);
    assert(content.subrange(0, content.len() as int) =~= content);
}

proof fn lemma_copy_written(content: Seq<u8>, copy: CopyProgress, room: nat)
    requires
        content.len() == copy.size,
        room > 0,
        copy == copy_at(copy.size, copy.offset),
        copy.offset <= copy.size,
    ensures
        copy_written(content, copy, room) == content.subrange(
            copy.offset as int,
            content.len() as int,
        ),
    decreases copy.size - copy.offset,
{
    if !copy.finished {
        let length = read_length(copy.size as nat, copy.offset as nat, room);
        let next = copy_after(copy, length);
        lemma_copy_written(content, next, room);
        assert(content.subrange(copy.offset as int, copy.offset + length) + content.subrange(
            copy.offset + length,
            content.len() as int,
        ) =~= content.subrange(copy.offset as int, content.len() as int));
    }
}

/// A read delivers, of the object, the byte at every position from its offset on until the buffer
/// is full or the object ends, and nothing else, however the store has to be asked for it.
pub proof fn law_read_fills_the_buffer(content: Seq<u8>, offset: u64, room: nat, i: int)
    requires
        content.len() <= u64::MAX,
    ensures
        ({
            let plan = read_plan(content.len() as u64, offset, room);
            let bytes = delivered(plan, fetched(plan, content));
            &&& offset >= content.len() ==> bytes.len() == 0
            &&& offset < content.len() && offset + room <= content.len() ==> bytes.len() == room
            &&& offset < content.len() && offset + room > content.len() ==> bytes.len()
                == content.len() - offset
            &&& 0 <= i < bytes.len() ==> bytes[i] == content[offset + i]
        }),
{
    law_read_delivers_window(content, offset, room);
}

/// A part of an object is asked for only of objects that are stored in fragments; a smaller one is
/// fetched whole. What is fetched is never more than the object, and nothing is fetched exactly
/// where nothing is delivered.
pub proof fn law_ranges_are_asked_of_fragmented_objects_alone(size: u64, offset: u64, room: nat)
    ensures
        ({
            let plan = read_plan(size, offset, room);
            &&& plan is Nothing <==> room == 0 || offset >= size
            &&& plan matches ReadPlan::Range { start, end } ==> size > 262144 && start == offset
                && start < end <= size && end <= offset + room && (end == size || end == offset
                + room)
            &&& plan matches ReadPlan::Whole { size: whole } ==> whole == size && offset == 0
                && room >= size
            &&& plan matches ReadPlan::Window { size: whole, start, want } ==> whole == size && size
                <= 262144 && start == offset && want > 0 && start + want <= size
                && want <= room && (want == room || start + want == size)
        }),
{
}

/// A copy goes on exactly while it stands before the end of the object and reads deliver, always
/// right behind what was copied last.
pub proof fn law_copy_goes_on_to_the_end(size: u64, offset: u64, read: nat)
    requires
        offset + read <= size,
    ensures
        copy_at(size, 0).offset == 0,
        copy_at(size, 0).size == size,
        copy_at(size, 0).finished <==> size == 0,
        ({
            let after = copy_after(copy_at(size, offset), read);
            &&& after.size == size
            &&& after.offset == offset + read
            &&& after.finished <==> read == 0 || offset + read == size
        }),
{
}

/// Of a whole object and of a part that was asked for everything that came is delivered, and of an
/// object that was fetched for a window the bytes of the window.
pub proof fn law_delivered_bytes(
    fetched: Seq<u8>,
    size: u64,
    start: u64,
    want: u64,
    end: u64,
    i: int,
)
    requires
        start + want <= fetched.len(),
        0 <= i < want,
    ensures
        delivered(ReadPlan::Whole { size }, fetched) == fetched,
        delivered(ReadPlan::Range { start, end }, fetched) == fetched,
        delivered(ReadPlan::Window { size, start, want }, fetched).len() == want,
        delivered(ReadPlan::Window { size, start, want }, fetched)[i] == fetched[start + i],
        delivered(ReadPlan::Nothing, fetched).len() == 0,
{
}

} // verus!
