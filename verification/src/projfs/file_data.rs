//! Handing the content of a file to the system, piece by piece.

use crate::vfs::content::read_length;
use vstd::prelude::*;

verus! {

/// `HRESULT` for "out of memory".
pub const ERROR_OUTOFMEMORY: i32 = -2147024882;

/// `HRESULT` for "the read failed".
pub const ERROR_READ_FAULT: i32 = -2147024866;

/// The largest number of bytes that are read at once.
pub const SINGLE_READ_THRESHOLD: u64 = 134217728;

/// What a transfer does next.
#[derive(Debug, Clone, Copy, PartialEq, Eq, Structural)]
pub enum TransferStep {
    /// Read up to `length` bytes at `offset` of the file.
    Read { offset: u64, length: u64 },
    /// Write the bytes just read at `write_offset`.
    Write { write_offset: u64, length: u64 },
    /// Nothing more to do: the callback returns the code.
    Finished { code: i32 },
}

/// A transfer under way: where the next read starts, how much was written, and how much is left.
#[derive(Debug, Clone, Copy, PartialEq, Eq, Structural)]
pub struct FileTransfer {
    pub capacity: u64,
    pub offset: u64,
    pub write_offset: u64,
    pub remain: u64,
    pub step: TransferStep,
}

/// The smaller of two numbers.
pub open spec fn smaller(a: u64, b: u64) -> u64 {
    if a <= b {
        a
    } else {
        b
    }
}

/// The step with which a transfer goes on: it reads while something is left.
pub open spec fn reading(capacity: u64, offset: u64, remain: u64) -> TransferStep {
    if remain > 0 {
        TransferStep::Read { offset, length: smaller(remain, capacity) }
    } else {
        TransferStep::Finished { code: 0 }
    }
}

/// A transfer that stands at `offset`, with so much written and so much left.
pub open spec fn transfer_at(capacity: u64, offset: u64, write_offset: u64, remain: u64) -> FileTransfer {
    FileTransfer {
        capacity,
        offset,
        write_offset,
        remain,
        step: reading(capacity, offset, remain),
    }
}

impl FileTransfer {
    /// Whether a transfer has done and will do what was asked of it: a read fits the buffer and
    /// what is left, and so does a write.
    pub open spec fn well_formed(self) -> bool {
        &&& self.write_offset + self.remain <= u64::MAX
        &&& match self.step {
            TransferStep::Read { offset, length } => {
                &&& offset == self.offset
                &&& length == smaller(self.remain, self.capacity)
                &&& 0 < length
            },
            TransferStep::Write { write_offset, length } => {
                &&& write_offset == self.write_offset
                &&& 0 < length <= smaller(self.remain, self.capacity)
                &&& self.offset + length <= u64::MAX
            },
            TransferStep::Finished { code } => code == 0 ==> self.remain == 0,
        }
    }
}

/// The size of the buffer for a transfer of `length` bytes.
pub fn transfer_capacity(length: u64) -> (r: u64)
    ensures
        r == smaller(length, SINGLE_READ_THRESHOLD),
{
    if length <= SINGLE_READ_THRESHOLD {
        length
    } else {
        SINGLE_READ_THRESHOLD
    }
}

/// Begin to hand over `length` bytes of the file from `byte_offset` on. `resolved` says whether
/// the path leads to a file, `allocated` whether there is memory for the buffer.
pub fn begin_transfer(resolved: bool, allocated: bool, byte_offset: u64, length: u64) -> (r: Result<
    FileTransfer,
    i32,
>)
    ensures
        r == if !resolved {
            Err(crate::projfs::enumeration::ERROR_FILE_NOT_FOUND)
        } else if !allocated {
            Err(ERROR_OUTOFMEMORY)
        } else {
            Ok(
                transfer_at(
                    smaller(length, SINGLE_READ_THRESHOLD),
                    byte_offset,
                    0,
                    length,
                ),
            )
        },
        r matches Ok(transfer) ==> transfer.well_formed(),
{
    if !resolved {
        return Err(crate::projfs::enumeration::ERROR_FILE_NOT_FOUND);
    }
    if !allocated {
        return Err(ERROR_OUTOFMEMORY);
    }
    let capacity: u64 = transfer_capacity(length);
    Ok(continue_at(capacity, byte_offset, 0, length))
}

/// A transfer that goes on reading.
fn continue_at(capacity: u64, offset: u64, write_offset: u64, remain: u64) -> (r: FileTransfer)
    requires
        remain > 0 ==> capacity > 0,
        write_offset + remain <= u64::MAX,
    ensures
        r == transfer_at(capacity, offset, write_offset, remain),
        r.well_formed(),
{
    let step = if remain > 0 {
        let length: u64 = if remain <= capacity {
            remain
        } else {
            capacity
        };
        TransferStep::Read { offset, length }
    } else {
        TransferStep::Finished { code: 0 }
    };
    FileTransfer { capacity, offset, write_offset, remain, step }
}

/// The transfer after a read that delivered so many bytes, or failed. It ends in a read fault
/// where none came: the read failed, or the window extends past the end of the file.
pub open spec fn after_read(t: FileTransfer, read: Option<u64>) -> FileTransfer {
    match (t.step, read) {
        (TransferStep::Read { .. }, Some(length)) if length > 0 => FileTransfer {
            step: TransferStep::Write { write_offset: t.write_offset, length },
            ..t
        },
        (TransferStep::Read { .. }, _) => FileTransfer {
            step: TransferStep::Finished { code: ERROR_READ_FAULT },
            ..t
        },
        _ => t,
    }
}

/// The transfer after the system took the bytes, or refused them.
pub open spec fn after_write(t: FileTransfer, taken: bool) -> FileTransfer {
    match t.step {
        TransferStep::Write { length, .. } => if taken {
            transfer_at(
                t.capacity,
                (t.offset + length) as u64,
                (t.write_offset + length) as u64,
                (t.remain - length) as u64,
            )
        } else {
            FileTransfer { step: TransferStep::Finished { code: ERROR_READ_FAULT }, ..t }
        },
        _ => t,
    }
}

impl FileTransfer {
    /// Take note of a read that delivered so many bytes, or failed.
    pub fn read(self, read: Option<u64>) -> (r: FileTransfer)
        requires
            self.well_formed(),
            self.step matches TransferStep::Read { length, .. } ==> (read matches Some(n)
                ==> n <= length && self.offset + n <= u64::MAX),
        ensures
            r == after_read(self, read),
            r.well_formed(),
    {
        match (self.step, read) {
            (TransferStep::Read { .. }, Some(length)) if length > 0 => FileTransfer {
                step: TransferStep::Write { write_offset: self.write_offset, length },
                ..self
            },
            (TransferStep::Read { .. }, _) => FileTransfer {
                step: TransferStep::Finished { code: ERROR_READ_FAULT },
                ..self
            },
            _ => self,
        }
    }

    /// Take note of whether the system took the bytes.
    pub fn written(self, taken: bool) -> (r: FileTransfer)
        requires
            self.well_formed(),
        ensures
            r == after_write(self, taken),
            r.well_formed(),
    {
        match self.step {
            TransferStep::Write { length, .. } => if taken {
                continue_at(
                    self.capacity,
                    self.offset + length,
                    self.write_offset + length,
                    self.remain - length,
                )
            } else {
                FileTransfer { step: TransferStep::Finished { code: ERROR_READ_FAULT }, ..self }
            },
            _ => self,
        }
    }
}

/// All that a transfer hands over of a file from where it stands, when no read and no write
/// fails, and the code it ends with.
pub open spec fn transferred(content: Seq<u8>, t: FileTransfer) -> (Seq<u8>, i32)
    decreases t.remain,
    when t.well_formed() && content.len() <= u64::MAX
{
    match t.step {
        TransferStep::Read { offset, length } => {
            let read = read_length(content.len(), offset as nat, length as nat) as u64;
            if read == 0 {
                (Seq::empty(), ERROR_READ_FAULT)
            } else {
                let rest = transferred(
                    content,
                    after_write(after_read(t, Some(read)), true),
                );
                (content.subrange(offset as int, offset + read) + rest.0, rest.1)
            }
        },
        TransferStep::Finished { code } => (Seq::empty(), code),
        _ => (Seq::empty(), 0),
    }
}

/// Where nothing fails, a transfer hands over exactly the requested window of the file and ends
/// well; where the window extends past the end of the file it hands over what there is and ends in
/// a read fault.
pub proof fn law_transfer_hands_over_window(content: Seq<u8>, byte_offset: u64, length: u64)
    requires
        content.len() <= u64::MAX,
    ensures
        ({
            let t = transfer_at(smaller(length, SINGLE_READ_THRESHOLD), byte_offset, 0, length);
            let (handed, code) = transferred(content, t);
            &&& byte_offset + length <= content.len() ==> {
                &&& handed == content.subrange(byte_offset as int, byte_offset + length)
                &&& code == 0
            }
            &&& byte_offset + length > content.len() && length > 0 ==> {
                &&& handed == if byte_offset < content.len() {
                    content.skip(byte_offset as int)
                } else {
                    Seq::empty()
                }
                &&& code == ERROR_READ_FAULT
            }
        }),
{
    lemma_transferred(
        content,
        transfer_at(smaller(length, SINGLE_READ_THRESHOLD), byte_offset, 0, length),
    );
}

proof fn lemma_transferred(content: Seq<u8>, t: FileTransfer)
    requires
        content.len() <= u64::MAX,
        t.well_formed(),
        t == transfer_at(t.capacity, t.offset, t.write_offset, t.remain),
    ensures
        ({
            let (handed, code) = transferred(content, t);
            &&& t.offset + t.remain <= content.len() ==> {
                &&& handed == content.subrange(t.offset as int, t.offset + t.remain)
                &&& code == 0
            }
            &&& t.offset + t.remain > content.len() && t.remain > 0 ==> {
                &&& handed == if t.offset < content.len() {
                    content.skip(t.offset as int)
                } else {
                    Seq::empty()
                }
                &&& code == ERROR_READ_FAULT
            }
        }),
    decreases t.remain,
{
    if let TransferStep::Read { offset, length } = t.step {
        let read = read_length(content.len(), offset as nat, length as nat) as u64;
        if read > 0 {
            let next = after_write(after_read(t, Some(read)), true);
            lemma_transferred(content, next);
            let first = content.subrange(offset as int, offset + read);
            if t.offset + t.remain <= content.len() {
                assert(first + content.subrange(offset + read, t.offset + t.remain)
                    =~= content.subrange(t.offset as int, t.offset + t.remain));
            } else if offset + read < content.len() {
                assert(first + content.skip(offset + read) =~= content.skip(offset as int));
            } else {
                assert(first + Seq::<u8>::empty() =~= content.skip(offset as int));
                assert(next.remain > 0);
            }
        }
    } else if t.offset <= content.len() {
        assert(content.subrange(t.offset as int, t.offset as int) =~= Seq::empty());
    }
}

/// Whether a host reads a file: of what is asked for it delivers some while there is any, never
/// more than was asked for or than there is, and nothing past the end.
pub open spec fn reads_file(content: Seq<u8>, read: spec_fn(u64, u64) -> u64) -> bool {
    forall|offset: u64, length: u64|
        {
            let n = #[trigger] read(offset, length);
            &&& offset >= content.len() || length == 0 ==> n == 0
            &&& offset < content.len() && length > 0 ==> 1 <= n <= length && offset + n
                <= content.len()
        }
}

/// A file on disk after bytes were written at an offset, by position.
pub open spec fn written_at(disk: Map<int, u8>, offset: int, bytes: Seq<u8>) -> Map<int, u8> {
    Map::new(
        |p: int| disk.contains_key(p) || offset <= p < offset + bytes.len(),
        |p: int|
            if offset <= p < offset + bytes.len() {
                bytes[p - offset]
            } else {
                disk[p]
            },
    )
}

/// The file on disk that a transfer leaves behind when the system takes every write, and the code
/// it ends with: each write lays the bytes just read down at the offset that the write names.
pub open spec fn laid_down(
    content: Seq<u8>,
    read: spec_fn(u64, u64) -> u64,
    t: FileTransfer,
    disk: Map<int, u8>,
) -> (Map<int, u8>, i32)
    decreases t.remain,
    when t.well_formed() && content.len() <= u64::MAX && reads_file(content, read)
{
    match t.step {
        TransferStep::Read { offset, length } => {
            let n = read(offset, length);
            let got = after_read(t, Some(n));
            match got.step {
                TransferStep::Write { write_offset, length: count } => laid_down(
                    content,
                    read,
                    after_write(got, true),
                    written_at(
                        disk,
                        write_offset as int,
                        content.subrange(offset as int, offset + count),
                    ),
                ),
                TransferStep::Finished { code } => (disk, code),
                _ => (disk, 0),
            }
        },
        TransferStep::Finished { code } => (disk, code),
        _ => (disk, 0),
    }
}

/// Each piece is written right behind the one before it, however the host portions its reads: the
/// file on disk holds, at each position of the window, the byte of the content that the window has
/// there, and nothing else. A window that extends past the end of the content leaves what there is,
/// and ends in a read fault.
pub proof fn law_transfer_lays_the_window_down(
    content: Seq<u8>,
    read: spec_fn(u64, u64) -> u64,
    byte_offset: u64,
    length: u64,
)
    requires
        content.len() <= u64::MAX,
        reads_file(content, read),
    ensures
        ({
            let t = transfer_at(smaller(length, SINGLE_READ_THRESHOLD), byte_offset, 0, length);
            let (disk, code) = laid_down(content, read, t, Map::empty());
            &&& forall|p: int| #[trigger]
                disk.contains_key(p) <==> 0 <= p < length && byte_offset + p < content.len()
            &&& forall|p: int|
                0 <= p < length && byte_offset + p < content.len() ==> #[trigger] disk[p]
                    == content[byte_offset + p]
            &&& code == 0 <==> length == 0 || byte_offset + length <= content.len()
            &&& code != 0 ==> code == ERROR_READ_FAULT
        }),
{
    let t = transfer_at(smaller(length, SINGLE_READ_THRESHOLD), byte_offset, 0, length);
    lemma_laid_down(content, read, byte_offset, length, t, Map::empty());
}

/// Whether the disk holds the window so far.
spec fn holds_window(content: Seq<u8>, byte_offset: u64, upto: int, disk: Map<int, u8>) -> bool {
    &&& forall|p: int| #[trigger] disk.contains_key(p) <==> 0 <= p < upto
    &&& forall|p: int| 0 <= p < upto ==> #[trigger] disk[p] == content[byte_offset + p]
}

proof fn lemma_laid_down(
    content: Seq<u8>,
    read: spec_fn(u64, u64) -> u64,
    byte_offset: u64,
    length: u64,
    t: FileTransfer,
    disk: Map<int, u8>,
)
    requires
        content.len() <= u64::MAX,
        reads_file(content, read),
        t.well_formed(),
        t == transfer_at(t.capacity, t.offset, t.write_offset, t.remain),
        t.offset == byte_offset + t.write_offset,
        t.write_offset + t.remain == length,
        t.write_offset > 0 ==> t.offset <= content.len(),
        holds_window(content, byte_offset, t.write_offset as int, disk),
    ensures
        ({
            let (after, code) = laid_down(content, read, t, disk);
            let end = if byte_offset + length <= content.len() {
                length as int
            } else if byte_offset < content.len() {
                content.len() - byte_offset
            } else {
                0
            };
            &&& holds_window(content, byte_offset, end, after)
            &&& code == if length == 0 || byte_offset + length <= content.len() {
                0
            } else {
                ERROR_READ_FAULT
            }
        }),
    decreases t.remain,
{
    if let TransferStep::Read { offset, length: asked } = t.step {
        let n = read(offset, asked);
        if n > 0 {
            let got = after_read(t, Some(n));
            let bytes = content.subrange(offset as int, offset + n);
            let next = after_write(got, true);
            let later = written_at(disk, t.write_offset as int, bytes);
            assert(holds_window(content, byte_offset, next.write_offset as int, later));
            lemma_laid_down(content, read, byte_offset, length, next, later);
        }
    }
}

/// A read never asks for more than the buffer holds, nor for more than is left, and the buffer is no
/// larger than what is asked for in all or than what is read at once.
pub proof fn law_reads_fit_the_buffer(t: FileTransfer, byte_offset: u64, length: u64)
    requires
        t.well_formed(),
    ensures
        t.step matches TransferStep::Read { offset, length: asked } ==> {
            &&& 0 < asked <= t.capacity
            &&& asked <= t.remain
            &&& asked == t.capacity || asked == t.remain
            &&& offset == t.offset
        },
        ({
            let start = transfer_at(smaller(length, SINGLE_READ_THRESHOLD), byte_offset, 0, length);
            &&& start.capacity <= length && start.capacity <= 134217728
            &&& start.capacity == length || start.capacity == 134217728
            &&& start.remain == length && start.offset == byte_offset && start.write_offset == 0
        }),
{
}

/// A read that fails or delivers nothing, and a write that the system refuses, end a transfer in a
/// read fault.
pub proof fn law_transfer_stops_at_a_failure(t: FileTransfer)
    ensures
        t.step is Read ==> after_read(t, None).step == (TransferStep::Finished {
            code: ERROR_READ_FAULT,
        }) && after_read(t, Some(0)).step == (TransferStep::Finished { code: ERROR_READ_FAULT }),
        t.step is Write ==> after_write(t, false).step == (TransferStep::Finished {
            code: ERROR_READ_FAULT,
        }),
{
}

} // verus!
