//! Win32 values: error codes, file times, and the file information the provider reports.

use crate::numerals::{hex_code, write_hex_code};
use crate::vfs::tree::EntryKind;
use vstd::prelude::*;
use vstd::string::*;

verus! {

/// File attribute of a directory.
pub const FILE_ATTRIBUTE_DIRECTORY: u32 = 0x10;

/// File attribute of a file that has no other attribute.
pub const FILE_ATTRIBUTE_NORMAL: u32 = 0x80;

/// Length of the identifiers in a placeholder's version information.
pub const PLACEHOLDER_ID_LENGTH: usize = 128;

/// The Unix epoch as a file time.
pub const UNIX_EPOCH_FILETIME: u64 = 116444736000000000;

/// The last millisecond since the Unix epoch that a file time can express.
pub const MAX_FILETIME_MS: u64 = 1833029933770955;

/// The 64-bit two's complement reading of an unsigned number.
pub open spec fn signed(v: u64) -> int {
    if v < 0x8000_0000_0000_0000 {
        v as int
    } else {
        v - 0x1_0000_0000_0000_0000
    }
}

/// A Windows error code.
#[derive(Debug, Copy, Clone, PartialEq, Eq, Structural)]
pub struct Win32Error(pub u32);

impl Win32Error {
    /// The error for a result code, whose bits it keeps.
    pub fn from(error_code: i32) -> (r: Win32Error)
        ensures
            r.0 == if error_code >= 0 {
                error_code as int
            } else {
                error_code + 0x1_0000_0000
            },
    {
        assert(error_code >= 0 ==> error_code as u32 == error_code) by (bit_vector);
        assert(error_code < 0 ==> error_code as u32 == error_code + 0x1_0000_0000) by (bit_vector);
        Win32Error(error_code as u32)
    }

    /// The error in words: the system's message for the code, where there is one, and the code.
    pub fn describe(&self, message: Option<&str>) -> (r: String)
        ensures
            r@ == match message {
                Some(m) => m@ + seq![' ', '('] + hex_code(self.0) + seq![')'],
                None => hex_code(self.0),
            },
    {
        let code = write_hex_code(self.0);
        match message {
            Some(m) => {
                let mut out = m.to_owned();
                out.push(' ');
                out.push('(');
                out.append(code.as_str());
                out.push(')');
                assert(out@ =~= m@ + seq![' ', '('] + hex_code(self.0) + seq![')']);
                out
            },
            None => code,
        }
    }
}

/// Convert milliseconds since the Unix epoch to a file time: the count of 100-nanosecond
/// intervals since 1601-01-01T00:00:00Z.
pub fn ms_filetime(ms: u64) -> (r: u64)
    requires
        ms <= MAX_FILETIME_MS,
    ensures
        r == ms * 10_000 + UNIX_EPOCH_FILETIME,
{
    (ms * 10_000) + UNIX_EPOCH_FILETIME
}

/// The two's complement reading of an unsigned number.
fn to_signed(v: u64) -> (r: i64)
    ensures
        r == signed(v),
{
    assert(v < 0x8000_0000_0000_0000 ==> v as i64 == v) by (bit_vector);
    assert(v >= 0x8000_0000_0000_0000 ==> v as i64 == v - 0x1_0000_0000_0000_0000) by (bit_vector);
    v as i64
}

/// What the provider reports of a file or directory.
#[derive(Debug, Clone, Copy, PartialEq, Eq, Structural)]
pub struct FileBasicInfo {
    pub is_directory: bool,
    pub file_size: i64,
    pub creation_time: i64,
    pub change_time: i64,
    pub last_access_time: i64,
    pub last_write_time: i64,
    pub file_attributes: u32,
}

/// What is reported of an entry: a directory has no size, and all four times are the time of the
/// revision.
pub open spec fn reports(info: FileBasicInfo, kind: EntryKind, size: u64, ms: u64) -> bool {
    let time = signed((ms * 10_000 + UNIX_EPOCH_FILETIME) as u64);
    &&& info.is_directory == (kind == EntryKind::Directory)
    &&& info.file_size == if kind == EntryKind::Directory {
        0
    } else {
        signed(size)
    }
    &&& info.creation_time == time
    &&& info.change_time == time
    &&& info.last_access_time == time
    &&& info.last_write_time == time
    &&& info.file_attributes == if kind == EntryKind::Directory {
        FILE_ATTRIBUTE_DIRECTORY
    } else {
        FILE_ATTRIBUTE_NORMAL
    }
}

/// The file information of an entry.
pub fn basic_info(kind: EntryKind, size: u64, timestamp_ms: u64) -> (r: FileBasicInfo)
    requires
        timestamp_ms <= MAX_FILETIME_MS,
    ensures
        reports(r, kind, size, timestamp_ms),
{
    let time: i64 = to_signed(ms_filetime(timestamp_ms));
    if kind == EntryKind::Directory {
        FileBasicInfo {
            is_directory: true,
            file_size: 0,
            creation_time: time,
            change_time: time,
            last_access_time: time,
            last_write_time: time,
            file_attributes: FILE_ATTRIBUTE_DIRECTORY,
        }
    } else {
        FileBasicInfo {
            is_directory: false,
            file_size: to_signed(size),
            creation_time: time,
            change_time: time,
            last_access_time: time,
            last_write_time: time,
            file_attributes: FILE_ATTRIBUTE_NORMAL,
        }
    }
}

/// What the provider writes as the placeholder of a path.
pub struct PlaceholderInfo {
    pub basic: FileBasicInfo,
    pub provider_id: Vec<u8>,
    pub content_id: Vec<u8>,
}

/// An identifier followed by zeros up to the length of a version identifier.
pub open spec fn padded_id(id: Seq<u8>) -> Seq<u8> {
    id + Seq::new((PLACEHOLDER_ID_LENGTH - id.len()) as nat, |i: int| 0u8)
}

/// Pad an identifier with zeros to the length of a version identifier.
fn pad_id(id: &[u8]) -> (r: Vec<u8>)
    requires
        id@.len() <= PLACEHOLDER_ID_LENGTH,
    ensures
        r@ == padded_id(id@),
{
    let mut out = vstd::slice::slice_to_vec(id);
    let mut i: usize = id.len();
    while i < PLACEHOLDER_ID_LENGTH
        invariant
            id@.len() <= i <= PLACEHOLDER_ID_LENGTH,
            out@ == id@ + Seq::new((i - id@.len()) as nat, |k: int| 0u8),
        decreases PLACEHOLDER_ID_LENGTH - i,
    {
        out.push(0);
        i = i + 1;
        assert(out@ =~= id@ + Seq::new((i - id@.len()) as nat, |k: int| 0u8));
    }
    out
}

/// The placeholder of a resolved path: its file information, the repository it comes from and
/// the hash of its content.
pub fn placeholder_info(
    kind: EntryKind,
    size: u64,
    timestamp_ms: u64,
    repository_id: &[u8],
    content_hash: &[u8],
) -> (r: PlaceholderInfo)
    requires
        timestamp_ms <= MAX_FILETIME_MS,
        repository_id@.len() <= PLACEHOLDER_ID_LENGTH,
        content_hash@.len() <= PLACEHOLDER_ID_LENGTH,
    ensures
        reports(r.basic, kind, size, timestamp_ms),
        r.provider_id@ == padded_id(repository_id@),
        r.content_id@ == padded_id(content_hash@),
{
    PlaceholderInfo {
        basic: basic_info(kind, size, timestamp_ms),
        provider_id: pad_id(repository_id),
        content_id: pad_id(content_hash),
    }
}

/// A directory is reported as one and without a size, a file with its own; every time is that of the
/// revision, in steps of a hundred nanoseconds since 1601.
pub proof fn law_entries_are_reported_as_they_are(
    info: FileBasicInfo,
    kind: EntryKind,
    size: u64,
    ms: u64,
)
    requires
        reports(info, kind, size, ms),
        size < 0x8000_0000_0000_0000,
        ms <= 900_000_000_000_000,
    ensures
        info.is_directory <==> kind == EntryKind::Directory,
        kind == EntryKind::Directory ==> info.file_size == 0 && info.file_attributes == 0x10,
        kind == EntryKind::File ==> info.file_size == size && info.file_attributes == 0x80,
        info.creation_time == ms * 10_000 + 116444736000000000,
        info.change_time == info.creation_time,
        info.last_access_time == info.creation_time,
        info.last_write_time == info.creation_time,
{
}

/// The two's complement reading of a number has the same bits: it differs from the number by a whole
/// turn, and lies within the signed range.
pub proof fn law_signed_reading_keeps_the_bits(v: u64)
    ensures
        -0x8000_0000_0000_0000 <= signed(v) < 0x8000_0000_0000_0000,
        signed(v) == v || signed(v) == v - 0x1_0000_0000_0000_0000,
{
}

/// A padded identifier begins with the identifier and ends in zeros, at its fixed length.
pub proof fn law_padded_identifier_begins_with_it(id: Seq<u8>, i: int)
    requires
        id.len() <= 128,
        0 <= i < 128,
    ensures
        padded_id(id).len() == 128,
        padded_id(id)[i] == if i < id.len() {
            id[i]
        } else {
            0
        },
{
}

} // verus!
