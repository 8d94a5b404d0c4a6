//! What prefetching says of its progress.

use crate::numerals::{decimal, write_positional};
use vstd::prelude::*;

verus! {

/// The unit in which a number of bytes is shown.
#[derive(Debug, Clone, Copy, PartialEq, Eq, Structural)]
pub enum ByteUnit {
    Bytes,
    KiB,
    MiB,
    GiB,
}

/// A number of bytes scaled to its unit, as a count of 1024ths of it; of single bytes it is the
/// number of bytes itself.
#[derive(Debug, Clone, Copy, PartialEq, Eq, Structural)]
pub struct ScaledBytes {
    pub amount: usize,
    pub unit: ByteUnit,
}

/// A number of bytes scaled to the largest unit that it exceeds.
pub open spec fn scaled(bytes: usize) -> ScaledBytes {
    if bytes > 1073741824 {
        ScaledBytes { amount: bytes / 1048576, unit: ByteUnit::GiB }
    } else if bytes > 1048576 {
        ScaledBytes { amount: bytes / 1024, unit: ByteUnit::MiB }
    } else if bytes > 1024 {
        ScaledBytes { amount: bytes, unit: ByteUnit::KiB }
    } else {
        ScaledBytes { amount: bytes, unit: ByteUnit::Bytes }
    }
}

/// Scale a number of bytes to the largest unit that it exceeds.
pub fn scale_bytes(bytes: usize) -> (r: ScaledBytes)
    ensures
        r == scaled(bytes),
{
    if bytes > 1073741824 {
        ScaledBytes { amount: bytes / 1048576, unit: ByteUnit::GiB }
    } else if bytes > 1048576 {
        ScaledBytes { amount: bytes / 1024, unit: ByteUnit::MiB }
    } else if bytes > 1024 {
        ScaledBytes { amount: bytes, unit: ByteUnit::KiB }
    } else {
        ScaledBytes { amount: bytes, unit: ByteUnit::Bytes }
    }
}

/// The files and bytes that prefetching has seen, and how many files its last report named.
#[derive(Debug, Clone, Copy, PartialEq, Eq, Structural)]
pub struct PrefetchProgress {
    pub files: usize,
    pub bytes: usize,
    pub reported_files: usize,
}

/// A sum that starts over at the limit of the machine.
pub open spec fn wrapped_sum(a: usize, b: usize) -> usize {
    if a + b > usize::MAX {
        (a + b - (usize::MAX + 1)) as usize
    } else {
        (a + b) as usize
    }
}

impl PrefetchProgress {
    /// Nothing was prefetched yet.
    pub fn new() -> (r: PrefetchProgress)
        ensures
            r == (PrefetchProgress { files: 0, bytes: 0, reported_files: 0 }),
    {
        PrefetchProgress { files: 0, bytes: 0, reported_files: 0 }
    }

    /// Take note of the stored size of a file.
    pub fn cached(&mut self, size: usize)
        ensures
            *final(self) == (PrefetchProgress {
                bytes: wrapped_sum(old(self).bytes, size),
                ..*old(self)
            }),
    {
        self.bytes = self.bytes.wrapping_add(size);
    }

    /// Take note that a file was read through the mount.
    pub fn hydrated(&mut self)
        ensures
            *final(self) == (PrefetchProgress {
                files: wrapped_sum(old(self).files, 1),
                ..*old(self)
            }),
    {
        self.files = self.files.wrapping_add(1);
    }

    /// Whether to report: the last report is over a second old and names another number of files.
    pub fn report(&mut self, over_a_second: bool) -> (r: bool)
        ensures
            r == (over_a_second && old(self).files != old(self).reported_files),
            *final(self) == (PrefetchProgress {
                reported_files: if r {
                    old(self).files
                } else {
                    old(self).reported_files
                },
                ..*old(self)
            }),
    {
        if over_a_second && self.files != self.reported_files {
            self.reported_files = self.files;
            return true;
        }
        false
    }
}

/// What is said of the files and bytes prefetched so far, or of all of them at the end, given the
/// bytes in words.
pub open spec fn progress_text(done: bool, files: usize, size: Seq<char>) -> Seq<char> {
    let start = if done {
        "Prefetched done: "@
    } else {
        "Prefetched "@
    };
    start + decimal(files as int) + " files, "@ + size
}

/// What is said of the files and bytes prefetched.
pub fn progress_message(done: bool, files: usize, size: &str) -> (r: String)
    ensures
        r@ == progress_text(done, files, size@),
{
    let mut message = if done {
        "Prefetched done: ".to_owned()
    } else {
        "Prefetched ".to_owned()
    };
    message.append(write_positional(files as u64, 10).as_str());
    message.append(" files, ");
    message.append(size);
    message
}

/// A number of bytes is shown in the largest unit that it exceeds, to a 1024th of it.
pub proof fn law_bytes_are_scaled_to_the_largest_unit(bytes: usize)
    ensures
        scaled(bytes).unit == ByteUnit::Bytes <==> bytes <= 1024,
        scaled(bytes).unit == ByteUnit::KiB <==> 1024 < bytes <= 1024 * 1024,
        scaled(bytes).unit == ByteUnit::MiB <==> 1024 * 1024 < bytes <= 1024 * 1024 * 1024,
        scaled(bytes).unit == ByteUnit::GiB <==> bytes > 1024 * 1024 * 1024,
        bytes <= 1024 * 1024 ==> scaled(bytes).amount == bytes,
        scaled(bytes).unit == ByteUnit::MiB ==> scaled(bytes).amount * 1024 <= bytes < (scaled(
            bytes,
        ).amount + 1) * 1024,
        scaled(bytes).unit == ByteUnit::GiB ==> scaled(bytes).amount * 1024 * 1024 <= bytes < (
        scaled(bytes).amount + 1) * 1024 * 1024,
{
}

/// Counting adds up, until the machine's limit is reached.
pub proof fn law_counting_adds_up(a: usize, b: usize)
    ensures
        a + b <= usize::MAX ==> wrapped_sum(a, b) == a + b,
        wrapped_sum(a, b) == a + b || wrapped_sum(a, b) == a + b - usize::MAX - 1,
{
}

/// What is said of the progress names the number of files and the bytes, and whether it is over.
pub proof fn law_progress_names_files_and_bytes(files: usize, size: Seq<char>)
    ensures
        progress_text(true, files, size) == "Prefetched done: "@ + decimal(files as int)
            + " files, "@ + size,
        progress_text(false, files, size) == "Prefetched "@ + decimal(files as int) + " files, "@
            + size,
{
}

} // verus!
