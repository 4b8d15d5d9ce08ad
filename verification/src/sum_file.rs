//! The sum file of installer images: a checksum and a path on each line.

use crate::checksum::is_checksum_text;
use crate::checksum::kind_of_len;
use crate::checksum::Checksum;
use crate::codec::create_reader;
use crate::codec::reader_text;
use crate::codec::reports_reader;
use crate::error::MirsError;
use crate::hexcode::hex_decoded;
use crate::index::offsets_of;
use crate::index::owned_lines;
use crate::index::read_so_far;
use crate::index::read_so_far_exec;
use crate::index::text_offsets;
use crate::index::IndexEntryModel;
use crate::index::IndexFault;
use crate::index::IndexFileEntry;
use crate::path::FilePath;
use crate::release::Digest;
use crate::text::char_lists;
use crate::text::chars_of;
use crate::text::lines;
use crate::text::split_words;
use crate::text::string_of;
use crate::text::words;
use crate::text::Blank;
use vstd::prelude::*;

verus! {

/// The entry that a line of a sum file lists: its first word is the
/// checksum, its second the path. The size of the file is not known.
pub open spec fn sum_entry(raw: Seq<char>) -> Result<IndexEntryModel, IndexFault> {
    let w = words(raw, Blank::Unicode);
    if w.len() < 2 || !is_checksum_text(w[0]) {
        Err(IndexFault::BadSumEntry(raw))
    } else {
        Ok(
            IndexEntryModel {
                path: w[1],
                size: None,
                checksum: Some(
                    Digest { kind: kind_of_len(w[0].len() / 2)->0, bytes: hex_decoded(w[0]) },
                ),
            },
        )
    }
}

/// Reads one line of a sum file.
pub fn read_sum_line(raw: &[char]) -> (r: Result<IndexFileEntry, MirsError>)
    ensures
        match r {
            Ok(entry) => sum_entry(raw@) == Ok::<IndexEntryModel, IndexFault>(entry@),
            Err(e) => sum_entry(raw@) is Err && (e matches MirsError::InvalidSumEntry { line }
                && line@ == raw@),
        },
{
    let parts = split_words(raw, Blank::Unicode);
    if parts.len() < 2 {
        return Err(MirsError::InvalidSumEntry { line: string_of(raw) });
    }
    match Checksum::from_chars(parts[0]) {
        Ok(checksum) => Ok(
            IndexFileEntry { path: string_of(parts[1]), size: None, checksum: Some(checksum) },
        ),
        Err(_) => Err(MirsError::InvalidSumEntry { line: string_of(raw) }),
    }
}

/// Walks the lines of a sum file.
pub struct SumFile {
    lines: Vec<Vec<char>>,
    offsets: Vec<u64>,
    pos: usize,
    path: FilePath,
    size: u64,
}

impl SumFile {
    /// The lines of the file.
    pub closed spec fn all_lines(&self) -> Seq<Seq<char>> {
        char_lists(self.lines@)
    }

    /// The line at which the reading goes on.
    pub closed spec fn position(&self) -> int {
        self.pos as int
    }

    /// The path of the file.
    pub closed spec fn source(&self) -> Seq<char> {
        self.path@
    }

    /// How many bytes of text stand before each line, and before the end.
    pub closed spec fn offsets(&self) -> Seq<u64> {
        self.offsets@
    }

    /// How many bytes of the file have been read: the share of its size
    /// that the text read so far makes of its whole text.
    pub open spec fn bytes_read(&self) -> u64 {
        read_so_far(self.length(), self.offsets(), self.position())
    }

    /// The size of the file in bytes, as it lies on disk.
    pub closed spec fn length(&self) -> u64 {
        self.size
    }

    pub fn path(&self) -> (r: &FilePath)
        ensures
            r@ == self.source(),
    {
        &self.path
    }

    /// A reader of the sum file at `path` with the bytes `data`.
    pub fn build(path: &FilePath, data: Vec<u8>) -> (r: Result<SumFile, MirsError>)
        ensures
            match r {
                Ok(reader) => reader_text(data@, path@) matches Ok(text) && reader.all_lines()
                    == lines(text) && reader.offsets() == offsets_of(lines(text), lines(text).len() as int) && reader.position() == 0 && reader.source() == path@
                    && reader.length() == data@.len(),
                Err(e) => reader_text(data@, path@) matches Err(fault) && reports_reader(
                    e,
                    fault,
                    path@,
                ),
            },
    {
        match create_reader(data, path) {
            Ok((text, size)) => Ok(
                SumFile {
                    lines: owned_lines(text.as_slice()),
                    offsets: text_offsets(text.as_slice()),
                    pos: 0,
                    path: FilePath(path.0.clone()),
                    size,
                },
            ),
            Err(e) => Err(e),
        }
    }

    /// A reader of the sum file at `path` whose text is `text`.
    pub fn from_text(path: &FilePath, text: &str, size: u64) -> (r: SumFile)
        ensures
            r.all_lines() == lines(text@),
            r.offsets() == offsets_of(lines(text@), lines(text@).len() as int),
            r.position() == 0,
            r.source() == path@,
            r.length() == size,
    {
        let chars = chars_of(text);
        SumFile {
            lines: owned_lines(chars.as_slice()),
            offsets: text_offsets(chars.as_slice()),
            pos: 0,
            path: FilePath(path.0.clone()),
            size,
        }
    }

    pub fn size(&self) -> (r: u64)
        ensures
            r == self.length(),
    {
        self.size
    }

    /// How many bytes of the file have been read so far.
    pub fn counter(&self) -> (r: u64)
        ensures
            r == self.bytes_read(),
    {
        read_so_far_exec(self.size, &self.offsets, self.pos)
    }

    /// Whether a step of the walk leads from this reader to `after` and
    /// gives `r`: the entry of the line at hand, or nothing at the end of
    /// the file.
    pub open spec fn gives(self, after: SumFile, r: Option<Result<IndexFileEntry, MirsError>>) -> bool {
        &&& after.all_lines() == self.all_lines()
        &&& after.offsets() == self.offsets()
        &&& after.source() == self.source()
        &&& after.length() == self.length()
        &&& match r {
            Some(found) => 0 <= self.position() < self.all_lines().len() && after.position()
                == self.position() + 1 && match found {
                Ok(entry) => sum_entry(self.all_lines()[self.position()]) == Ok::<
                    IndexEntryModel,
                    IndexFault,
                >(entry@),
                Err(e) => sum_entry(self.all_lines()[self.position()]) is Err && (
                e matches MirsError::InvalidSumEntry { line } && line@
                    == self.all_lines()[self.position()]),
            },
            None => self.position() >= self.all_lines().len() && after.position()
                == self.position(),
        }
    }

    /// The entry of the next line, or `None` at the end of the file.
    pub fn next(&mut self) -> (r: Option<Result<IndexFileEntry, MirsError>>)
        ensures
            old(self).gives(*final(self), r),
    {
        if self.pos >= self.lines.len() {
            return None;
        }
        let found = read_sum_line(self.lines[self.pos].as_slice());
        self.pos = self.pos + 1;
        Some(found)
    }
}

} // verus!
