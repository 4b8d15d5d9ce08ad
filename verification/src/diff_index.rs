//! The index of the diffs of a package index: the files to fetch stand
//! under its `Download` labels.

use crate::checksum::is_checksum_text;
use crate::checksum::kind_of_len;
use crate::checksum::Checksum;
use crate::codec::create_reader;
use crate::codec::reader_text;
use crate::codec::reports_reader;
use crate::error::MirsError;
use crate::hexcode::hex_decoded;
use crate::index::offsets_of;
use crate::index::owned_lines;
use crate::index::read_so_far;
use crate::index::read_so_far_exec;
use crate::index::text_offsets;
use crate::index::IndexEntryModel;
use crate::index::IndexFault;
use crate::index::IndexFileEntry;
use crate::metadata_file::FileModel;
use crate::metadata_file::MetadataFile;
use crate::path::FilePath;
use crate::release::EntryModel;
use crate::release::FileEntry;
use crate::text::char_lists;
use crate::text::chars_of;
use crate::text::ends_with;
use crate::text::ends_with_exec;
use crate::text::lines;
use crate::text::lit;
use crate::number::parse_u64;
use crate::number::parse_u64_exec;
use crate::text::split_words;
use crate::text::string_of;
use crate::text::to_vec;
use crate::text::trim_end;
use crate::text::trim_end_exec;
use crate::text::words;
use crate::text::Blank;
use crate::textmap::lookup;
use crate::textmap::upsert;
use crate::textmap::TextMap;
use vstd::prelude::*;

verus! {

/// The reader between two lines: whether it stands under a `Download`
/// label, and the table of the files read so far.
pub struct DiffState {
    pub scope: bool,
    pub files: Seq<(Seq<char>, EntryModel)>,
}

/// The state after one more line. A line that ends in `Download:` opens a
/// list of files. Under it a line that starts with a space lists a file by
/// checksum, size and path; the digests of one path are merged. Any other
/// line closes the list.
pub open spec fn diff_line_applied(st: DiffState, raw: Seq<char>) -> Result<DiffState, IndexFault> {
    let line = trim_end(raw);
    if ends_with(line, "Download:"@) {
        Ok(DiffState { scope: true, files: st.files })
    } else if line.len() > 0 && line[0] == ' ' && st.scope {
        let w = words(line, Blank::Ascii);
        if w.len() < 3 {
            Err(IndexFault::Malformed)
        } else {
            match parse_u64(w[1]) {
                None => Err(IndexFault::BadSize(w[1])),
                Some(size) => if !is_checksum_text(w[0]) {
                    Err(IndexFault::BadChecksum(w[0]))
                } else {
                    Ok(
                        DiffState {
                            scope: st.scope,
                            files: upsert(
                                st.files,
                                w[2],
                                (match lookup(st.files, w[2]) {
                                    Some(e) => e,
                                    None => EntryModel::bare(size),
                                }).with(kind_of_len(w[0].len() / 2)->0, hex_decoded(w[0])),
                            ),
                        },
                    )
                },
            }
        }
    } else {
        Ok(DiffState { scope: false, files: st.files })
    }
}

/// The state after the first `n` lines; the first fault ends the reading.
pub open spec fn diff_after(all: Seq<Seq<char>>, n: int) -> Result<DiffState, IndexFault>
    decreases n,
{
    if n <= 0 || n > all.len() {
        Ok(DiffState { scope: false, files: Seq::empty() })
    } else {
        match diff_after(all, n - 1) {
            Ok(st) => diff_line_applied(st, all[n - 1]),
            Err(e) => Err(e),
        }
    }
}

/// The table of files that a diff index lists.
pub open spec fn diff_table(all: Seq<Seq<char>>) -> Result<Seq<(Seq<char>, EntryModel)>, IndexFault> {
    match diff_after(all, all.len() as int) {
        Ok(st) => Ok(st.files),
        Err(e) => Err(e),
    }
}

/// The entry of the index for one file of the table: its path, its size, and
/// its strongest digest.
pub open spec fn diff_entry(item: (Seq<char>, EntryModel)) -> IndexEntryModel {
    IndexEntryModel { path: item.0, size: Some(item.1.size), checksum: item.1.strongest() }
}

pub proof fn lemma_diff_fault_stays(all: Seq<Seq<char>>, m: int, n: int)
    requires
        0 <= m <= n <= all.len(),
        diff_after(all, m) is Err,
    ensures
        diff_after(all, n) == diff_after(all, m),
    decreases n - m,
{
    if m < n {
        lemma_diff_fault_stays(all, m, n - 1);
    }
}

/// Walks the files that a diff index lists, in the order of their paths.
pub struct DiffIndexFile {
    pub files: TextMap<FileEntry>,
    lines: Vec<Vec<char>>,
    offsets: Vec<u64>,
    pending: bool,
    file: MetadataFile,
    size: u64,
}

/// Reads one line of a diff index into the table.
fn apply_diff_line(
    scope: bool,
    files: &mut TextMap<FileEntry>,
    raw: &[char],
    path: &FilePath,
) -> (r: Result<bool, MirsError>)
    ensures
        match r {
            Ok(next) => diff_line_applied(DiffState { scope, files: old(files)@ }, raw@) == Ok::<
                DiffState,
                IndexFault,
            >(DiffState { scope: next, files: final(files)@ }),
            Err(e) => diff_line_applied(DiffState { scope, files: old(files)@ }, raw@) is Err && (
            e matches MirsError::ParsingDiffIndex { path: p } && p@ == path@),
        },
{
    let line = trim_end_exec(raw);
    if ends_with_exec(line, lit("Download:").as_slice()) {
        return Ok(true);
    }
    if line.len() > 0 && line[0] == ' ' && scope {
        let parts = split_words(line, Blank::Ascii);
        if parts.len() < 3 {
            return Err(MirsError::ParsingDiffIndex { path: path.0.clone() });
        }
        let size = match parse_u64_exec(parts[1]) {
            Some(n) => n,
            None => {
                return Err(MirsError::ParsingDiffIndex { path: path.0.clone() });
            },
        };
        let checksum = match Checksum::from_chars(parts[0]) {
            Ok(c) => c,
            Err(_) => {
                return Err(MirsError::ParsingDiffIndex { path: path.0.clone() });
            },
        };
        let entry = match files.get(parts[2]) {
            Some(e) => *e,
            None => FileEntry::bare(size),
        };
        files.insert(to_vec(parts[2]), entry.with_checksum(checksum));
        return Ok(scope);
    }
    Ok(false)
}

impl DiffIndexFile {
    /// The lines of the index.
    pub closed spec fn all_lines(&self) -> Seq<Seq<char>> {
        char_lists(self.lines@)
    }

    /// The files that were read and not given out yet.
    pub closed spec fn table(&self) -> Seq<(Seq<char>, EntryModel)> {
        self.files@
    }

    /// Whether the lines are still to be read.
    pub closed spec fn unread(&self) -> bool {
        self.pending
    }

    /// The file that is read.
    pub closed spec fn source(&self) -> FileModel {
        self.file@
    }

    /// How many bytes of text stand before each line, and before the end.
    pub closed spec fn offsets(&self) -> Seq<u64> {
        self.offsets@
    }

    /// How many bytes of the file have been read: the share of its size
    /// that the text read so far makes of its whole text.
    pub open spec fn bytes_read(&self) -> u64 {
        read_so_far(
            self.length(),
            self.offsets(),
            if self.unread() {
                0
            } else {
                self.all_lines().len() as int
            },
        )
    }

    /// The size of the file in bytes, as it lies on disk.
    pub closed spec fn length(&self) -> u64 {
        self.size
    }

    /// A reader of the diff index `meta_file` with the bytes `data`.
    pub fn build(meta_file: MetadataFile, data: Vec<u8>) -> (r: Result<DiffIndexFile, MirsError>)
        ensures
            match r {
                Ok(reader) => reader_text(data@, meta_file@.path) matches Ok(text)
                    && reader.all_lines() == lines(text) && reader.offsets() == offsets_of(
                    lines(text),
                    lines(text).len() as int,
                ) && reader.unread() && reader.table().len()
                    == 0 && reader.source() == meta_file@ && reader.length() == data@.len(),
                Err(e) => reader_text(data@, meta_file@.path) matches Err(fault) && reports_reader(
                    e,
                    fault,
                    meta_file@.path,
                ),
            },
    {
        match create_reader(data, meta_file.path()) {
            Ok((text, size)) => Ok(
                DiffIndexFile {
                    files: TextMap::new(),
                    lines: owned_lines(text.as_slice()),
                    offsets: text_offsets(text.as_slice()),
                    pending: true,
                    file: meta_file,
                    size,
                },
            ),
            Err(e) => Err(e),
        }
    }

    /// A reader of the diff index `meta_file` whose text is `text`.
    pub fn from_text(meta_file: MetadataFile, text: &str, size: u64) -> (r: DiffIndexFile)
        ensures
            r.all_lines() == lines(text@),
            r.offsets() == offsets_of(lines(text@), lines(text@).len() as int),
            r.unread(),
            r.table().len() == 0,
            r.source() == meta_file@,
            r.length() == size,
    {
        let chars = chars_of(text);
        DiffIndexFile {
            files: TextMap::new(),
            lines: owned_lines(chars.as_slice()),
            offsets: text_offsets(chars.as_slice()),
            pending: true,
            file: meta_file,
            size,
        }
    }

    pub fn size(&self) -> (r: u64)
        ensures
            r == self.length(),
    {
        self.size
    }

    /// How many bytes of the file have been read so far.
    pub fn counter(&self) -> (r: u64)
        ensures
            r == self.bytes_read(),
    {
        let pos: usize = if self.pending {
            0
        } else {
            self.lines.len()
        };
        read_so_far_exec(self.size, &self.offsets, pos)
    }

    pub fn file(&self) -> (r: &MetadataFile)
        ensures
            r@ == self.source(),
    {
        &self.file
    }

    /// Reads all lines of the index into the table.
    fn read_all(&mut self) -> (r: Result<(), MirsError>)
        requires
            old(self).table().len() == 0,
        ensures
            final(self).all_lines() == old(self).all_lines(),
            final(self).offsets() == old(self).offsets(),
            final(self).source() == old(self).source(),
            final(self).length() == old(self).length(),
            final(self).unread() == old(self).unread(),
            match r {
                Ok(()) => diff_table(old(self).all_lines()) == Ok::<
                    Seq<(Seq<char>, EntryModel)>,
                    IndexFault,
                >(final(self).table()),
                Err(e) => diff_table(old(self).all_lines()) is Err && (
                e matches MirsError::ParsingDiffIndex { path: p } && p@ == old(self).source().path),
            },
    {
        let mut scope = false;
        let mut i: usize = 0;
        assert(self.files@ =~= Seq::<(Seq<char>, EntryModel)>::empty());
        while i < self.lines.len()
            invariant
                i <= self.lines@.len(),
                self.lines == old(self).lines,
                self.offsets == old(self).offsets,
                self.file == old(self).file,
                self.size == old(self).size,
                self.pending == old(self).pending,
                diff_after(char_lists(self.lines@), i as int) == Ok::<DiffState, IndexFault>(
                    DiffState { scope, files: self.files@ },
                ),
            decreases self.lines@.len() - i,
        {
            match apply_diff_line(scope, &mut self.files, self.lines[i].as_slice(), self.file.path()) {
                Ok(next) => {
                    scope = next;
                },
                Err(e) => {
                    proof {
                        lemma_diff_fault_stays(
                            char_lists(self.lines@),
                            i + 1,
                            self.lines@.len() as int,
                        );
                    }
                    return Err(e);
                },
            }
            i += 1;
        }
        Ok(())
    }

    /// Whether a step of the walk leads from this reader to `after` and
    /// gives `r`. The first step reads the whole index; a fault in it is
    /// given once, and the walk is then at its end. Each step gives the
    /// first file of the table and leaves the rest.
    pub open spec fn gives(
        self,
        after: DiffIndexFile,
        r: Option<Result<IndexFileEntry, MirsError>>,
    ) -> bool {
        let table = if self.unread() {
            diff_table(self.all_lines())
        } else {
            Ok(self.table())
        };
        &&& after.all_lines() == self.all_lines()
        &&& after.offsets() == self.offsets()
        &&& after.source() == self.source()
        &&& after.length() == self.length()
        &&& !after.unread()
        &&& match table {
            Err(_) => after.table().len() == 0 && (r matches Some(Err(e)) && (
            e matches MirsError::ParsingDiffIndex { path: p } && p@ == self.source().path)),
            Ok(t) => if t.len() == 0 {
                r is None && after.table().len() == 0
            } else {
                after.table() == t.drop_first() && (r matches Some(Ok(entry)) && entry@
                    == diff_entry(t[0]))
            },
        }
    }

    /// The next file of the index.
    pub fn next(&mut self) -> (r: Option<Result<IndexFileEntry, MirsError>>)
        ensures
            old(self).gives(*final(self), r),
    {
        if self.pending {
            self.pending = false;
            self.files = TextMap::new();
            match self.read_all() {
                Ok(()) => {},
                Err(e) => {
                    self.files = TextMap::new();
                    return Some(Err(e));
                },
            }
        }
        match self.files.pop_first() {
            Some((path, value)) => Some(
                Ok(
                    IndexFileEntry {
                        path: string_of(path.as_slice()),
                        size: Some(value.size),
                        checksum: value.strongest_hash(),
                    },
                ),
            ),
            None => None,
        }
    }
}

} // verus!
