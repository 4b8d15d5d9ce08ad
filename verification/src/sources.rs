//! The index of source packages: each record names a directory and lists
//! the files of one package under it.

use crate::checksum::is_checksum_text;
use crate::checksum::kind_of_len;
use crate::checksum::Checksum;
use crate::codec::create_reader;
use crate::codec::reader_text;
use crate::codec::reports_reader;
use crate::error::MirsError;
use crate::hexcode::hex_decoded;
use crate::index::offsets_of;
use crate::index::owned_lines;
use crate::index::read_so_far;
use crate::index::read_so_far_exec;
use crate::index::text_offsets;
use crate::index::record_end;
use crate::index::record_end_exec;
use crate::index::reports_index;
use crate::index::IndexEntryModel;
use crate::index::IndexFault;
use crate::index::IndexFileEntry;
use crate::metadata_file::FileKind;
use crate::metadata_file::FileModel;
use crate::metadata_file::MetadataFile;
use crate::path::FilePath;
use crate::release::Digest;
use crate::text::char_lists;
use crate::text::chars_of;
use crate::text::chomp;
use crate::text::chomp_exec;
use crate::text::concat3;
use crate::text::lines;
use crate::text::lit;
use crate::number::parse_u64;
use crate::number::parse_u64_exec;
use crate::text::split_words;
use crate::text::string_of;
use crate::text::strip_prefix;
use crate::text::strip_prefix_exec;
use crate::text::text_eq;
use crate::text::to_vec;
use crate::text::words;
use crate::text::Blank;
use crate::textmap::lookup;
use crate::textmap::upsert;
use crate::textmap::TextMap;
use vstd::prelude::*;

verus! {

/// What a source index says of one file: its size and its strongest checksum.
#[derive(Clone, Copy, Debug)]
pub struct SourceEntry {
    pub size: u64,
    pub checksum: Checksum,
}

/// A `SourceEntry` as plain values.
pub struct SourceEntryModel {
    pub size: u64,
    pub checksum: Digest,
}

impl View for SourceEntry {
    type V = SourceEntryModel;

    open spec fn view(&self) -> SourceEntryModel {
        SourceEntryModel { size: self.size, checksum: self.checksum@ }
    }
}

/// The reader between two lines of a record: the directory it has found,
/// the files it has read, and whether the next line lists a file.
pub struct SourceState {
    pub dir: Option<Seq<char>>,
    pub files: Seq<(Seq<char>, SourceEntryModel)>,
    pub in_block: bool,
}

/// Whether a line opens a list of files.
pub open spec fn is_block_label(line: Seq<char>) -> bool {
    line == "Files:"@ || line == "Checksums-Sha1:"@ || line == "Checksums-Sha256:"@ || line
        == "Checksums-Sha512:"@
}

/// The entry of a file after one more line for it: the first line gives its
/// size, and of the checksums the strongest is kept.
pub open spec fn merged_source(held: Option<SourceEntryModel>, size: u64, d: Digest) -> SourceEntryModel {
    match held {
        Some(e) => if e.checksum.kind.strength() < d.kind.strength() {
            SourceEntryModel { size: e.size, checksum: d }
        } else {
            e
        },
        None => SourceEntryModel { size, checksum: d },
    }
}

/// The files after a line that lists one: its words are the checksum, the
/// size and the name.
pub open spec fn source_file_line(
    files: Seq<(Seq<char>, SourceEntryModel)>,
    line: Seq<char>,
) -> Result<Seq<(Seq<char>, SourceEntryModel)>, IndexFault> {
    let w = words(line, Blank::Unicode);
    if w.len() < 1 {
        Err(IndexFault::Malformed)
    } else if !is_checksum_text(w[0]) {
        Err(IndexFault::BadChecksum(w[0]))
    } else if w.len() < 2 {
        Err(IndexFault::Malformed)
    } else {
        match parse_u64(w[1]) {
            None => Err(IndexFault::BadSize(w[1])),
            Some(size) => if w.len() < 3 {
                Err(IndexFault::Malformed)
            } else {
                Ok(
                    upsert(
                        files,
                        w[2],
                        merged_source(
                            lookup(files, w[2]),
                            size,
                            Digest {
                                kind: kind_of_len(w[0].len() / 2)->0,
                                bytes: hex_decoded(w[0]),
                            },
                        ),
                    ),
                )
            },
        }
    }
}

/// The state after one more line of a record; `next` is the line after it,
/// where the record has one. The line after a label lists a file, and so
/// does each line after it that starts with a space.
pub open spec fn source_line_applied(
    st: SourceState,
    line: Seq<char>,
    next: Option<Seq<char>>,
) -> Result<SourceState, IndexFault> {
    if st.in_block {
        match source_file_line(st.files, line) {
            Err(e) => Err(e),
            Ok(files) => Ok(
                SourceState {
                    dir: st.dir,
                    files,
                    in_block: match next {
                        Some(n) => n.len() > 0 && n[0] == ' ',
                        None => false,
                    },
                },
            ),
        }
    } else if strip_prefix(line, "Directory: "@) is Some {
        Ok(SourceState { dir: strip_prefix(line, "Directory: "@), ..st })
    } else if is_block_label(line) {
        Ok(SourceState { in_block: true, ..st })
    } else {
        Ok(st)
    }
}

/// The state after the first `n` of the `total` lines of the record that
/// starts at line `from`.
pub open spec fn source_after(all: Seq<Seq<char>>, from: int, n: int, total: int) -> Result<
    SourceState,
    IndexFault,
>
    decreases n,
{
    if n <= 0 || from < 0 || n > total || from + total > all.len() {
        Ok(SourceState { dir: None, files: Seq::empty(), in_block: false })
    } else {
        match source_after(all, from, n - 1, total) {
            Err(e) => Err(e),
            Ok(st) => source_line_applied(
                st,
                chomp(all[from + n - 1]),
                if n < total {
                    Some(chomp(all[from + n]))
                } else {
                    None
                },
            ),
        }
    }
}

/// The first `n` files of a record under the directory of the record.
pub open spec fn prefixed_after(
    files: Seq<(Seq<char>, SourceEntryModel)>,
    dir: Seq<char>,
    n: int,
) -> Seq<(Seq<char>, SourceEntryModel)>
    decreases n,
{
    if n <= 0 || n > files.len() {
        Seq::empty()
    } else {
        upsert(prefixed_after(files, dir, n - 1), dir + seq!['/'] + files[n - 1].0, files[n - 1].1)
    }
}

/// The files that the record of `total` lines from line `from` on lists,
/// each under the directory of the record. A record without a directory is
/// a fault.
pub open spec fn source_record(all: Seq<Seq<char>>, from: int, total: int) -> Result<
    Seq<(Seq<char>, SourceEntryModel)>,
    IndexFault,
> {
    match source_after(all, from, total, total) {
        Err(e) => Err(e),
        Ok(st) => match st.dir {
            None => Err(IndexFault::Malformed),
            Some(d) => Ok(prefixed_after(st.files, d, st.files.len() as int)),
        },
    }
}

/// The entry of the index for one file of a record.
pub open spec fn source_entry(item: (Seq<char>, SourceEntryModel)) -> IndexEntryModel {
    IndexEntryModel { path: item.0, size: Some(item.1.size), checksum: Some(item.1.checksum) }
}

/// What a step of the walk gives, and where it leaves the reader.
pub struct SourcesStep {
    pub out: Option<Result<IndexEntryModel, IndexFault>>,
    pub pos: int,
    pub buf: Seq<(Seq<char>, SourceEntryModel)>,
}

/// What a source index gives next. The files of the record at hand come
/// first, in the order of their paths; then the next record is read. Without
/// a line that ends it the index is at its end, and a record without files
/// ends the walk.
pub open spec fn sources_next(
    all: Seq<Seq<char>>,
    pos: int,
    buf: Seq<(Seq<char>, SourceEntryModel)>,
) -> SourcesStep {
    if buf.len() > 0 {
        SourcesStep { out: Some(Ok(source_entry(buf[0]))), pos, buf: buf.drop_first() }
    } else {
        let end = record_end(all, pos);
        if pos < 0 || end < pos || end >= all.len() {
            SourcesStep { out: None, pos: all.len() as int, buf: Seq::empty() }
        } else {
            match source_record(all, pos, end + 1 - pos) {
                Err(f) => SourcesStep { out: Some(Err(f)), pos: end + 1, buf: Seq::empty() },
                Ok(t) => if t.len() == 0 {
                    SourcesStep { out: None, pos: end + 1, buf: Seq::empty() }
                } else {
                    SourcesStep {
                        out: Some(Ok(source_entry(t[0]))),
                        pos: end + 1,
                        buf: t.drop_first(),
                    }
                },
            }
        }
    }
}

pub proof fn lemma_source_fault_stays(all: Seq<Seq<char>>, from: int, m: int, n: int, total: int)
    requires
        0 <= from,
        0 <= m <= n <= total,
        from + total <= all.len(),
        source_after(all, from, m, total) is Err,
    ensures
        source_after(all, from, n, total) == source_after(all, from, m, total),
    decreases n - m,
{
    if m < n {
        lemma_source_fault_stays(all, from, m, n - 1, total);
    }
}

fn is_block_label_exec(line: &[char]) -> (r: bool)
    ensures
        r == is_block_label(line@),
{
    text_eq(line, lit("Files:").as_slice()) || text_eq(line, lit("Checksums-Sha1:").as_slice())
        || text_eq(line, lit("Checksums-Sha256:").as_slice()) || text_eq(
        line,
        lit("Checksums-Sha512:").as_slice(),
    )
}

/// Reads a line that lists a file into the table.
fn read_source_file_line(files: &mut TextMap<SourceEntry>, line: &[char], path: &FilePath) -> (r:
    Result<(), MirsError>)
    ensures
        match r {
            Ok(()) => source_file_line(old(files)@, line@) == Ok::<
                Seq<(Seq<char>, SourceEntryModel)>,
                IndexFault,
            >(final(files)@),
            Err(e) => match source_file_line(old(files)@, line@) {
                Err(f) => reports_index(e, f, path@, FileKind::Sources),
                Ok(_) => false,
            },
        },
{
    let parts = split_words(line, Blank::Unicode);
    if parts.len() < 1 {
        return Err(MirsError::ParsingSources { path: path.0.clone() });
    }
    let checksum = match Checksum::from_chars(parts[0]) {
        Ok(v) => v,
        Err(e) => {
            return Err(e);
        },
    };
    if parts.len() < 2 {
        return Err(MirsError::ParsingSources { path: path.0.clone() });
    }
    let size = match parse_u64_exec(parts[1]) {
        Some(v) => v,
        None => {
            return Err(MirsError::ParseInt { value: string_of(parts[1]) });
        },
    };
    if parts.len() < 3 {
        return Err(MirsError::ParsingSources { path: path.0.clone() });
    }
    let entry = match files.get(parts[2]) {
        Some(held) => {
            let mut e = *held;
            e.checksum.replace_if_stronger(checksum);
            e
        },
        None => SourceEntry { size, checksum },
    };
    files.insert(to_vec(parts[2]), entry);
    Ok(())
}

/// Reads the record in the lines from `pos` to `end` into a table of its
/// files under its directory.
fn read_source_record(all: &Vec<Vec<char>>, pos: usize, end: usize, path: &FilePath) -> (r: Result<
    TextMap<SourceEntry>,
    MirsError,
>)
    requires
        pos <= end < all@.len(),
    ensures
        match r {
            Ok(t) => source_record(char_lists(all@), pos as int, end + 1 - pos) == Ok::<
                Seq<(Seq<char>, SourceEntryModel)>,
                IndexFault,
            >(t@),
            Err(e) => match source_record(char_lists(all@), pos as int, end + 1 - pos) {
                Err(f) => reports_index(e, f, path@, FileKind::Sources),
                Ok(_) => false,
            },
        },
{
    let mut dir: Option<Vec<char>> = None;
    let mut files: TextMap<SourceEntry> = TextMap::new();
    let mut in_block = false;
    let total: usize = all.len();
    let ghost count = end + 1 - pos;
    let mut k: usize = pos;
    while k <= end
        invariant
            pos <= k <= end + 1,
            end < total,
            total == all@.len(),
            count == end + 1 - pos,
            source_after(char_lists(all@), pos as int, k - pos, count) == Ok::<
                SourceState,
                IndexFault,
            >(
                SourceState {
                    dir: match dir {
                        Some(d) => Some(d@),
                        None => None,
                    },
                    files: files@,
                    in_block,
                },
            ),
        decreases end + 1 - k,
    {
        let line = chomp_exec(all[k].as_slice());
        if in_block {
            match read_source_file_line(&mut files, line, path) {
                Ok(()) => {},
                Err(e) => {
                    proof {
                        lemma_source_fault_stays(
                            char_lists(all@),
                            pos as int,
                            k + 1 - pos,
                            count,
                            count,
                        );
                    }
                    return Err(e);
                },
            }
            in_block = if k < end {
                let next = chomp_exec(all[k + 1].as_slice());
                next.len() > 0 && next[0] == ' '
            } else {
                false
            };
        } else if let Some(d) = strip_prefix_exec(line, lit("Directory: ").as_slice()) {
            dir = Some(to_vec(d));
        } else if is_block_label_exec(line) {
            in_block = true;
        }
        k += 1;
    }
    let dir = match dir {
        Some(d) => d,
        None => {
            return Err(MirsError::ParsingSources { path: path.0.clone() });
        },
    };
    let mut out: TextMap<SourceEntry> = TextMap::new();
    let mut i: usize = 0;
    let slash = ['/'];
    assert(slash@ =~= seq!['/']);
    while i < files.len()
        invariant
            i <= files@.len(),
            slash@ == seq!['/'],
            out@ == prefixed_after(files@, dir@, i as int),
        decreases files@.len() - i,
    {
        let name = concat3(dir.as_slice(), slash.as_slice(), files.key_at(i).as_slice());
        let entry = *files.value_at(i);
        out.insert(name, entry);
        i += 1;
    }
    Ok(out)
}

/// Walks the files that a source index lists.
pub struct SourcesFile {
    lines: Vec<Vec<char>>,
    offsets: Vec<u64>,
    pos: usize,
    file: MetadataFile,
    files_buf: TextMap<SourceEntry>,
    size: u64,
}

impl SourcesFile {
    /// The lines of the index.
    pub closed spec fn all_lines(&self) -> Seq<Seq<char>> {
        char_lists(self.lines@)
    }

    /// The line at which the reading goes on.
    pub closed spec fn position(&self) -> int {
        self.pos as int
    }

    /// The files of the record at hand that are still to come.
    pub closed spec fn buffered(&self) -> Seq<(Seq<char>, SourceEntryModel)> {
        self.files_buf@
    }

    /// The file that is read.
    pub closed spec fn source(&self) -> FileModel {
        self.file@
    }

    /// How many bytes of text stand before each line, and before the end.
    pub closed spec fn offsets(&self) -> Seq<u64> {
        self.offsets@
    }

    /// How many bytes of the file have been read: the share of its size
    /// that the text read so far makes of its whole text.
    pub open spec fn bytes_read(&self) -> u64 {
        read_so_far(self.length(), self.offsets(), self.position())
    }

    /// The size of the file in bytes, as it lies on disk.
    pub closed spec fn length(&self) -> u64 {
        self.size
    }

    /// A reader of the source index `meta_file` with the bytes `data`.
    pub fn build(meta_file: MetadataFile, data: Vec<u8>) -> (r: Result<SourcesFile, MirsError>)
        ensures
            match r {
                Ok(reader) => reader_text(data@, meta_file@.path) matches Ok(text)
                    && reader.all_lines() == lines(text) && reader.offsets() == offsets_of(
                    lines(text),
                    lines(text).len() as int,
                ) && reader.position() == 0
                    && reader.buffered().len() == 0 && reader.source() == meta_file@
                    && reader.length() == data@.len(),
                Err(e) => reader_text(data@, meta_file@.path) matches Err(fault) && reports_reader(
                    e,
                    fault,
                    meta_file@.path,
                ),
            },
    {
        match create_reader(data, meta_file.path()) {
            Ok((text, size)) => Ok(
                SourcesFile {
                    lines: owned_lines(text.as_slice()),
                    offsets: text_offsets(text.as_slice()),
                    pos: 0,
                    file: meta_file,
                    files_buf: TextMap::new(),
                    size,
                },
            ),
            Err(e) => Err(e),
        }
    }

    /// A reader of the source index `meta_file` whose text is `text`.
    pub fn from_text(meta_file: MetadataFile, text: &str, size: u64) -> (r: SourcesFile)
        ensures
            r.all_lines() == lines(text@),
            r.offsets() == offsets_of(lines(text@), lines(text@).len() as int),
            r.position() == 0,
            r.buffered().len() == 0,
            r.source() == meta_file@,
            r.length() == size,
    {
        let chars = chars_of(text);
        SourcesFile {
            lines: owned_lines(chars.as_slice()),
            offsets: text_offsets(chars.as_slice()),
            pos: 0,
            file: meta_file,
            files_buf: TextMap::new(),
            size,
        }
    }

    pub fn size(&self) -> (r: u64)
        ensures
            r == self.length(),
    {
        self.size
    }

    /// How many bytes of the file have been read so far.
    pub fn counter(&self) -> (r: u64)
        ensures
            r == self.bytes_read(),
    {
        read_so_far_exec(self.size, &self.offsets, self.pos)
    }

    pub fn file(&self) -> (r: &MetadataFile)
        ensures
            r@ == self.source(),
    {
        &self.file
    }

    /// Whether a step of the walk leads from this reader to `after` and
    /// gives `r`.
    pub open spec fn gives(
        self,
        after: SourcesFile,
        r: Option<Result<IndexFileEntry, MirsError>>,
    ) -> bool {
        let step = sources_next(self.all_lines(), self.position(), self.buffered());
        &&& after.all_lines() == self.all_lines()
        &&& after.offsets() == self.offsets()
        &&& after.source() == self.source()
        &&& after.length() == self.length()
        &&& after.position() == step.pos
        &&& after.buffered() == step.buf
        &&& match r {
            Some(Ok(entry)) => step.out == Some(Ok::<IndexEntryModel, IndexFault>(entry@)),
            Some(Err(e)) => step.out matches Some(Err(f)) && reports_index(
                e,
                f,
                self.source().path,
                FileKind::Sources,
            ),
            None => step.out is None,
        }
    }

    /// The next file of the index. `None` ends the walk.
    pub fn next(&mut self) -> (r: Option<Result<IndexFileEntry, MirsError>>)
        ensures
            old(self).gives(*final(self), r),
    {
        if self.files_buf.is_empty() {
            let total = self.lines.len();
            if self.pos > total {
                self.pos = total;
                self.files_buf = TextMap::new();
                return None;
            }
            let end = record_end_exec(&self.lines, self.pos);
            if end >= total {
                self.pos = total;
                self.files_buf = TextMap::new();
                return None;
            }
            let found = read_source_record(&self.lines, self.pos, end, self.file.path());
            self.pos = end + 1;
            match found {
                Ok(table) => {
                    self.files_buf = table;
                },
                Err(e) => {
                    self.files_buf = TextMap::new();
                    return Some(Err(e));
                },
            }
        }
        match self.files_buf.pop_first() {
            Some((path, entry)) => Some(
                Ok(
                    IndexFileEntry {
                        path: string_of(path.as_slice()),
                        size: Some(entry.size),
                        checksum: Some(entry.checksum),
                    },
                ),
            ),
            None => {
                assert(self.files_buf@ =~= Seq::<(Seq<char>, SourceEntryModel)>::empty());
                None
            },
        }
    }
}

} // verus!
