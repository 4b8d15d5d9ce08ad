//! Readers of index files, whatever the kind of the index.

use crate::codec::reader_text;
use crate::codec::reports_reader;
use crate::text::lines;
use crate::diff_index::DiffIndexFile;
use crate::error::MirsError;
use crate::index::IndexFileEntry;
use crate::index::PackagesFile;
use crate::metadata_file::FileKind;
use crate::metadata_file::MetadataFile;
use crate::sources::SourcesFile;
use crate::sum_file::SumFile;
use vstd::prelude::*;
use vstd::slice::slice_subrange;

verus! {

/// Bytes that are read piece by piece, with a count of what was read.
pub struct TrackingReader {
    inner: Vec<u8>,
    pos: usize,
    read: u64,
}

impl TrackingReader {
    /// The bytes that are still to be read.
    pub closed spec fn remaining(&self) -> Seq<u8> {
        self.inner@.subrange(self.pos as int, self.inner@.len() as int)
    }

    /// How many bytes were read, counted as a wrapping counter counts.
    pub closed spec fn counted(&self) -> u64 {
        self.read
    }

    pub closed spec fn wf(&self) -> bool {
        self.pos <= self.inner@.len()
    }

    pub fn new(inner: Vec<u8>) -> (r: TrackingReader)
        ensures
            r.wf(),
            r.remaining() == inner@,
            r.counted() == 0,
    {
        let r = TrackingReader { inner, pos: 0, read: 0 };
        assert(r.remaining() =~= inner@);
        r
    }

    /// Reads up to `max` bytes: the next bytes in order, fewer than `max`
    /// only at the end. What is read is counted.
    pub fn read(&mut self, max: usize) -> (r: Vec<u8>)
        requires
            old(self).wf(),
        ensures
            final(self).wf(),
            r@.len() == if old(self).remaining().len() < max {
                old(self).remaining().len()
            } else {
                max as nat
            },
            old(self).remaining() == r@ + final(self).remaining(),
            final(self).counted() == old(self).counted().wrapping_add(r@.len() as u64),
    {
        let left: usize = self.inner.len() - self.pos;
        let n: usize = if left < max {
            left
        } else {
            max
        };
        let piece = slice_subrange(self.inner.as_slice(), self.pos, self.pos + n);
        let out = vstd::slice::slice_to_vec(piece);
        self.pos = self.pos + n;
        self.read = self.read.wrapping_add(n as u64);
        assert(old(self).remaining() =~= out@ + self.remaining());
        out
    }

    pub fn counter(&self) -> (r: u64)
        ensures
            r == self.counted(),
    {
        self.read
    }
}

/// What every reader of an index offers.
pub trait IndexFileEntryIterator: Sized {
    /// The size of the file in bytes, as it lies on disk.
    spec fn file_size(&self) -> u64;

    /// How many bytes of the file have been read so far.
    spec fn read(&self) -> u64;

    /// Whether a step of the walk leads from this reader to `after` and
    /// gives `r`.
    spec fn hands(self, after: Self, r: Option<Result<IndexFileEntry, MirsError>>) -> bool;

    /// The size of the file in bytes, as it lies on disk.
    fn size(&self) -> (r: u64)
        ensures
            r == self.file_size(),
    ;

    /// How many bytes of the file have been read so far.
    fn counter(&self) -> (r: u64)
        ensures
            r == self.read(),
    ;

    /// The next entry of the index; `None` ends the walk.
    fn next_entry(&mut self) -> (r: Option<Result<IndexFileEntry, MirsError>>)
        ensures
            old(self).hands(*final(self), r),
    ;
}

impl IndexFileEntryIterator for PackagesFile {
    open spec fn file_size(&self) -> u64 {
        self.length()
    }

    open spec fn read(&self) -> u64 {
        self.bytes_read()
    }

    open spec fn hands(self, after: Self, r: Option<Result<IndexFileEntry, MirsError>>) -> bool {
        self.gives(after, r)
    }

    fn size(&self) -> (r: u64) {
        PackagesFile::size(self)
    }

    fn counter(&self) -> (r: u64) {
        PackagesFile::counter(self)
    }

    fn next_entry(&mut self) -> (r: Option<Result<IndexFileEntry, MirsError>>) {
        self.next()
    }
}

impl IndexFileEntryIterator for SourcesFile {
    open spec fn file_size(&self) -> u64 {
        self.length()
    }

    open spec fn read(&self) -> u64 {
        self.bytes_read()
    }

    open spec fn hands(self, after: Self, r: Option<Result<IndexFileEntry, MirsError>>) -> bool {
        self.gives(after, r)
    }

    fn size(&self) -> (r: u64) {
        SourcesFile::size(self)
    }

    fn counter(&self) -> (r: u64) {
        SourcesFile::counter(self)
    }

    fn next_entry(&mut self) -> (r: Option<Result<IndexFileEntry, MirsError>>) {
        self.next()
    }
}

impl IndexFileEntryIterator for DiffIndexFile {
    open spec fn file_size(&self) -> u64 {
        self.length()
    }

    open spec fn read(&self) -> u64 {
        self.bytes_read()
    }

    open spec fn hands(self, after: Self, r: Option<Result<IndexFileEntry, MirsError>>) -> bool {
        self.gives(after, r)
    }

    fn size(&self) -> (r: u64) {
        DiffIndexFile::size(self)
    }

    fn counter(&self) -> (r: u64) {
        DiffIndexFile::counter(self)
    }

    fn next_entry(&mut self) -> (r: Option<Result<IndexFileEntry, MirsError>>) {
        self.next()
    }
}

impl IndexFileEntryIterator for SumFile {
    open spec fn file_size(&self) -> u64 {
        self.length()
    }

    open spec fn read(&self) -> u64 {
        self.bytes_read()
    }

    open spec fn hands(self, after: Self, r: Option<Result<IndexFileEntry, MirsError>>) -> bool {
        self.gives(after, r)
    }

    fn size(&self) -> (r: u64) {
        SumFile::size(self)
    }

    fn counter(&self) -> (r: u64) {
        SumFile::counter(self)
    }

    fn next_entry(&mut self) -> (r: Option<Result<IndexFileEntry, MirsError>>) {
        self.next()
    }
}

/// A reader of an index of any kind.
pub enum IndexReader {
    Packages(PackagesFile),
    Sources(SourcesFile),
    DiffIndex(DiffIndexFile),
    SumFile(SumFile),
}

impl IndexReader {
    /// The kind of index that is read.
    pub open spec fn kind(&self) -> FileKind {
        match self {
            IndexReader::Packages(_) => FileKind::Packages,
            IndexReader::Sources(_) => FileKind::Sources,
            IndexReader::DiffIndex(_) => FileKind::DiffIndex,
            IndexReader::SumFile(_) => FileKind::SumFile,
        }
    }

    /// The path of the file that is read.
    pub open spec fn path(&self) -> Seq<char> {
        match self {
            IndexReader::Packages(r) => r.source().path,
            IndexReader::Sources(r) => r.source().path,
            IndexReader::DiffIndex(r) => r.source().path,
            IndexReader::SumFile(r) => r.source(),
        }
    }

    /// The lines of the index.
    pub open spec fn all_lines(&self) -> Seq<Seq<char>> {
        match self {
            IndexReader::Packages(r) => r.all_lines(),
            IndexReader::Sources(r) => r.all_lines(),
            IndexReader::DiffIndex(r) => r.all_lines(),
            IndexReader::SumFile(r) => r.all_lines(),
        }
    }

    /// Whether nothing of the index has been read yet.
    pub open spec fn fresh(&self) -> bool {
        match self {
            IndexReader::Packages(r) => r.position() == 0,
            IndexReader::Sources(r) => r.position() == 0 && r.buffered().len() == 0,
            IndexReader::DiffIndex(r) => r.unread() && r.table().len() == 0,
            IndexReader::SumFile(r) => r.position() == 0,
        }
    }

    /// The reader of the index `file` with the bytes `data`, by the kind of
    /// the index. A file that is no index has no reader.
    pub fn build(file: MetadataFile, data: Vec<u8>) -> (r: Result<IndexReader, MirsError>)
        ensures
            match r {
                Ok(reader) => reader.kind() == file@.kind && reader.path() == file@.path
                    && reader.fresh() && reader.file_size() == data@.len() && (reader_text(
                    data@,
                    file@.path,
                ) matches Ok(text) && reader.all_lines() == lines(text)),
                Err(e) => if file@.kind == FileKind::Other {
                    e matches MirsError::NonIndexFileBuild { path } && path@ == file@.path
                } else {
                    reader_text(data@, file@.path) matches Err(fault) && reports_reader(
                        e,
                        fault,
                        file@.path,
                    )
                },
            },
    {
        match file {
            MetadataFile::Packages(p) => match PackagesFile::build(MetadataFile::Packages(p), data) {
                Ok(reader) => Ok(IndexReader::Packages(reader)),
                Err(e) => Err(e),
            },
            MetadataFile::Sources(p) => match SourcesFile::build(MetadataFile::Sources(p), data) {
                Ok(reader) => Ok(IndexReader::Sources(reader)),
                Err(e) => Err(e),
            },
            MetadataFile::DiffIndex(p) => match DiffIndexFile::build(
                MetadataFile::DiffIndex(p),
                data,
            ) {
                Ok(reader) => Ok(IndexReader::DiffIndex(reader)),
                Err(e) => Err(e),
            },
            MetadataFile::SumFile(p) => match SumFile::build(&p, data) {
                Ok(reader) => Ok(IndexReader::SumFile(reader)),
                Err(e) => Err(e),
            },
            MetadataFile::Other(p) => Err(MirsError::NonIndexFileBuild { path: p.0 }),
        }
    }
}

impl IndexReader {
    /// How many lines of the index are still to be read. An index of diffs
    /// is read at once: it counts as one line until then.
    pub open spec fn lines_left(&self) -> nat {
        match self {
            IndexReader::Packages(r) => lines_after(r.all_lines(), r.position()),
            IndexReader::Sources(r) => lines_after(r.all_lines(), r.position()),
            IndexReader::DiffIndex(r) => if r.unread() {
                1
            } else {
                0
            },
            IndexReader::SumFile(r) => lines_after(r.all_lines(), r.position()),
        }
    }

    /// How many entries are read and not handed out yet.
    pub open spec fn held(&self) -> nat {
        match self {
            IndexReader::Sources(r) => r.buffered().len(),
            IndexReader::DiffIndex(r) => r.table().len(),
            _ => 0,
        }
    }

    /// Whether the steps of a walk that starts at this reader lead through
    /// `states` and give `entries`, one at each step.
    pub open spec fn runs(self, states: Seq<IndexReader>, entries: Seq<IndexFileEntry>) -> bool {
        &&& states.len() == entries.len() + 1
        &&& states[0] == self
        &&& forall|i: int|
            0 <= i < entries.len() ==> states[i].hands(states[i + 1], Some(Ok(#[trigger] entries[i])))
    }

    /// Walks the index to its end and gives its entries in the order of
    /// the walk. The first fault ends the walk and is returned.
    pub fn read_to_end(&mut self) -> (r: Result<Vec<IndexFileEntry>, MirsError>)
        ensures
            exists|states: Seq<IndexReader>, entries: Seq<IndexFileEntry>|
                {
                    &&& #[trigger] old(self).runs(states, entries)
                    &&& match r {
                        Ok(v) => v@ == entries && states.last().hands(*final(self), None),
                        Err(e) => states.last().hands(*final(self), Some(Err(e))),
                    }
                },
    {
        let mut out: Vec<IndexFileEntry> = Vec::new();
        let ghost mut states = seq![*self];
        loop
            invariant
                old(self).runs(states, out@),
                states.last() == *self,
            decreases self.lines_left(), self.held(),
        {
            let ghost before = *self;
            match self.next_entry() {
                None => {
                    assert(old(self).runs(states, out@) && states.last().hands(*self, None));
                    return Ok(out);
                },
                Some(Err(e)) => {
                    assert(old(self).runs(states, out@) && states.last().hands(*self, Some(Err(e))));
                    return Err(e);
                },
                Some(Ok(entry)) => {
                    let ghost listed = entry;
                    let ghost earlier = states;
                    let ghost given = out@;
                    out.push(entry);
                    proof {
                        lemma_step_shortens(before, *self, Some(Ok(listed)));
                        states = states.push(*self);
                        assert forall|i: int| 0 <= i < out@.len() implies states[i].hands(
                            states[i + 1],
                            Some(Ok(#[trigger] out@[i])),
                        ) by {
                            if i < given.len() {
                                assert(out@[i] == given[i]);
                                assert(states[i] == earlier[i] && states[i + 1] == earlier[i + 1]);
                            }
                        }
                    }
                },
            }
        }
    }
}

/// How many of the lines stand at or after the index `pos`.
pub open spec fn lines_after(all: Seq<Seq<char>>, pos: int) -> nat {
    if 0 <= pos <= all.len() {
        (all.len() - pos) as nat
    } else {
        0
    }
}

/// A step that gives something shortens the walk: fewer lines are left, or
/// as many lines and fewer entries that are held.
pub proof fn lemma_step_shortens(
    before: IndexReader,
    after: IndexReader,
    r: Option<Result<IndexFileEntry, MirsError>>,
)
    requires
        before.hands(after, r),
        r is Some,
    ensures
        after.lines_left() < before.lines_left() || (after.lines_left() == before.lines_left()
            && after.held() < before.held()),
{
}

impl IndexFileEntryIterator for IndexReader {
    open spec fn file_size(&self) -> u64 {
        match self {
            IndexReader::Packages(r) => r.length(),
            IndexReader::Sources(r) => r.length(),
            IndexReader::DiffIndex(r) => r.length(),
            IndexReader::SumFile(r) => r.length(),
        }
    }

    open spec fn read(&self) -> u64 {
        match self {
            IndexReader::Packages(r) => r.bytes_read(),
            IndexReader::Sources(r) => r.bytes_read(),
            IndexReader::DiffIndex(r) => r.bytes_read(),
            IndexReader::SumFile(r) => r.bytes_read(),
        }
    }

    open spec fn hands(self, after: Self, r: Option<Result<IndexFileEntry, MirsError>>) -> bool {
        match (self, after) {
            (IndexReader::Packages(a), IndexReader::Packages(b)) => a.gives(b, r),
            (IndexReader::Sources(a), IndexReader::Sources(b)) => a.gives(b, r),
            (IndexReader::DiffIndex(a), IndexReader::DiffIndex(b)) => a.gives(b, r),
            (IndexReader::SumFile(a), IndexReader::SumFile(b)) => a.gives(b, r),
            _ => false,
        }
    }

    fn size(&self) -> (r: u64) {
        match self {
            IndexReader::Packages(r) => PackagesFile::size(r),
            IndexReader::Sources(r) => SourcesFile::size(r),
            IndexReader::DiffIndex(r) => DiffIndexFile::size(r),
            IndexReader::SumFile(r) => SumFile::size(r),
        }
    }

    fn counter(&self) -> (r: u64) {
        match self {
            IndexReader::Packages(r) => PackagesFile::counter(r),
            IndexReader::Sources(r) => SourcesFile::counter(r),
            IndexReader::DiffIndex(r) => DiffIndexFile::counter(r),
            IndexReader::SumFile(r) => SumFile::counter(r),
        }
    }

    fn next_entry(&mut self) -> (r: Option<Result<IndexFileEntry, MirsError>>) {
        match self {
            IndexReader::Packages(r) => r.next(),
            IndexReader::Sources(r) => r.next(),
            IndexReader::DiffIndex(r) => r.next(),
            IndexReader::SumFile(r) => r.next(),
        }
    }
}

impl MetadataFile {
    /// The reader of this index with the bytes `data`.
    pub fn into_reader(self, data: Vec<u8>) -> (r: Result<IndexReader, MirsError>)
        ensures
            match r {
                Ok(reader) => reader.kind() == self@.kind && reader.path() == self@.path
                    && reader.fresh() && reader.file_size() == data@.len() && (reader_text(
                    data@,
                    self@.path,
                ) matches Ok(text) && reader.all_lines() == lines(text)),
                Err(e) => if self@.kind == FileKind::Other {
                    e matches MirsError::NonIndexFileBuild { path } && path@ == self@.path
                } else {
                    reader_text(data@, self@.path) matches Err(fault) && reports_reader(
                        e,
                        fault,
                        self@.path,
                    )
                },
            },
    {
        IndexReader::build(self, data)
    }
}

} // verus!
