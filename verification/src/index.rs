//! The entries of an index: what a package index, a sum file or a diff index
//! lists, one entry at a time.

use crate::checksum::Checksum;
use crate::checksum::ChecksumType;
use crate::codec::create_reader;
use crate::codec::reader_text;
use crate::codec::reports_reader;
use crate::error::MirsError;
use crate::hexcode::hex_decoded;
use crate::manifest::digest_fits;
use crate::metadata_file::FileKind;
use crate::metadata_file::FileModel;
use crate::metadata_file::MetadataFile;
use crate::path::FilePath;
use crate::release::Digest;
use crate::text::byte_len;
use crate::text::byte_len_within;
use crate::text::char_lists;
use crate::text::chars_of;
use crate::text::chomp;
use crate::text::chomp_exec;
use crate::text::lines;
use crate::text::lit;
use crate::number::parse_u64;
use crate::number::parse_u64_exec;
use crate::text::split_lines;
use crate::text::string_of;
use crate::text::strip_prefix;
use crate::text::strip_prefix_exec;
use crate::text::to_vec;
use crate::text::views;
use vstd::prelude::*;

verus! {

/// One file that an index lists.
#[derive(Debug)]
pub struct IndexFileEntry {
    pub path: String,
    pub size: Option<u64>,
    pub checksum: Option<Checksum>,
}

/// An `IndexFileEntry` as plain values.
pub struct IndexEntryModel {
    pub path: Seq<char>,
    pub size: Option<u64>,
    pub checksum: Option<Digest>,
}

impl View for IndexFileEntry {
    type V = IndexEntryModel;

    open spec fn view(&self) -> IndexEntryModel {
        IndexEntryModel {
            path: self.path@,
            size: self.size,
            checksum: match self.checksum {
                Some(c) => Some(c@),
                None => None,
            },
        }
    }
}

/// Why an index cannot be read further.
pub enum IndexFault {
    /// A size is no number.
    BadSize(Seq<char>),
    /// A digest is not of the length and form that its field asks for.
    BadDigest,
    /// A text is where a checksum should stand and is none.
    BadChecksum(Seq<char>),
    /// A record lacks what it must have.
    Malformed,
    /// A line of a sum file is not a checksum and a path.
    BadSumEntry(Seq<char>),
}

/// The lines of a text as lists of characters.
pub fn owned_lines(text: &[char]) -> (r: Vec<Vec<char>>)
    ensures
        char_lists(r@) == lines(text@),
{
    let all = split_lines(text);
    let mut out: Vec<Vec<char>> = Vec::new();
    let mut i: usize = 0;
    assert(char_lists(out@) =~= views(all@).take(0));
    while i < all.len()
        invariant
            i <= all.len(),
            views(all@) == lines(text@),
            char_lists(out@) == views(all@).take(i as int),
        decreases all.len() - i,
    {
        let ghost before = char_lists(out@);
        let line = to_vec(all[i]);
        out.push(line);
        assert(char_lists(out@) =~= before.push(all@[i as int]@));
        assert(views(all@).take(i + 1) =~= views(all@).take(i as int).push(all@[i as int]@));
        i += 1;
    }
    assert(views(all@).take(all@.len() as int) =~= views(all@));
    out
}

/// How many bytes a line takes in UTF-8, as far as a machine word counts.
pub open spec fn line_bytes(line: Seq<char>) -> u64 {
    if byte_len(line) <= usize::MAX {
        byte_len(line) as u64
    } else {
        u64::MAX
    }
}

/// How many bytes of text stand before each of the first `n` lines, and
/// before the end of the `n`-th: one number more than lines. A number stops
/// at the largest.
pub open spec fn offsets_of(all: Seq<Seq<char>>, n: int) -> Seq<u64>
    decreases n,
{
    if n <= 0 || n > all.len() {
        seq![0u64]
    } else {
        offsets_of(all, n - 1).push(
            offsets_of(all, n - 1).last().saturating_add(line_bytes(all[n - 1])),
        )
    }
}

/// The share of `size` that `done` makes of `all`: all of it where nothing
/// is left to do.
pub open spec fn share_of(size: u64, done: u64, all: u64) -> u64 {
    if all == 0 || done >= all {
        size
    } else {
        (size as int * done as int / all as int) as u64
    }
}

/// How many bytes of a file of `size` bytes have been read once the reading
/// stands at line `pos`: the share of the size that the text before that
/// line makes of the whole text. For a file that is not compressed that is
/// the number of its bytes before the line.
pub open spec fn read_so_far(size: u64, offsets: Seq<u64>, pos: int) -> u64 {
    if offsets.len() == 0 {
        size
    } else if 0 <= pos < offsets.len() {
        share_of(size, offsets[pos], offsets.last())
    } else {
        size
    }
}

pub proof fn lemma_offsets(all: Seq<Seq<char>>, n: int)
    requires
        0 <= n <= all.len(),
    ensures
        offsets_of(all, n).len() == n + 1,
        offsets_of(all, n)[0] == 0,
        forall|i: int, j: int|
            0 <= i <= j <= n ==> #[trigger] offsets_of(all, n)[i] <= #[trigger] offsets_of(all, n)[j],
        forall|i: int| 0 <= i <= n - 1 ==> #[trigger] offsets_of(all, n)[i] == offsets_of(all, n - 1)[i],
    decreases n,
{
    if n > 0 {
        lemma_offsets(all, n - 1);
    }
}

pub proof fn lemma_share_of(size: u64, a: u64, b: u64, all: u64)
    requires
        a <= b,
    ensures
        share_of(size, a, all) <= share_of(size, b, all) <= size,
        all > 0 ==> share_of(size, 0, all) == 0,
{
    if all > 0 && b < all {
        let s = size as int;
        let x = a as int;
        let y = b as int;
        let t = all as int;
        assert(0 <= s * x / t <= s * y / t <= s) by (nonlinear_arith)
            requires
                0 <= s,
                0 <= x <= y < t,
        ;
    } else if all > 0 && a < all {
        let s = size as int;
        let x = a as int;
        let t = all as int;
        assert(0 <= s * x / t <= s) by (nonlinear_arith)
            requires
                0 <= s,
                0 <= x < t,
        ;
    }
    if all > 0 {
        assert(size as int * 0 / all as int == 0) by (nonlinear_arith)
            requires
                all > 0,
        ;
    }
}

/// The count of bytes read is live: it starts at nothing where the file
/// holds text, never goes back as the reading goes on, never passes the
/// size of the file, and stands at the size once every line is read.
pub proof fn law_count_is_live(size: u64, all: Seq<Seq<char>>, a: int, b: int)
    requires
        0 <= a <= b,
    ensures
        ({
            let offsets = offsets_of(all, all.len() as int);
            &&& read_so_far(size, offsets, a) <= read_so_far(size, offsets, b) <= size
            &&& offsets.last() > 0 ==> read_so_far(size, offsets, 0) == 0
            &&& b >= all.len() ==> read_so_far(size, offsets, b) == size
        }),
{
    let n = all.len() as int;
    let offsets = offsets_of(all, n);
    lemma_offsets(all, n);
    if b <= n {
        assert(offsets[a] <= offsets[b]);
        assert(offsets[b] <= offsets[n]);
        lemma_share_of(size, offsets[a], offsets[b], offsets.last());
    } else if a <= n {
        assert(offsets[a] <= offsets[n]);
        lemma_share_of(size, offsets[a], offsets[n], offsets.last());
    }
    lemma_share_of(size, 0, 0, offsets.last());
}

/// How many bytes of text stand before each line of a text, and before its
/// end.
pub fn offsets_exec(all: &Vec<Vec<char>>) -> (r: Vec<u64>)
    ensures
        r@ == offsets_of(char_lists(all@), all@.len() as int),
{
    let mut out: Vec<u64> = Vec::new();
    out.push(0);
    let mut i: usize = 0;
    let mut total: u64 = 0;
    assert(out@ =~= offsets_of(char_lists(all@), 0));
    while i < all.len()
        invariant
            i <= all.len(),
            out@ == offsets_of(char_lists(all@), i as int),
            total == out@.last(),
        decreases all.len() - i,
    {
        let n: u64 = match byte_len_within(all[i].as_slice(), usize::MAX) {
            Some(n) => n as u64,
            None => u64::MAX,
        };
        total = total.saturating_add(n);
        out.push(total);
        i += 1;
    }
    out
}

/// How many bytes of text stand before each line of `text`, and before its
/// end.
pub fn text_offsets(text: &[char]) -> (r: Vec<u64>)
    ensures
        r@ == offsets_of(lines(text@), lines(text@).len() as int),
{
    let all = owned_lines(text);
    offsets_exec(&all)
}

/// How many bytes of a file of `size` bytes have been read once the reading
/// stands at line `pos`.
pub fn read_so_far_exec(size: u64, offsets: &Vec<u64>, pos: usize) -> (r: u64)
    ensures
        r == read_so_far(size, offsets@, pos as int),
{
    if offsets.len() == 0 || pos >= offsets.len() {
        return size;
    }
    let done = offsets[pos];
    let all = offsets[offsets.len() - 1];
    if all == 0 || done >= all {
        return size;
    }
    proof {
        let s = size as int;
        let x = done as int;
        let t = all as int;
        assert(0 <= s * x / t <= s && 0 <= s * x <= 0xffff_ffff_ffff_ffff
            * 0xffff_ffff_ffff_ffff) by (nonlinear_arith)
            requires
                0 <= s <= 0xffff_ffff_ffff_ffff,
                0 <= x < t,
                t <= 0xffff_ffff_ffff_ffff,
        ;
        assert(0xffff_ffff_ffff_ffff * 0xffff_ffff_ffff_ffff <= u128::MAX) by (nonlinear_arith);
    }
    let share: u128 = (size as u128) * (done as u128) / (all as u128);
    share as u64
}

/// Whether a line ends a record: it takes one byte, as a line feed alone
/// does.
pub open spec fn ends_record(raw: Seq<char>) -> bool {
    raw.len() == 1 && (raw[0] as u32) < 0x80
}

/// The first index at or after `i` whose line ends a record, or the length.
pub open spec fn record_end(all: Seq<Seq<char>>, i: int) -> int
    decreases all.len() - i,
{
    if 0 <= i < all.len() && !ends_record(all[i]) {
        record_end(all, i + 1)
    } else {
        i
    }
}

pub fn record_end_exec(all: &Vec<Vec<char>>, i: usize) -> (r: usize)
    requires
        i <= all@.len(),
    ensures
        r == record_end(char_lists(all@), i as int),
        i <= r <= all@.len(),
{
    let mut j: usize = i;
    while j < all.len() && !(all[j].len() == 1 && (all[j][0] as u32) < 0x80)
        invariant
            i <= j <= all@.len(),
            record_end(char_lists(all@), i as int) == record_end(char_lists(all@), j as int),
        decreases all.len() - j,
    {
        j += 1;
    }
    j
}

/// What the fields of a package record have given so far.
pub struct Fields {
    pub path: Option<Seq<char>>,
    pub size: Option<u64>,
    pub hash: Option<Digest>,
}

/// The kind and the text of the digest that a line of a package record
/// holds, if it holds one.
pub open spec fn hash_field(line: Seq<char>) -> Option<HashField> {
    if strip_prefix(line, "MD5Sum: "@) is Some {
        Some(HashField { kind: ChecksumType::Md5, text: strip_prefix(line, "MD5Sum: "@)->0 })
    } else if strip_prefix(line, "SHA1: "@) is Some {
        Some(HashField { kind: ChecksumType::Sha1, text: strip_prefix(line, "SHA1: "@)->0 })
    } else if strip_prefix(line, "SHA256: "@) is Some {
        Some(HashField { kind: ChecksumType::Sha256, text: strip_prefix(line, "SHA256: "@)->0 })
    } else if strip_prefix(line, "SHA512: "@) is Some {
        Some(HashField { kind: ChecksumType::Sha512, text: strip_prefix(line, "SHA512: "@)->0 })
    } else {
        None
    }
}

/// A digest as a line of a record holds it: its kind and its text.
pub struct HashField {
    pub kind: ChecksumType,
    pub text: Seq<char>,
}

/// Whether a digest of the given kind displaces the one held: none is held,
/// or the kind is the stronger one.
pub open spec fn displaces_hash(held: Option<Digest>, kind: ChecksumType) -> bool {
    match held {
        Some(d) => d.kind.strength() < kind.strength(),
        None => true,
    }
}

/// The fields after one more line of a package record: `Filename` gives the
/// path, `Size` the size, and of the digests the strongest is kept.
pub open spec fn field_applied(fs: Fields, line: Seq<char>) -> Result<Fields, IndexFault> {
    if strip_prefix(line, "Filename: "@) is Some {
        Ok(Fields { path: strip_prefix(line, "Filename: "@), ..fs })
    } else if strip_prefix(line, "Size: "@) is Some {
        match parse_u64(strip_prefix(line, "Size: "@)->0) {
            Some(n) => Ok(Fields { size: Some(n), ..fs }),
            None => Err(IndexFault::BadSize(strip_prefix(line, "Size: "@)->0)),
        }
    } else {
        match hash_field(line) {
            Some(h) => if displaces_hash(fs.hash, h.kind) {
                if digest_fits(h.kind, h.text) {
                    Ok(
                        Fields {
                            hash: Some(Digest { kind: h.kind, bytes: hex_decoded(h.text) }),
                            ..fs
                        },
                    )
                } else {
                    Err(IndexFault::BadDigest)
                }
            } else {
                Ok(fs)
            },
            None => Ok(fs),
        }
    }
}

pub open spec fn no_fields() -> Fields {
    Fields { path: None, size: None, hash: None }
}

/// The fields after the `n` lines from index `from` on, each without its
/// line ending; the first fault ends the reading.
pub open spec fn fields_after(all: Seq<Seq<char>>, from: int, n: int) -> Result<Fields, IndexFault>
    decreases n,
{
    if n <= 0 || from < 0 || from + n > all.len() {
        Ok(no_fields())
    } else {
        match fields_after(all, from, n - 1) {
            Ok(fs) => field_applied(fs, chomp(all[from + n - 1])),
            Err(e) => Err(e),
        }
    }
}

/// What a package index gives next, from line `pos` on, and the line at
/// which the reading goes on. The lines up to the one that ends the record
/// are read; without such a line the index is at its end. A record without
/// path or size ends the walk.
pub open spec fn packages_next(all: Seq<Seq<char>>, pos: int) -> (
    Option<Result<IndexEntryModel, IndexFault>>,
    int,
) {
    let end = record_end(all, pos);
    if pos < 0 || end < pos || end >= all.len() {
        (None, all.len() as int)
    } else {
        match fields_after(all, pos, end + 1 - pos) {
            Err(e) => (Some(Err(e)), end + 1),
            Ok(fs) => if fs.path is Some && fs.size is Some {
                (
                    Some(
                        Ok(IndexEntryModel { path: fs.path->0, size: fs.size, checksum: fs.hash }),
                    ),
                    end + 1,
                )
            } else {
                (None, end + 1)
            },
        }
    }
}

/// Whether `e`, raised while the index at `path` was read, reports `f`.
pub open spec fn reports_index(e: MirsError, f: IndexFault, path: Seq<char>, kind: FileKind) -> bool {
    match f {
        IndexFault::BadSize(s) => match kind {
            FileKind::Packages => e matches MirsError::ParsingPackages { path: p } && p@ == path,
            FileKind::DiffIndex => e matches MirsError::ParsingDiffIndex { path: p } && p@ == path,
            _ => e matches MirsError::ParseInt { value } && value@ == s,
        },
        IndexFault::BadDigest => e is Hex,
        IndexFault::BadChecksum(t) => match kind {
            FileKind::DiffIndex => e matches MirsError::ParsingDiffIndex { path: p } && p@ == path,
            _ => e is Hex || (e matches MirsError::IntoChecksum { value } && value@ == t),
        },
        IndexFault::Malformed => match kind {
            FileKind::DiffIndex => e matches MirsError::ParsingDiffIndex { path: p } && p@ == path,
            _ => e matches MirsError::ParsingSources { path: p } && p@ == path,
        },
        IndexFault::BadSumEntry(l) => e matches MirsError::InvalidSumEntry { line } && line@ == l,
    }
}

/// What the fields of a package record have given so far, while it is read.
struct FieldsBuf {
    path: Option<Vec<char>>,
    size: Option<u64>,
    hash: Option<Checksum>,
}

impl View for FieldsBuf {
    type V = Fields;

    closed spec fn view(&self) -> Fields {
        Fields {
            path: match self.path {
                Some(p) => Some(p@),
                None => None,
            },
            size: self.size,
            hash: match self.hash {
                Some(c) => Some(c@),
                None => None,
            },
        }
    }
}

/// The digest of a line of a package record, where the line holds one that
/// displaces the digest held.
fn read_hash_field(held: &Option<Checksum>, line: &[char]) -> (r: Result<Option<Checksum>, MirsError>)
    ensures
        match r {
            Ok(Some(c)) => hash_field(line@) is Some && displaces_hash(
                match *held {
                    Some(h) => Some(h@),
                    None => None,
                },
                hash_field(line@)->0.kind,
            ) && digest_fits(hash_field(line@)->0.kind, hash_field(line@)->0.text) && c@ == (Digest {
                kind: hash_field(line@)->0.kind,
                bytes: hex_decoded(hash_field(line@)->0.text),
            }),
            Ok(None) => hash_field(line@) is None || !displaces_hash(
                match *held {
                    Some(h) => Some(h@),
                    None => None,
                },
                hash_field(line@)->0.kind,
            ),
            Err(e) => hash_field(line@) is Some && displaces_hash(
                match *held {
                    Some(h) => Some(h@),
                    None => None,
                },
                hash_field(line@)->0.kind,
            ) && !digest_fits(hash_field(line@)->0.kind, hash_field(line@)->0.text) && e is Hex,
        },
{
    let (kind, text) = if let Some(t) = strip_prefix_exec(line, lit("MD5Sum: ").as_slice()) {
        (ChecksumType::Md5, t)
    } else if let Some(t) = strip_prefix_exec(line, lit("SHA1: ").as_slice()) {
        (ChecksumType::Sha1, t)
    } else if let Some(t) = strip_prefix_exec(line, lit("SHA256: ").as_slice()) {
        (ChecksumType::Sha256, t)
    } else if let Some(t) = strip_prefix_exec(line, lit("SHA512: ").as_slice()) {
        (ChecksumType::Sha512, t)
    } else {
        return Ok(None);
    };
    if !ChecksumType::is_stronger(held, kind) {
        return Ok(None);
    }
    match crate::manifest::decode_digest(kind, text) {
        Ok(c) => Ok(Some(c)),
        Err(e) => Err(e),
    }
}


/// Reads one line of a package record into the fields.
fn apply_field(fs: &mut FieldsBuf, line: &[char], path: &FilePath) -> (r: Result<(), MirsError>)
    ensures
        match r {
            Ok(()) => field_applied(old(fs)@, line@) == Ok::<Fields, IndexFault>(final(fs)@),
            Err(e) => match field_applied(old(fs)@, line@) {
                Err(f) => reports_index(e, f, path@, FileKind::Packages),
                Ok(_) => false,
            },
        },
{
    if let Some(rest) = strip_prefix_exec(line, lit("Filename: ").as_slice()) {
        fs.path = Some(to_vec(rest));
        return Ok(());
    }
    if let Some(rest) = strip_prefix_exec(line, lit("Size: ").as_slice()) {
        match parse_u64_exec(rest) {
            Some(n) => {
                fs.size = Some(n);
                return Ok(());
            },
            None => {
                return Err(MirsError::ParsingPackages { path: path.0.clone() });
            },
        }
    }
    match read_hash_field(&fs.hash, line) {
        Ok(Some(c)) => {
            fs.hash = Some(c);
            Ok(())
        },
        Ok(None) => Ok(()),
        Err(e) => Err(e),
    }
}

pub proof fn lemma_fields_fault_stays(all: Seq<Seq<char>>, from: int, m: int, n: int)
    requires
        0 <= from,
        0 <= m <= n,
        from + n <= all.len(),
        fields_after(all, from, m) is Err,
    ensures
        fields_after(all, from, n) == fields_after(all, from, m),
    decreases n - m,
{
    if m < n {
        lemma_fields_fault_stays(all, from, m, n - 1);
    }
}

/// Reads the package record in the lines from `pos` to `end`.
fn read_record(all: &Vec<Vec<char>>, pos: usize, end: usize, path: &FilePath) -> (r: Result<
    Option<IndexFileEntry>,
    MirsError,
>)
    requires
        pos <= end < all@.len(),
    ensures
        match r {
            Ok(Some(entry)) => fields_after(char_lists(all@), pos as int, end + 1 - pos) matches Ok(
                fs,
            ) && fs.path is Some && fs.size is Some && entry@ == (IndexEntryModel {
                path: fs.path->0,
                size: fs.size,
                checksum: fs.hash,
            }),
            Ok(None) => fields_after(char_lists(all@), pos as int, end + 1 - pos) matches Ok(fs)
                && !(fs.path is Some && fs.size is Some),
            Err(e) => match fields_after(char_lists(all@), pos as int, end + 1 - pos) {
                Err(f) => reports_index(e, f, path@, FileKind::Packages),
                Ok(_) => false,
            },
        },
{
    let mut fs = FieldsBuf { path: None, size: None, hash: None };
    let mut k: usize = pos;
    let total: usize = all.len();
    while k <= end
        invariant
            pos <= k <= end + 1,
            end < total,
            total == all@.len(),
            fields_after(char_lists(all@), pos as int, k - pos) == Ok::<Fields, IndexFault>(fs@),
        decreases end + 1 - k,
    {
        let line = chomp_exec(all[k].as_slice());
        match apply_field(&mut fs, line, path) {
            Ok(()) => {},
            Err(e) => {
                proof {
                    lemma_fields_fault_stays(
                        char_lists(all@),
                        pos as int,
                        k + 1 - pos,
                        end + 1 - pos,
                    );
                }
                return Err(e);
            },
        }
        k += 1;
    }
    match (fs.path, fs.size) {
        (Some(p), Some(s)) => Ok(
            Some(
                IndexFileEntry {
                    path: string_of(p.as_slice()),
                    size: Some(s),
                    checksum: fs.hash,
                },
            ),
        ),
        _ => Ok(None),
    }
}

/// Walks the records of a package index.
pub struct PackagesFile {
    lines: Vec<Vec<char>>,
    offsets: Vec<u64>,
    pos: usize,
    file: MetadataFile,
    size: u64,
}

impl PackagesFile {
    /// The lines of the index.
    pub closed spec fn all_lines(&self) -> Seq<Seq<char>> {
        char_lists(self.lines@)
    }

    /// The line at which the reading goes on.
    pub closed spec fn position(&self) -> int {
        self.pos as int
    }

    /// The file that is read.
    pub closed spec fn source(&self) -> FileModel {
        self.file@
    }

    /// How many bytes of text stand before each line, and before the end.
    pub closed spec fn offsets(&self) -> Seq<u64> {
        self.offsets@
    }

    /// How many bytes of the file have been read: the share of its size
    /// that the text read so far makes of its whole text.
    pub open spec fn bytes_read(&self) -> u64 {
        read_so_far(self.length(), self.offsets(), self.position())
    }

    /// The size of the file in bytes, as it lies on disk.
    pub closed spec fn length(&self) -> u64 {
        self.size
    }

    /// A reader of the index file `meta_file` with the bytes `data`.
    pub fn build(meta_file: MetadataFile, data: Vec<u8>) -> (r: Result<PackagesFile, MirsError>)
        ensures
            match r {
                Ok(reader) => reader_text(data@, meta_file@.path) matches Ok(text)
                    && reader.all_lines() == lines(text) && reader.offsets() == offsets_of(
                    lines(text),
                    lines(text).len() as int,
                ) && reader.position() == 0
                    && reader.source() == meta_file@ && reader.length() == data@.len(),
                Err(e) => reader_text(data@, meta_file@.path) matches Err(fault) && reports_reader(
                    e,
                    fault,
                    meta_file@.path,
                ),
            },
    {
        match create_reader(data, meta_file.path()) {
            Ok((text, size)) => Ok(
                PackagesFile {
                    lines: owned_lines(text.as_slice()),
                    offsets: text_offsets(text.as_slice()),
                    pos: 0,
                    file: meta_file,
                    size,
                },
            ),
            Err(e) => Err(e),
        }
    }

    /// A reader of the index file `meta_file` whose text is `text`.
    pub fn from_text(meta_file: MetadataFile, text: &str, size: u64) -> (r: PackagesFile)
        ensures
            r.all_lines() == lines(text@),
            r.offsets() == offsets_of(lines(text@), lines(text@).len() as int),
            r.position() == 0,
            r.source() == meta_file@,
            r.length() == size,
    {
        let chars = chars_of(text);
        PackagesFile {
            lines: owned_lines(chars.as_slice()),
            offsets: text_offsets(chars.as_slice()),
            pos: 0,
            file: meta_file,
            size,
        }
    }

    pub fn size(&self) -> (r: u64)
        ensures
            r == self.length(),
    {
        self.size
    }

    /// How many bytes of the file have been read so far.
    pub fn counter(&self) -> (r: u64)
        ensures
            r == self.bytes_read(),
    {
        read_so_far_exec(self.size, &self.offsets, self.pos)
    }

    pub fn file(&self) -> (r: &MetadataFile)
        ensures
            r@ == self.source(),
    {
        &self.file
    }

    /// Whether a step of the walk leads from this reader to `after` and
    /// gives `r`: the reader goes on to the line after the record that it
    /// read, and gives what the record holds.
    pub open spec fn gives(
        self,
        after: PackagesFile,
        r: Option<Result<IndexFileEntry, MirsError>>,
    ) -> bool {
        &&& after.all_lines() == self.all_lines()
        &&& after.offsets() == self.offsets()
        &&& after.source() == self.source()
        &&& after.length() == self.length()
        &&& after.position() == packages_next(self.all_lines(), self.position()).1
        &&& match r {
            Some(Ok(entry)) => packages_next(self.all_lines(), self.position()).0 == Some(
                Ok::<IndexEntryModel, IndexFault>(entry@),
            ),
            Some(Err(e)) => packages_next(self.all_lines(), self.position()).0 matches Some(
                Err(f),
            ) && reports_index(e, f, self.source().path, FileKind::Packages),
            None => packages_next(self.all_lines(), self.position()).0 is None,
        }
    }

    /// The next entry of the index. `None` ends the walk.
    pub fn next(&mut self) -> (r: Option<Result<IndexFileEntry, MirsError>>)
        ensures
            old(self).gives(*final(self), r),
    {
        let total = self.lines.len();
        if self.pos > total {
            self.pos = total;
            return None;
        }
        let end = record_end_exec(&self.lines, self.pos);
        if end >= total {
            self.pos = total;
            return None;
        }
        let found = read_record(&self.lines, self.pos, end, self.file.path());
        self.pos = end + 1;
        match found {
            Ok(Some(entry)) => Some(Ok(entry)),
            Ok(None) => None,
            Err(e) => Some(Err(e)),
        }
    }
}

/// Walks the records of a package index and gives each as path, size and
/// checksum.
pub struct Package {
    inner: PackagesFile,
}

impl Package {
    /// The reader that does the walking.
    pub closed spec fn reader(&self) -> PackagesFile {
        self.inner
    }

    /// A reader of the package index at `path` with the bytes `data`.
    pub fn build(path: &FilePath, data: Vec<u8>) -> (r: Result<Package, MirsError>)
        ensures
            match r {
                Ok(p) => reader_text(data@, path@) matches Ok(text) && p.reader().all_lines()
                    == lines(text) && p.reader().offsets() == offsets_of(
                    lines(text),
                    lines(text).len() as int,
                ) && p.reader().position() == 0 && p.reader().length()
                    == data@.len() && p.reader().source() == (FileModel {
                    kind: FileKind::Packages,
                    path: path@,
                }),
                Err(e) => reader_text(data@, path@) matches Err(fault) && reports_reader(
                    e,
                    fault,
                    path@,
                ),
            },
    {
        match PackagesFile::build(MetadataFile::Packages(FilePath(path.0.clone())), data) {
            Ok(inner) => Ok(Package { inner }),
            Err(e) => Err(e),
        }
    }

    pub fn size(&self) -> (r: u64)
        ensures
            r == self.reader().length(),
    {
        self.inner.size()
    }

    /// How many bytes of the file have been read so far.
    pub fn counter(&self) -> (r: u64)
        ensures
            r == self.reader().bytes_read(),
    {
        self.inner.counter()
    }

    /// The next record of the index, as path, size and checksum.
    pub fn next(&mut self) -> (r: Option<Result<(String, u64, Option<Checksum>), MirsError>>)
        ensures
            final(self).reader().all_lines() == old(self).reader().all_lines(),
            final(self).reader().offsets() == old(self).reader().offsets(),
            final(self).reader().source() == old(self).reader().source(),
            final(self).reader().position() == packages_next(
                old(self).reader().all_lines(),
                old(self).reader().position(),
            ).1,
            match r {
                Some(Ok((path, size, checksum))) => packages_next(
                    old(self).reader().all_lines(),
                    old(self).reader().position(),
                ).0 == Some(
                    Ok::<IndexEntryModel, IndexFault>(
                        IndexEntryModel {
                            path: path@,
                            size: Some(size),
                            checksum: match checksum {
                                Some(c) => Some(c@),
                                None => None,
                            },
                        },
                    ),
                ),
                Some(Err(e)) => packages_next(
                    old(self).reader().all_lines(),
                    old(self).reader().position(),
                ).0 matches Some(Err(f)) && reports_index(
                    e,
                    f,
                    old(self).reader().source().path,
                    FileKind::Packages,
                ),
                None => packages_next(
                    old(self).reader().all_lines(),
                    old(self).reader().position(),
                ).0 is None,
            },
    {
        match self.inner.next() {
            Some(Ok(entry)) => match entry.size {
                Some(size) => Some(Ok((entry.path, size, entry.checksum))),
                None => None,
            },
            Some(Err(e)) => Some(Err(e)),
            None => None,
        }
    }
}

} // verus!
