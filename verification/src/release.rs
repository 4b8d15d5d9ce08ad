//! The signed manifest of a suite: its header fields and its table of files.

use crate::checksum::Checksum;
use crate::checksum::ChecksumType;
use crate::error::MirsError;
use crate::path::join_chars;
use crate::path::join_paths;
use crate::path::parent_of;
use crate::path::FilePath;
use crate::text::chars_of;
use crate::text::contains_char;
use crate::text::contains_char_exec;
use crate::text::lit;
use crate::number::parse_u64;
use crate::number::parse_u64_exec;
use crate::text::split_words;
use crate::text::string_of;
use crate::text::text_eq;
use crate::text::views;
use crate::text::words;
use crate::text::Blank;
use vstd::prelude::*;

verus! {

/// What the manifest says of one file: its size and the digests it lists.
#[derive(Debug, PartialEq, Copy, Clone)]
pub struct FileEntry {
    pub size: u64,
    pub md5: Option<[u8; 16]>,
    pub sha1: Option<[u8; 20]>,
    pub sha256: Option<[u8; 32]>,
    pub sha512: Option<[u8; 64]>,
}

/// A `FileEntry` as plain values.
pub struct EntryModel {
    pub size: u64,
    pub md5: Option<Seq<u8>>,
    pub sha1: Option<Seq<u8>>,
    pub sha256: Option<Seq<u8>>,
    pub sha512: Option<Seq<u8>>,
}

/// A checksum as plain values: its kind and its digest.
pub struct Digest {
    pub kind: ChecksumType,
    pub bytes: Seq<u8>,
}

impl View for Checksum {
    type V = Digest;

    open spec fn view(&self) -> Digest {
        Digest { kind: self.kind(), bytes: self.bytes() }
    }
}

impl View for FileEntry {
    type V = EntryModel;

    open spec fn view(&self) -> EntryModel {
        EntryModel {
            size: self.size,
            md5: match self.md5 {
                Some(d) => Some(d@),
                None => None,
            },
            sha1: match self.sha1 {
                Some(d) => Some(d@),
                None => None,
            },
            sha256: match self.sha256 {
                Some(d) => Some(d@),
                None => None,
            },
            sha512: match self.sha512 {
                Some(d) => Some(d@),
                None => None,
            },
        }
    }
}

impl EntryModel {
    /// An entry of the given size without any digest.
    pub open spec fn bare(size: u64) -> EntryModel {
        EntryModel { size, md5: None, sha1: None, sha256: None, sha512: None }
    }

    /// The digest of the given kind, if the entry lists one.
    pub open spec fn digest(self, kind: ChecksumType) -> Option<Seq<u8>> {
        match kind {
            ChecksumType::Md5 => self.md5,
            ChecksumType::Sha1 => self.sha1,
            ChecksumType::Sha256 => self.sha256,
            ChecksumType::Sha512 => self.sha512,
        }
    }

    /// The entry with `bytes` as its digest of the given kind.
    pub open spec fn with(self, kind: ChecksumType, bytes: Seq<u8>) -> EntryModel {
        match kind {
            ChecksumType::Md5 => EntryModel { md5: Some(bytes), ..self },
            ChecksumType::Sha1 => EntryModel { sha1: Some(bytes), ..self },
            ChecksumType::Sha256 => EntryModel { sha256: Some(bytes), ..self },
            ChecksumType::Sha512 => EntryModel { sha512: Some(bytes), ..self },
        }
    }

    /// Whether the entry lists a digest of some kind.
    pub open spec fn has_digest(self) -> bool {
        self.md5 is Some || self.sha1 is Some || self.sha256 is Some || self.sha512 is Some
    }

    /// The digest of the strongest kind that the entry lists.
    pub open spec fn strongest(self) -> Option<Digest> {
        if self.sha512 is Some {
            Some(Digest { kind: ChecksumType::Sha512, bytes: self.sha512->0 })
        } else if self.sha256 is Some {
            Some(Digest { kind: ChecksumType::Sha256, bytes: self.sha256->0 })
        } else if self.sha1 is Some {
            Some(Digest { kind: ChecksumType::Sha1, bytes: self.sha1->0 })
        } else if self.md5 is Some {
            Some(Digest { kind: ChecksumType::Md5, bytes: self.md5->0 })
        } else {
            None
        }
    }

    /// The digest in the slot of rank `pos`: 0 is SHA-512, 3 is MD5.
    pub open spec fn slot(self, pos: int) -> Option<Digest> {
        if pos == 0 && self.sha512 is Some {
            Some(Digest { kind: ChecksumType::Sha512, bytes: self.sha512->0 })
        } else if pos == 1 && self.sha256 is Some {
            Some(Digest { kind: ChecksumType::Sha256, bytes: self.sha256->0 })
        } else if pos == 2 && self.sha1 is Some {
            Some(Digest { kind: ChecksumType::Sha1, bytes: self.sha1->0 })
        } else if pos == 3 && self.md5 is Some {
            Some(Digest { kind: ChecksumType::Md5, bytes: self.md5->0 })
        } else {
            None
        }
    }

    /// The digests of the slots from `pos` on, strongest first.
    pub open spec fn digests_from(self, pos: int) -> Seq<Digest>
        decreases 4 - pos,
    {
        if pos < 0 || pos >= 4 {
            Seq::empty()
        } else {
            match self.slot(pos) {
                Some(d) => seq![d] + self.digests_from(pos + 1),
                None => self.digests_from(pos + 1),
            }
        }
    }

    /// The digests of the entry, strongest first.
    pub open spec fn digests(self) -> Seq<Digest> {
        self.digests_from(0)
    }
}

/// The strongest digest stands first among the digests of an entry, and an
/// entry has a strongest digest exactly where it lists any.
pub proof fn law_strongest_digest_comes_first(e: EntryModel)
    ensures
        e.strongest() is Some <==> e.has_digest(),
        e.strongest() is Some <==> e.digests().len() > 0,
        e.strongest() is Some ==> e.digests()[0] == e.strongest()->0,
{
    reveal_with_fuel(EntryModel::digests_from, 5);
}

/// An entry lists at most four digests.
pub proof fn lemma_digests_len(e: EntryModel)
    ensures
        e.digests().len() <= 4,
{
    reveal_with_fuel(EntryModel::digests_from, 5);
}

/// Where the file of `path` and the names that lead to it lie. Without
/// by-hash the file lies at `path` and nothing leads to it. With by-hash it
/// lies under the digest of its strongest kind beside `path`; `path` and the
/// places of its weaker digests lead to it. With by-hash an entry without a
/// digest has no place.
pub open spec fn entry_paths(e: EntryModel, path: Seq<char>, by_hash: bool) -> Option<
    (Seq<char>, Seq<Seq<char>>),
> {
    if !by_hash {
        Some((path, Seq::empty()))
    } else if e.digests().len() == 0 {
        None
    } else {
        Some((join_paths(hash_base(path), hash_path(e.digests()[0])), hash_links(e, path)))
    }
}

/// The directory beside which the by-hash places of `path` lie.
pub open spec fn hash_base(path: Seq<char>) -> Seq<char> {
    match parent_of(path) {
        Some(p) => p,
        None => Seq::empty(),
    }
}

/// The names that lead to a by-hash file: `path`, then the places of the
/// weaker digests, strongest first.
pub open spec fn hash_links(e: EntryModel, path: Seq<char>) -> Seq<Seq<char>> {
    seq![path] + Seq::new(
        (e.digests().len() - 1) as nat,
        |i: int| join_paths(hash_base(path), hash_path(e.digests()[i + 1])),
    )
}

/// Where a file with the digest lies under the directory of its index.
pub open spec fn hash_path(d: Digest) -> Seq<char> {
    "by-hash/"@ + d.kind.dir_name() + "/"@ + crate::hexcode::hex_encoded(d.bytes)
}

/// The views of a list of paths.
pub open spec fn paths(v: Seq<FilePath>) -> Seq<Seq<char>> {
    v.map_values(|p: FilePath| p@)
}

impl FileEntry {
    /// An entry of the given size without any digest.
    pub fn bare(size: u64) -> (r: FileEntry)
        ensures
            r@ == EntryModel::bare(size),
    {
        FileEntry { size, md5: None, sha1: None, sha256: None, sha512: None }
    }

    /// The digest of the strongest kind that the entry lists.
    pub fn strongest_hash(&self) -> (r: Option<Checksum>)
        ensures
            match r {
                Some(c) => self@.strongest() == Some(c@),
                None => self@.strongest() is None,
            },
    {
        if let Some(hash) = self.sha512 {
            Some(Checksum::Sha512(hash))
        } else if let Some(hash) = self.sha256 {
            Some(Checksum::Sha256(hash))
        } else if let Some(hash) = self.sha1 {
            Some(Checksum::Sha1(hash))
        } else if let Some(hash) = self.md5 {
            Some(Checksum::Md5(hash))
        } else {
            None
        }
    }

    /// Whether the entry lists this very digest under the kind of `checksum`.
    pub fn has_checksum(&self, checksum: &Checksum) -> (r: bool)
        ensures
            r == (self@.digest(checksum.kind()) == Some(checksum.bytes())),
    {
        match checksum {
            Checksum::Md5(hash) => match &self.md5 {
                Some(v) => crate::checksum::arrays_equal(v, hash),
                None => false,
            },
            Checksum::Sha1(hash) => match &self.sha1 {
                Some(v) => crate::checksum::arrays_equal(v, hash),
                None => false,
            },
            Checksum::Sha256(hash) => match &self.sha256 {
                Some(v) => crate::checksum::arrays_equal(v, hash),
                None => false,
            },
            Checksum::Sha512(hash) => match &self.sha512 {
                Some(v) => crate::checksum::arrays_equal(v, hash),
                None => false,
            },
        }
    }

    /// The entry with `checksum` in the slot of its kind.
    pub fn with_checksum(self, checksum: Checksum) -> (r: FileEntry)
        ensures
            r@ == self@.with(checksum.kind(), checksum.bytes()),
    {
        let mut r = self;
        match checksum {
            Checksum::Md5(v) => r.md5 = Some(v),
            Checksum::Sha1(v) => r.sha1 = Some(v),
            Checksum::Sha256(v) => r.sha256 = Some(v),
            Checksum::Sha512(v) => r.sha512 = Some(v),
        }
        r
    }

    /// The digests of the entry, strongest first.
    pub fn into_iter(self) -> (r: FileEntryChecksumIterator)
        ensures
            r.remaining() == self@.digests(),
    {
        FileEntryChecksumIterator::new(self)
    }

    /// The strongest checksum of the entry, where its file is to lie, and the
    /// names that are to lead to it. With by-hash an entry without a digest
    /// is an error.
    pub fn into_paths(self, file_path: &FilePath, by_hash: bool) -> (r: Result<
        (Option<Checksum>, FilePath, Vec<FilePath>),
        MirsError,
    >)
        ensures
            match r {
                Ok((strongest, primary, links)) => entry_paths(self@, file_path@, by_hash) == Some(
                    (primary@, paths(links@)),
                ) && match strongest {
                    Some(c) => self@.strongest() == Some(c@),
                    None => self@.strongest() is None,
                },
                Err(e) => entry_paths(self@, file_path@, by_hash) is None && e
                    == MirsError::NoReleaseFile,
            },
    {
        let strongest_checksum = self.strongest_hash();
        let mut symlink_paths: Vec<FilePath> = Vec::new();
        if !by_hash {
            let primary = FilePath(file_path.0.clone());
            assert(paths(symlink_paths@) =~= Seq::<Seq<char>>::empty());
            return Ok((strongest_checksum, primary, symlink_paths));
        }
        let base: Vec<char> = match file_path.parent() {
            Some(p) => chars_of(p),
            None => Vec::new(),
        };
        let mut checksum_iter = self.into_iter();
        let first = match checksum_iter.next() {
            Some(c) => c,
            None => {
                return Err(MirsError::NoReleaseFile);
            },
        };
        symlink_paths.push(FilePath(file_path.0.clone()));
        let ghost all = self@.digests();
        let ghost want = hash_links(self@, file_path@);
        let mut n: usize = 1;
        proof {
            lemma_digests_len(self@);
            assert(all.drop_first() =~= all.skip(1));
            assert(first@ == all[0]);
        }
        assert(paths(symlink_paths@) =~= want.take(1));
        loop
            invariant
                1 <= n <= all.len() <= 4,
                all == self@.digests(),
                all.len() > 0,
                by_hash,
                checksum_iter.remaining() == all.skip(n as int),
                want == hash_links(self@, file_path@),
                base@ == hash_base(file_path@),
                paths(symlink_paths@) == want.take(n as int),
            ensures
                paths(symlink_paths@) == want,
            decreases all.len() - n,
        {
            match checksum_iter.next() {
                Some(checksum) => {
                    assert(checksum@ == all[n as int]);
                    let rel = chars_of(checksum.relative_path().as_str());
                    let joined = join_chars(base.as_slice(), rel.as_slice());
                    let ghost before = paths(symlink_paths@);
                    symlink_paths.push(FilePath(string_of(joined.as_slice())));
                    assert(paths(symlink_paths@) =~= before.push(joined@));
                    assert(want.take(n + 1) =~= want.take(n as int).push(want[n as int]));
                    assert(all.skip(n as int).drop_first() =~= all.skip(n + 1));
                    n += 1;
                },
                None => {
                    assert(want.take(n as int) =~= want);
                    break ;
                },
            }
        }
        let rel = chars_of(first.relative_path().as_str());
        let joined = join_chars(base.as_slice(), rel.as_slice());
        Ok((strongest_checksum, FilePath(string_of(joined.as_slice())), symlink_paths))
    }
}

/// Walks the digests of an entry, strongest first.
pub struct FileEntryChecksumIterator {
    file_entry: FileEntry,
    pos: u8,
}

impl FileEntryChecksumIterator {
    /// The digests still to come.
    pub closed spec fn remaining(&self) -> Seq<Digest> {
        self.file_entry@.digests_from(self.pos as int)
    }

    pub fn new(file_entry: FileEntry) -> (r: Self)
        ensures
            r.remaining() == file_entry@.digests(),
    {
        Self { file_entry, pos: 0 }
    }

    /// The next digest, if one is left.
    pub fn next(&mut self) -> (r: Option<Checksum>)
        ensures
            match r {
                Some(c) => old(self).remaining().len() > 0 && c@ == old(self).remaining()[0]
                    && final(self).remaining() == old(self).remaining().drop_first(),
                None => old(self).remaining().len() == 0 && final(self).remaining().len() == 0,
            },
    {
        let mut i: u8 = self.pos;
        while i <= 3
            invariant
                self.file_entry == old(self).file_entry,
                old(self).pos <= i,
                old(self).remaining() == self.file_entry@.digests_from(i as int),
            decreases 4 - i,
        {
            let checksum = if i == 0 {
                match self.file_entry.sha512 {
                    Some(v) => Some(Checksum::Sha512(v)),
                    None => None,
                }
            } else if i == 1 {
                match self.file_entry.sha256 {
                    Some(v) => Some(Checksum::Sha256(v)),
                    None => None,
                }
            } else if i == 2 {
                match self.file_entry.sha1 {
                    Some(v) => Some(Checksum::Sha1(v)),
                    None => None,
                }
            } else {
                match self.file_entry.md5 {
                    Some(v) => Some(Checksum::Md5(v)),
                    None => None,
                }
            };
            match checksum {
                Some(c) => {
                    self.pos = i + 1;
                    assert(old(self).remaining().drop_first() =~= self.file_entry@.digests_from(
                        i + 1,
                    ));
                    return Some(c);
                },
                None => {},
            }
            i += 1;
        }
        self.pos = i;
        None
    }
}


/// What a line of the manifest is.
#[derive(Clone, Copy, Debug, PartialEq, Eq, Structural)]
pub enum LineKind {
    Md5Start,
    Sha1Start,
    Sha256Start,
    Sha512Start,
    FileEntry,
    Metadata,
    Unknown,
    PGPSignedMessageStart,
    PGPSignatureStart,
    PGPSignatureEnd,
}

/// What a line of the manifest is, once the blanks at its end are off: a
/// line that starts with a space lists a file, a label alone starts a
/// section or a frame of the signature, another line with a colon holds a
/// header field.
pub open spec fn line_kind(v: Seq<char>) -> LineKind {
    if v.len() > 0 && v[0] == ' ' {
        LineKind::FileEntry
    } else if v == "MD5Sum:"@ {
        LineKind::Md5Start
    } else if v == "SHA1:"@ {
        LineKind::Sha1Start
    } else if v == "SHA256:"@ {
        LineKind::Sha256Start
    } else if v == "SHA512:"@ {
        LineKind::Sha512Start
    } else if v == "-----BEGIN PGP SIGNED MESSAGE-----"@ {
        LineKind::PGPSignedMessageStart
    } else if v == "-----BEGIN PGP SIGNATURE-----"@ {
        LineKind::PGPSignatureStart
    } else if v == "-----END PGP SIGNATURE-----"@ {
        LineKind::PGPSignatureEnd
    } else if contains_char(v, ':') {
        LineKind::Metadata
    } else {
        LineKind::Unknown
    }
}

pub fn line_kind_exec(v: &[char]) -> (r: LineKind)
    ensures
        r == line_kind(v@),
{
    if v.len() > 0 && v[0] == ' ' {
        LineKind::FileEntry
    } else if text_eq(v, lit("MD5Sum:").as_slice()) {
        LineKind::Md5Start
    } else if text_eq(v, lit("SHA1:").as_slice()) {
        LineKind::Sha1Start
    } else if text_eq(v, lit("SHA256:").as_slice()) {
        LineKind::Sha256Start
    } else if text_eq(v, lit("SHA512:").as_slice()) {
        LineKind::Sha512Start
    } else if text_eq(v, lit("-----BEGIN PGP SIGNED MESSAGE-----").as_slice()) {
        LineKind::PGPSignedMessageStart
    } else if text_eq(v, lit("-----BEGIN PGP SIGNATURE-----").as_slice()) {
        LineKind::PGPSignatureStart
    } else if text_eq(v, lit("-----END PGP SIGNATURE-----").as_slice()) {
        LineKind::PGPSignatureEnd
    } else if contains_char_exec(v, ':') {
        LineKind::Metadata
    } else {
        LineKind::Unknown
    }
}

/// A line of the manifest; the lines that list a file or hold a header
/// field carry their text.
#[derive(Debug)]
pub enum Line {
    Md5Start,
    Sha1Start,
    Sha256Start,
    Sha512Start,
    FileEntry(String),
    Metadata(String),
    Unknown,
    PGPSignedMessageStart,
    PGPSignatureStart,
    PGPSignatureEnd,
}

impl Line {
    pub open spec fn kind(&self) -> LineKind {
        match self {
            Line::Md5Start => LineKind::Md5Start,
            Line::Sha1Start => LineKind::Sha1Start,
            Line::Sha256Start => LineKind::Sha256Start,
            Line::Sha512Start => LineKind::Sha512Start,
            Line::FileEntry(_) => LineKind::FileEntry,
            Line::Metadata(_) => LineKind::Metadata,
            Line::Unknown => LineKind::Unknown,
            Line::PGPSignedMessageStart => LineKind::PGPSignedMessageStart,
            Line::PGPSignatureStart => LineKind::PGPSignatureStart,
            Line::PGPSignatureEnd => LineKind::PGPSignatureEnd,
        }
    }

    /// The text that the line carries.
    pub open spec fn text(&self) -> Option<Seq<char>> {
        match self {
            Line::FileEntry(v) => Some(v@),
            Line::Metadata(v) => Some(v@),
            _ => None,
        }
    }

    /// The line that `value` is.
    pub fn from(value: &str) -> (r: Line)
        ensures
            r.kind() == line_kind(value@),
            r.text() == if line_kind(value@) == LineKind::FileEntry || line_kind(value@)
                == LineKind::Metadata {
                Some(value@)
            } else {
                None
            },
    {
        let chars = chars_of(value);
        match line_kind_exec(chars.as_slice()) {
            LineKind::Md5Start => Line::Md5Start,
            LineKind::Sha1Start => Line::Sha1Start,
            LineKind::Sha256Start => Line::Sha256Start,
            LineKind::Sha512Start => Line::Sha512Start,
            LineKind::FileEntry => Line::FileEntry(value.to_owned()),
            LineKind::Metadata => Line::Metadata(value.to_owned()),
            LineKind::Unknown => Line::Unknown,
            LineKind::PGPSignedMessageStart => Line::PGPSignedMessageStart,
            LineKind::PGPSignatureStart => Line::PGPSignatureStart,
            LineKind::PGPSignatureEnd => Line::PGPSignatureEnd,
        }
    }
}

/// Where in the manifest the reader stands: in the section of one kind of
/// digest, in a frame of the signature, or in none.
#[derive(Clone, Copy, Debug, PartialEq, Eq, Structural)]
pub enum ChecksumState {
    Sha1,
    Sha256,
    Sha512,
    Md5,
    PgpMessage,
    PgpSignature,
    Unknown,
    No,
}

impl ChecksumState {
    /// The kind of digest that the section lists.
    pub open spec fn hash_kind(self) -> Option<ChecksumType> {
        match self {
            ChecksumState::Sha1 => Some(ChecksumType::Sha1),
            ChecksumState::Sha256 => Some(ChecksumType::Sha256),
            ChecksumState::Sha512 => Some(ChecksumType::Sha512),
            ChecksumState::Md5 => Some(ChecksumType::Md5),
            _ => None,
        }
    }

    /// The section that a label starts.
    pub open spec fn of_label(value: Seq<char>) -> ChecksumState {
        if value == "MD5Sum:"@ {
            ChecksumState::Md5
        } else if value == "SHA1:"@ {
            ChecksumState::Sha1
        } else if value == "SHA256:"@ {
            ChecksumState::Sha256
        } else if value == "SHA512:"@ {
            ChecksumState::Sha512
        } else {
            ChecksumState::Unknown
        }
    }

    pub fn from(value: &str) -> (r: ChecksumState)
        ensures
            r == ChecksumState::of_label(value@),
    {
        let v = chars_of(value);
        if text_eq(v.as_slice(), lit("MD5Sum:").as_slice()) {
            ChecksumState::Md5
        } else if text_eq(v.as_slice(), lit("SHA1:").as_slice()) {
            ChecksumState::Sha1
        } else if text_eq(v.as_slice(), lit("SHA256:").as_slice()) {
            ChecksumState::Sha256
        } else if text_eq(v.as_slice(), lit("SHA512:").as_slice()) {
            ChecksumState::Sha512
        } else {
            ChecksumState::Unknown
        }
    }
}

/// The three fields of a line that lists a file.
pub struct LineFields {
    pub checksum: Seq<char>,
    pub size: u64,
    pub path: Seq<char>,
}

/// Why a manifest cannot be read.
pub enum ReleaseFault {
    /// The line is not of the form that its place asks for.
    Malformed(Seq<char>),
    /// The text is where a size should stand and is no number.
    BadSize(Seq<char>),
    /// A digest is not of the length and form of its section.
    BadDigest,
}

/// Whether `e` reports the fault `f`.
pub open spec fn reports(e: MirsError, f: ReleaseFault) -> bool {
    match f {
        ReleaseFault::Malformed(l) => e matches MirsError::ParsingRelease { line } && line@ == l,
        ReleaseFault::BadSize(s) => e matches MirsError::ParseInt { value } && value@ == s,
        ReleaseFault::BadDigest => e is Hex,
    }
}

/// The fields of a line that lists a file: its first three words are the
/// digest, the size in decimal, and the path.
pub open spec fn file_line(v: Seq<char>) -> Result<LineFields, ReleaseFault> {
    let w = words(v, Blank::Ascii);
    if w.len() < 3 {
        Err(ReleaseFault::Malformed(v))
    } else {
        match parse_u64(w[1]) {
            Some(size) => Ok(LineFields { checksum: w[0], size, path: w[2] }),
            None => Err(ReleaseFault::BadSize(w[1])),
        }
    }
}

/// A line that lists a file, taken apart.
#[derive(Debug)]
pub struct FileLine {
    pub path: String,
    pub size: u64,
    pub checksum: String,
}

impl View for FileLine {
    type V = LineFields;

    open spec fn view(&self) -> LineFields {
        LineFields { checksum: self.checksum@, size: self.size, path: self.path@ }
    }
}

impl FileLine {
    /// Takes a line that lists a file apart.
    pub fn parse(value: &str) -> (r: Result<FileLine, MirsError>)
        ensures
            match r {
                Ok(l) => file_line(value@) == Ok::<LineFields, ReleaseFault>(l@),
                Err(e) => match file_line(value@) {
                    Err(f) => reports(e, f),
                    Ok(_) => false,
                },
            },
    {
        let chars = chars_of(value);
        FileLine::parse_chars(chars.as_slice())
    }

    /// Takes a line that lists a file apart, given as characters.
    pub fn parse_chars(value: &[char]) -> (r: Result<FileLine, MirsError>)
        ensures
            match r {
                Ok(l) => file_line(value@) == Ok::<LineFields, ReleaseFault>(l@),
                Err(e) => match file_line(value@) {
                    Err(f) => reports(e, f),
                    Ok(_) => false,
                },
            },
    {
        let parts = split_words(value, Blank::Ascii);
        if parts.len() < 3 {
            return Err(MirsError::ParsingRelease { line: string_of(value) });
        }
        let size = match parse_u64_exec(parts[1]) {
            Some(n) => n,
            None => {
                return Err(MirsError::ParseInt { value: string_of(parts[1]) });
            },
        };
        Ok(FileLine { path: string_of(parts[2]), size, checksum: string_of(parts[0]) })
    }
}

} // verus!
