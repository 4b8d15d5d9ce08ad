//! Reading the manifest of a suite, line by line.

use crate::checksum::Checksum;
use crate::checksum::ChecksumType;
use crate::config::MirrorOpts;
use crate::error::MirsError;
use crate::filter::accepts;
use crate::filter::filter_of;
use crate::filter::FilterModel;
use crate::filter::ReleaseFileFilter;
use crate::hexcode::all_hex;
use crate::hexcode::decode_hex;
use crate::hexcode::hex_decoded;
use crate::metadata_file::kind_of_path;
use crate::metadata_file::FileModel;
use crate::metadata_file::MetadataFile;
use crate::release::file_line;
use crate::release::line_kind;
use crate::release::line_kind_exec;
use crate::release::reports;
use crate::release::ChecksumState;
use crate::release::EntryModel;
use crate::release::FileEntry;
use crate::release::FileLine;
use crate::release::LineFields;
use crate::release::LineKind;
use crate::release::ReleaseFault;
use crate::text::chars_of;
use crate::text::find_pair_exec;
use crate::text::find_pair_from;
use crate::text::lines;
use crate::text::lit;
use crate::text::split_lines;
use crate::text::string_of;
use crate::text::text_eq;
use crate::text::text_lt;
use crate::text::to_vec;
use crate::text::trim_end;
use crate::text::trim_end_exec;
use crate::text::views;
use crate::textmap::ascending;
use crate::textmap::lemma_upsert_ascending;
use crate::textmap::lookup;
use crate::textmap::upsert;
use crate::textmap::TextMap;
use vstd::prelude::*;
use vstd::slice::slice_subrange;

verus! {

/// A manifest as plain values: its header fields and its table of files,
/// each in the order of its keys.
pub struct ReleaseModel {
    pub headers: Seq<(Seq<char>, Seq<char>)>,
    pub files: Seq<(Seq<char>, EntryModel)>,
}

/// The reader between two lines: the section it stands in, and what it has
/// read.
pub struct ParseState {
    pub section: ChecksumState,
    pub release: ReleaseModel,
}

pub open spec fn start_state() -> ParseState {
    ParseState {
        section: ChecksumState::No,
        release: ReleaseModel { headers: Seq::empty(), files: Seq::empty() },
    }
}

/// Whether `text` is a digest of the given kind in hexadecimal.
pub open spec fn digest_fits(kind: ChecksumType, text: Seq<char>) -> bool {
    text.len() == 2 * kind.digest_len() && all_hex(text)
}

/// The entry of the file that a line lists, with the digest of the line:
/// the entry that the table holds for the path, or a new one of the size
/// that the line gives.
pub open spec fn entry_with(
    files: Seq<(Seq<char>, EntryModel)>,
    fields: LineFields,
    kind: ChecksumType,
) -> EntryModel {
    (match lookup(files, fields.path) {
        Some(e) => e,
        None => EntryModel::bare(fields.size),
    }).with(kind, hex_decoded(fields.checksum))
}

/// The state after a line that lists a file. Outside any section the line
/// is an error, whatever it lists. Elsewhere it must hold its three fields.
/// Inside a frame of the signature it is then passed over. In the section
/// of a digest its digest must be of the kind of the section; the file is
/// then merged into the table where the filter wants it, and passed over
/// where it does not. So the filter decides what enters the table, and
/// never whether the manifest can be read.
pub open spec fn after_file_line(st: ParseState, line: Seq<char>, f: FilterModel) -> Result<
    ParseState,
    ReleaseFault,
> {
    if st.section == ChecksumState::No {
        Err(ReleaseFault::Malformed(line))
    } else {
        match file_line(line) {
            Err(e) => Err(e),
            Ok(fields) => match st.section.hash_kind() {
                None => Ok(st),
                Some(kind) => if !digest_fits(kind, fields.checksum) {
                    Err(ReleaseFault::BadDigest)
                } else if !accepts(f, fields.path) {
                    Ok(st)
                } else {
                    Ok(
                        ParseState {
                            section: st.section,
                            release: ReleaseModel {
                                headers: st.release.headers,
                                files: upsert(
                                    st.release.files,
                                    fields.path,
                                    entry_with(st.release.files, fields, kind),
                                ),
                            },
                        },
                    )
                },
            },
        }
    }
}

/// The state after a line with a colon. Inside a frame of the signature it
/// is passed over. Elsewhere it ends the section and must hold a name, a
/// colon with a space, and a value.
pub open spec fn after_header_line(st: ParseState, line: Seq<char>) -> Result<
    ParseState,
    ReleaseFault,
> {
    if st.section == ChecksumState::PgpMessage || st.section == ChecksumState::PgpSignature {
        Ok(st)
    } else {
        let k = find_pair_from(line, 0, ':', ' ');
        if k < 0 || k + 1 >= line.len() {
            Err(ReleaseFault::Malformed(line))
        } else {
            Ok(
                ParseState {
                    section: ChecksumState::No,
                    release: ReleaseModel {
                        headers: upsert(
                            st.release.headers,
                            line.subrange(0, k),
                            line.subrange(k + 2, line.len() as int),
                        ),
                        files: st.release.files,
                    },
                },
            )
        }
    }
}

/// The state after one more line of the manifest.
pub open spec fn after_line(st: ParseState, raw: Seq<char>, f: FilterModel) -> Result<
    ParseState,
    ReleaseFault,
> {
    let line = trim_end(raw);
    match line_kind(line) {
        LineKind::FileEntry => after_file_line(st, line, f),
        LineKind::Metadata => after_header_line(st, line),
        LineKind::Md5Start => Ok(ParseState { section: ChecksumState::Md5, ..st }),
        LineKind::Sha1Start => Ok(ParseState { section: ChecksumState::Sha1, ..st }),
        LineKind::Sha256Start => Ok(ParseState { section: ChecksumState::Sha256, ..st }),
        LineKind::Sha512Start => Ok(ParseState { section: ChecksumState::Sha512, ..st }),
        LineKind::PGPSignedMessageStart => Ok(
            ParseState { section: ChecksumState::PgpMessage, ..st },
        ),
        LineKind::PGPSignatureStart => Ok(
            ParseState { section: ChecksumState::PgpSignature, ..st },
        ),
        LineKind::PGPSignatureEnd => Ok(ParseState { section: ChecksumState::No, ..st }),
        LineKind::Unknown => if st.section == ChecksumState::PgpSignature {
            Ok(st)
        } else {
            Ok(ParseState { section: ChecksumState::No, ..st })
        },
    }
}

/// The state after the first `n` lines; the first fault ends the reading.
pub open spec fn after_lines(all: Seq<Seq<char>>, n: int, f: FilterModel) -> Result<
    ParseState,
    ReleaseFault,
>
    decreases n,
{
    if n <= 0 || n > all.len() {
        Ok(start_state())
    } else {
        match after_lines(all, n - 1, f) {
            Ok(st) => after_line(st, all[n - 1], f),
            Err(e) => Err(e),
        }
    }
}

/// The manifest that `content` holds, as far as the filter wants its files.
pub open spec fn parse_release(content: Seq<char>, f: FilterModel) -> Result<
    ReleaseModel,
    ReleaseFault,
> {
    match after_lines(lines(content), lines(content).len() as int, f) {
        Ok(st) => Ok(st.release),
        Err(e) => Err(e),
    }
}

/// Whether every file of the table lists a digest.
pub open spec fn all_have_digest(files: Seq<(Seq<char>, EntryModel)>) -> bool {
    forall|i: int| 0 <= i < files.len() ==> (#[trigger] files[i]).1.has_digest()
}

/// Whether two readings of the same lines under two filters agree in all
/// but the table of files: both fail with the same fault, or both stand in
/// the same section with the same headers.
pub open spec fn same_course(
    a: Result<ParseState, ReleaseFault>,
    b: Result<ParseState, ReleaseFault>,
) -> bool {
    match (a, b) {
        (Err(x), Err(y)) => x == y,
        (Ok(s), Ok(t)) => s.section == t.section && s.release.headers == t.release.headers,
        _ => false,
    }
}

pub proof fn lemma_same_course(all: Seq<Seq<char>>, n: int, f: FilterModel, g: FilterModel)
    requires
        0 <= n <= all.len(),
    ensures
        same_course(after_lines(all, n, f), after_lines(all, n, g)),
    decreases n,
{
    if n > 0 {
        lemma_same_course(all, n - 1, f, g);
    }
}

/// Whether a manifest can be read does not depend on the filter: under any
/// two filters the reading fails with the same fault or succeeds with the
/// same headers. The filter only decides which files enter the table.
pub proof fn law_faults_ignore_filter(content: Seq<char>, f: FilterModel, g: FilterModel)
    ensures
        match (parse_release(content, f), parse_release(content, g)) {
            (Err(x), Err(y)) => x == y,
            (Ok(r), Ok(s)) => r.headers == s.headers,
            _ => false,
        },
{
    lemma_same_course(lines(content), lines(content).len() as int, f, g);
}

/// Whether the filter wants every file of the table.
pub open spec fn all_wanted(files: Seq<(Seq<char>, EntryModel)>, f: FilterModel) -> bool {
    forall|i: int| 0 <= i < files.len() ==> accepts(f, (#[trigger] files[i]).0)
}

/// Reading keeps to the filter, line after line: no file comes into the
/// table that the filter does not want.
pub proof fn lemma_after_lines_wanted(all: Seq<Seq<char>>, n: int, f: FilterModel)
    requires
        0 <= n <= all.len(),
    ensures
        match after_lines(all, n, f) {
            Ok(st) => all_wanted(st.release.files, f),
            Err(_) => true,
        },
    decreases n,
{
    if n > 0 {
        lemma_after_lines_wanted(all, n - 1, f);
        match after_lines(all, n - 1, f) {
            Ok(st) => {
                let line = trim_end(all[n - 1]);
                if line_kind(line) == LineKind::FileEntry {
                    match file_line(line) {
                        Ok(fields) => {
                            match st.section.hash_kind() {
                                Some(kind) => {
                                    let e = entry_with(st.release.files, fields, kind);
                                    let t = upsert(st.release.files, fields.path, e);
                                    if accepts(f, fields.path) {
                                        assert forall|i: int| 0 <= i < t.len() implies accepts(
                                            f,
                                            (#[trigger] t[i]).0,
                                        ) by {
                                            crate::textmap::lemma_upsert_keys(
                                                st.release.files,
                                                fields.path,
                                                e,
                                                i,
                                            );
                                        }
                                    }
                                },
                                None => {},
                            }
                        },
                        Err(_) => {},
                    }
                }
            },
            Err(_) => {},
        }
    }
}

/// A manifest that was read holds only files that the filter wants.
pub proof fn law_parsed_release_wanted(content: Seq<char>, f: FilterModel)
    ensures
        match parse_release(content, f) {
            Ok(r) => all_wanted(r.files, f),
            Err(_) => true,
        },
{
    lemma_after_lines_wanted(lines(content), lines(content).len() as int, f);
}

/// Whether a manifest is well formed: its keys stand in ascending order, so
/// none occurs twice, and every file lists a digest.
pub open spec fn well_formed(r: ReleaseModel) -> bool {
    ascending(r.headers) && ascending(r.files) && all_have_digest(r.files)
}

proof fn lemma_upsert_keeps_digests(
    files: Seq<(Seq<char>, EntryModel)>,
    k: Seq<char>,
    e: EntryModel,
)
    requires
        all_have_digest(files),
        e.has_digest(),
    ensures
        all_have_digest(upsert(files, k, e)),
{
    let r = upsert(files, k, e);
    let p = crate::textmap::lower_bound(files, k, 0);
    crate::textmap::lemma_lower_bound(files, k, 0);
    assert forall|i: int| 0 <= i < r.len() implies (#[trigger] r[i]).1.has_digest() by {
        if p < files.len() && files[p].0 == k {
            if i != p {
                assert(r[i] == files[i]);
            }
        } else {
            if i < p {
                assert(r[i] == files[i]);
            } else if i > p {
                assert(r[i] == files[i - 1]);
            }
        }
    }
}

/// Reading keeps a manifest well formed, line after line.
pub proof fn lemma_after_lines_well_formed(all: Seq<Seq<char>>, n: int, f: FilterModel)
    requires
        0 <= n <= all.len(),
    ensures
        match after_lines(all, n, f) {
            Ok(st) => well_formed(st.release),
            Err(_) => true,
        },
    decreases n,
{
    if n > 0 {
        lemma_after_lines_well_formed(all, n - 1, f);
        match after_lines(all, n - 1, f) {
            Ok(st) => {
                let line = trim_end(all[n - 1]);
                if line_kind(line) == LineKind::FileEntry {
                    match file_line(line) {
                        Ok(fields) => {
                            match st.section.hash_kind() {
                                Some(kind) => {
                                    let e = entry_with(st.release.files, fields, kind);
                                    lemma_upsert_ascending(st.release.files, fields.path, e);
                                    lemma_upsert_keeps_digests(st.release.files, fields.path, e);
                                },
                                None => {},
                            }
                        },
                        Err(_) => {},
                    }
                } else if line_kind(line) == LineKind::Metadata {
                    let k = find_pair_from(line, 0, ':', ' ');
                    lemma_upsert_ascending(
                        st.release.headers,
                        line.subrange(0, k),
                        line.subrange(k + 2, line.len() as int),
                    );
                }
            },
            Err(_) => {},
        }
    }
}

/// A manifest that was read is well formed: no path occurs twice, the paths
/// stand in ascending order, and every file lists at least one digest.
pub proof fn law_parsed_release_well_formed(content: Seq<char>, f: FilterModel)
    ensures
        match parse_release(content, f) {
            Ok(r) => well_formed(r),
            Err(_) => true,
        },
{
    lemma_after_lines_well_formed(lines(content), lines(content).len() as int, f);
}

/// The manifest of a suite.
#[derive(Debug)]
pub struct Release {
    map: TextMap<String>,
    pub files: TextMap<FileEntry>,
}

impl View for Release {
    type V = ReleaseModel;

    closed spec fn view(&self) -> ReleaseModel {
        ReleaseModel { headers: self.map@, files: self.files@ }
    }
}

/// Reads a digest of the given kind from its hexadecimal form.
pub(crate) fn decode_digest(kind: ChecksumType, text: &[char]) -> (r: Result<Checksum, MirsError>)
    ensures
        match r {
            Ok(c) => digest_fits(kind, text@) && c.kind() == kind && c.bytes() == hex_decoded(
                text@,
            ),
            Err(e) => !digest_fits(kind, text@) && e is Hex,
        },
{
    match kind {
        ChecksumType::Md5 => match decode_hex::<16>(text) {
            Ok(bytes) => Ok(Checksum::Md5(bytes)),
            Err(cause) => Err(MirsError::Hex { cause }),
        },
        ChecksumType::Sha1 => match decode_hex::<20>(text) {
            Ok(bytes) => Ok(Checksum::Sha1(bytes)),
            Err(cause) => Err(MirsError::Hex { cause }),
        },
        ChecksumType::Sha256 => match decode_hex::<32>(text) {
            Ok(bytes) => Ok(Checksum::Sha256(bytes)),
            Err(cause) => Err(MirsError::Hex { cause }),
        },
        ChecksumType::Sha512 => match decode_hex::<64>(text) {
            Ok(bytes) => Ok(Checksum::Sha512(bytes)),
            Err(cause) => Err(MirsError::Hex { cause }),
        },
    }
}

fn hash_kind_exec(section: ChecksumState) -> (r: Option<ChecksumType>)
    ensures
        r == section.hash_kind(),
{
    match section {
        ChecksumState::Sha1 => Some(ChecksumType::Sha1),
        ChecksumState::Sha256 => Some(ChecksumType::Sha256),
        ChecksumState::Sha512 => Some(ChecksumType::Sha512),
        ChecksumState::Md5 => Some(ChecksumType::Md5),
        _ => None,
    }
}

/// Reads a line that lists a file into the table.
fn read_file_line(
    section: ChecksumState,
    files: &mut TextMap<FileEntry>,
    line: &[char],
    filter: &ReleaseFileFilter,
    Ghost(headers): Ghost<Seq<(Seq<char>, Seq<char>)>>,
) -> (r: Result<(), MirsError>)
    ensures
        match r {
            Ok(()) => after_file_line(
                ParseState {
                    section,
                    release: ReleaseModel { headers, files: old(files)@ },
                },
                line@,
                filter@,
            ) == Ok::<ParseState, ReleaseFault>(
                ParseState { section, release: ReleaseModel { headers, files: final(files)@ } },
            ),
            Err(e) => match after_file_line(
                ParseState {
                    section,
                    release: ReleaseModel { headers, files: old(files)@ },
                },
                line@,
                filter@,
            ) {
                Err(f) => reports(e, f),
                Ok(_) => false,
            },
        },
{
    if section == ChecksumState::No {
        return Err(MirsError::ParsingRelease { line: string_of(line) });
    }
    let file_line = match FileLine::parse_chars(line) {
        Ok(l) => l,
        Err(e) => {
            return Err(e);
        },
    };
    let kind = match hash_kind_exec(section) {
        Some(kind) => kind,
        None => {
            return Ok(());
        },
    };
    let text = chars_of(file_line.checksum.as_str());
    let checksum = match decode_digest(kind, text.as_slice()) {
        Ok(c) => c,
        Err(e) => {
            return Err(e);
        },
    };
    let path = chars_of(file_line.path.as_str());
    if !filter.accept_chars(path.as_slice()) {
        return Ok(());
    }
    let entry = match files.get(path.as_slice()) {
        Some(e) => *e,
        None => FileEntry::bare(file_line.size),
    };
    files.insert(path, entry.with_checksum(checksum));
    Ok(())
}

impl Release {
    /// Reads the manifest in `content`, keeping the files that the target
    /// asks for.
    pub fn parse(content: &str, mirror_opts: &MirrorOpts) -> (r: Result<Release, MirsError>)
        ensures
            match r {
                Ok(release) => parse_release(content@, filter_of(mirror_opts@)) == Ok::<
                    ReleaseModel,
                    ReleaseFault,
                >(release@) && well_formed(release@) && all_wanted(
                    release@.files,
                    filter_of(mirror_opts@),
                ),
                Err(e) => match parse_release(content@, filter_of(mirror_opts@)) {
                    Err(f) => reports(e, f),
                    Ok(_) => false,
                },
            },
    {
        let chars = chars_of(content);
        let all = split_lines(chars.as_slice());
        let file_filter = ReleaseFileFilter::new(mirror_opts);
        let mut checksum_state = ChecksumState::No;
        let mut map: TextMap<String> = TextMap::new();
        let mut files: TextMap<FileEntry> = TextMap::new();
        let mut i: usize = 0;
        while i < all.len()
            invariant
                i <= all.len(),
                views(all@) == lines(content@),
                file_filter@ == filter_of(mirror_opts@),
                after_lines(views(all@), i as int, file_filter@) == Ok::<ParseState, ReleaseFault>(
                    ParseState {
                        section: checksum_state,
                        release: ReleaseModel { headers: map@, files: files@ },
                    },
                ),
            decreases all.len() - i,
        {
            let line = trim_end_exec(all[i]);
            let ghost st = ParseState {
                section: checksum_state,
                release: ReleaseModel { headers: map@, files: files@ },
            };
            let ghost total = all@.len() as int;
            match line_kind_exec(line) {
                LineKind::FileEntry => {
                    match read_file_line(checksum_state, &mut files, line, &file_filter, Ghost(map@)) {
                        Ok(()) => {},
                        Err(e) => {
                            proof {
                                lemma_fault_stays(views(all@), i + 1, total, file_filter@);
                            }
                            return Err(e);
                        },
                    }
                },
                LineKind::Metadata => {
                    if !(checksum_state == ChecksumState::PgpMessage || checksum_state
                        == ChecksumState::PgpSignature) {
                        checksum_state = ChecksumState::No;
                        let k = find_pair_exec(line, ':', ' ');
                        if k >= line.len() {
                            proof {
                                lemma_fault_stays(views(all@), i + 1, total, file_filter@);
                            }
                            return Err(MirsError::ParsingRelease { line: string_of(line) });
                        }
                        let key = to_vec(slice_subrange(line, 0, k));
                        let value = string_of(slice_subrange(line, k + 2, line.len()));
                        map.insert(key, value);
                    }
                },
                LineKind::Md5Start => checksum_state = ChecksumState::Md5,
                LineKind::Sha1Start => checksum_state = ChecksumState::Sha1,
                LineKind::Sha256Start => checksum_state = ChecksumState::Sha256,
                LineKind::Sha512Start => checksum_state = ChecksumState::Sha512,
                LineKind::PGPSignedMessageStart => checksum_state = ChecksumState::PgpMessage,
                LineKind::PGPSignatureStart => checksum_state = ChecksumState::PgpSignature,
                LineKind::PGPSignatureEnd => checksum_state = ChecksumState::No,
                LineKind::Unknown => {
                    if checksum_state != ChecksumState::PgpSignature {
                        checksum_state = ChecksumState::No;
                    }
                },
            }
            i += 1;
        }
        proof {
            law_parsed_release_well_formed(content@, file_filter@);
            law_parsed_release_wanted(content@, file_filter@);
        }
        Ok(Release { map, files })
    }

    /// Whether the archive keeps its indices under their digests as well:
    /// the header `Acquire-By-Hash` says `yes`.
    pub fn acquire_by_hash(&self) -> (r: bool)
        ensures
            r == (lookup(self@.headers, "Acquire-By-Hash"@) == Some("yes"@)),
    {
        match self.map.get(lit("Acquire-By-Hash").as_slice()) {
            Some(v) => {
                let c = chars_of(v.as_str());
                text_eq(c.as_slice(), lit("yes").as_slice())
            },
            None => false,
        }
    }

    /// The header `Components`, if the manifest has it.
    pub fn components(&self) -> (r: Option<&String>)
        ensures
            match r {
                Some(v) => lookup(self@.headers, "Components"@) == Some(v@),
                None => lookup(self@.headers, "Components"@) is None,
            },
    {
        self.map.get(lit("Components").as_slice())
    }

    /// The value of a header field, if the manifest has it.
    pub fn header(&self, name: &str) -> (r: Option<&String>)
        ensures
            match r {
                Some(v) => lookup(self@.headers, name@) == Some(v@),
                None => lookup(self@.headers, name@) is None,
            },
    {
        self.map.get(lit(name).as_slice())
    }

    /// How many header fields the manifest has.
    pub fn header_count(&self) -> (r: usize)
        ensures
            r == self@.headers.len(),
    {
        self.map.len()
    }

    /// The header field at index `i`, in the order of the names.
    pub fn header_at(&self, i: usize) -> (r: (&Vec<char>, &String))
        requires
            i < self@.headers.len(),
        ensures
            (r.0@, r.1@) == self@.headers[i as int],
    {
        (self.map.key_at(i), self.map.value_at(i))
    }

    /// The file at index `i`, in the order of the paths.
    pub fn file_at(&self, i: usize) -> (r: (&Vec<char>, &FileEntry))
        requires
            i < self@.files.len(),
        ensures
            (r.0@, r.1@) == self@.files[i as int],
    {
        (self.files.key_at(i), self.files.value_at(i))
    }

    /// How many files the table holds.
    pub fn len(&self) -> (r: usize)
        ensures
            r == self@.files.len(),
    {
        self.files.len()
    }

    /// The files of the manifest, to be walked in the order of their paths.
    pub fn into_iter(self) -> (r: ReleaseFileIterator)
        ensures
            r.remaining() == self@.files,
    {
        ReleaseFileIterator::new(self)
    }

    /// Drops the files that are in place already: `valid` says of each file
    /// of the table, in order, whether it is.
    pub fn prune_existing(&mut self, valid: &Vec<bool>)
        requires
            valid@.len() == old(self)@.files.len(),
        ensures
            final(self)@.headers == old(self)@.headers,
            final(self)@.files == without_valid(old(self)@.files, valid@, valid@.len() as int),
    {
        let mut pruned: TextMap<FileEntry> = TextMap::new();
        let mut i: usize = 0;
        assert(pruned@ =~= without_valid(self@.files, valid@, 0));
        self.files.ordered();
        while i < self.files.len()
            invariant
                i <= self.files@.len(),
                *self == *old(self),
                valid@.len() == self@.files.len(),
                ascending(self.files@),
                pruned@ == without_valid(self@.files, valid@, i as int),
                forall|j: int, k: int|
                    0 <= j < pruned@.len() && i <= k < self.files@.len() ==> text_lt(
                        (#[trigger] pruned@[j]).0,
                        (#[trigger] self.files@[k]).0,
                    ),
            decreases self.files@.len() - i,
        {
            if !valid[i] {
                let ghost before = pruned@;
                let key = to_vec(self.files.key_at(i).as_slice());
                let entry = *self.files.value_at(i);
                proof {
                    assert forall|j: int| 0 <= j < before.len() implies text_lt(
                        #[trigger] before[j].0,
                        key@,
                    ) by {
                        assert(text_lt(before[j].0, self.files@[i as int].0));
                    }
                    crate::textmap::lemma_upsert_at_end(before, key@, entry@);
                }
                pruned.insert(key, entry);
                assert(pruned@ == before.push(self@.files[i as int]));
                assert forall|j: int, k: int|
                    0 <= j < pruned@.len() && i + 1 <= k < self.files@.len() implies text_lt(
                    (#[trigger] pruned@[j]).0,
                    (#[trigger] self.files@[k]).0,
                ) by {
                    if j < before.len() {
                        assert(pruned@[j] == before[j]);
                    } else {
                        assert(pruned@[j] == self.files@[i as int]);
                    }
                }
            }
            i += 1;
        }
        self.files = pruned;
    }
}

/// The first `n` files of the table without those that `valid` marks.
pub open spec fn without_valid(
    files: Seq<(Seq<char>, EntryModel)>,
    valid: Seq<bool>,
    n: int,
) -> Seq<(Seq<char>, EntryModel)>
    decreases n,
{
    if n <= 0 || n > files.len() || n > valid.len() {
        Seq::empty()
    } else if valid[n - 1] {
        without_valid(files, valid, n - 1)
    } else {
        without_valid(files, valid, n - 1).push(files[n - 1])
    }
}

pub proof fn lemma_fault_stays(all: Seq<Seq<char>>, m: int, n: int, f: FilterModel)
    requires
        0 <= m <= n <= all.len(),
        after_lines(all, m, f) is Err,
    ensures
        after_lines(all, n, f) == after_lines(all, m, f),
    decreases n - m,
{
    if m < n {
        lemma_fault_stays(all, m, n - 1, f);
    }
}

/// Walks the files of a manifest in the order of their paths.
pub struct ReleaseFileIterator {
    release: Release,
}

impl ReleaseFileIterator {
    /// The files still to come.
    pub closed spec fn remaining(&self) -> Seq<(Seq<char>, EntryModel)> {
        self.release@.files
    }

    pub fn new(release: Release) -> (r: Self)
        ensures
            r.remaining() == release@.files,
    {
        Self { release }
    }

    /// The next file, by what its name says it is, with its entry.
    pub fn next(&mut self) -> (r: Option<(MetadataFile, FileEntry)>)
        ensures
            match r {
                Some((file, entry)) => old(self).remaining().len() > 0 && file@ == (FileModel {
                    kind: kind_of_path(old(self).remaining()[0].0),
                    path: old(self).remaining()[0].0,
                }) && entry@ == old(self).remaining()[0].1 && final(self).remaining() == old(
                    self,
                ).remaining().drop_first(),
                None => old(self).remaining().len() == 0 && final(self).remaining().len() == 0,
            },
    {
        match self.release.files.pop_first() {
            Some((path, file_entry)) => Some(
                (MetadataFile::from(string_of(path.as_slice())), file_entry),
            ),
            None => None,
        }
    }
}


/// What lies in the mirror where a file of the manifest belongs.
#[derive(Debug)]
pub enum LocalFile {
    /// Nothing is there.
    Missing,
    /// A symbolic link is there; the name of the file that it points at is
    /// given, where it has one.
    Link { target_name: Option<String> },
    /// A file is there; its checksum of the strongest kind of the entry is
    /// given, where the entry lists a digest.
    File { checksum: Option<Checksum> },
}

/// Whether what lies in the mirror is the file that the entry describes. A
/// link is, where it points at a file that is named by a digest of the
/// entry. A file is, where its checksum is the strongest digest of the
/// entry.
pub open spec fn is_valid_file(e: EntryModel, local: LocalFile) -> bool {
    match local {
        LocalFile::Missing => false,
        LocalFile::Link { target_name } => match target_name {
            Some(name) => crate::checksum::is_checksum_text(name@) && e.digest(
                crate::checksum::kind_of_len(name@.len() / 2)->0,
            ) == Some(hex_decoded(name@)),
            None => false,
        },
        LocalFile::File { checksum } => match checksum {
            Some(c) => e.strongest() == Some(c@),
            None => false,
        },
    }
}

/// Whether what lies in the mirror is the file that `entry` describes.
pub fn valid_file(entry: &FileEntry, local: &LocalFile) -> (r: bool)
    ensures
        r == is_valid_file(entry@, *local),
{
    match local {
        LocalFile::Missing => false,
        LocalFile::Link { target_name } => match target_name {
            Some(name) => match Checksum::try_from(name.as_str()) {
                Ok(checksum) => entry.has_checksum(&checksum),
                Err(_) => false,
            },
            None => false,
        },
        LocalFile::File { checksum } => match checksum {
            Some(existing) => match entry.strongest_hash() {
                Some(referenced) => existing.same(&referenced),
                None => false,
            },
            None => false,
        },
    }
}

} // verus!
