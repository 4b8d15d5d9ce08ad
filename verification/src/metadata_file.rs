//! The files that a manifest lists, by what they are.

use crate::path::extension_of;
use crate::path::file_name_of;
use crate::path::file_stem_of;
use crate::path::join_paths;
use crate::path::parent_of;
use crate::path::FilePath;
use crate::release::hash_base;
use crate::text::chars_of;
use crate::text::contains_text;
use crate::text::contains_text_exec;
use crate::text::ends_with;
use crate::text::ends_with_exec;
use crate::text::lit;
use crate::text::string_of;
use crate::text::text_eq;
use vstd::prelude::*;

verus! {

/// What a file of the manifest is.
#[derive(Clone, Copy, Debug, PartialEq, Eq, Structural)]
pub enum FileKind {
    Packages,
    Sources,
    DiffIndex,
    SumFile,
    Other,
}

/// A file of the manifest, by what it is.
#[derive(Debug)]
pub enum MetadataFile {
    Packages(FilePath),
    Sources(FilePath),
    DiffIndex(FilePath),
    SumFile(FilePath),
    Other(FilePath),
}

/// A `MetadataFile` as plain values.
pub struct FileModel {
    pub kind: FileKind,
    pub path: Seq<char>,
}

pub open spec fn is_packages_path(path: Seq<char>) -> bool {
    file_stem_of(path) == Some("Packages"@)
}

pub open spec fn is_sources_path(path: Seq<char>) -> bool {
    file_stem_of(path) == Some("Sources"@)
}

pub open spec fn is_diff_index_path(path: Seq<char>) -> bool {
    file_stem_of(path) == Some("Index"@)
}

/// Whether `path` names a sum file of installer images: its name without
/// the extension ends in `SUMS`, and `installer-` stands in what comes
/// before its last slash.
pub open spec fn is_sumfile_path(path: Seq<char>) -> bool {
    match file_stem_of(path) {
        Some(stem) => ends_with(stem, "SUMS"@) && contains_text(hash_base(path), "installer-"@),
        None => false,
    }
}

/// What the file at `path` is, by its name.
pub open spec fn kind_of_path(path: Seq<char>) -> FileKind {
    if is_packages_path(path) {
        FileKind::Packages
    } else if is_sources_path(path) {
        FileKind::Sources
    } else if is_diff_index_path(path) {
        FileKind::DiffIndex
    } else if is_sumfile_path(path) {
        FileKind::SumFile
    } else {
        FileKind::Other
    }
}

/// The path under which the encodings of one index count as one file:
/// for package and source indices the path without the extension of the
/// file, for a sum file its directory, else the path itself.
pub open spec fn canonical_of(m: FileModel) -> Seq<char> {
    match m.kind {
        FileKind::Packages | FileKind::Sources => match file_stem_of(m.path) {
            Some(stem) => hash_base(m.path) + seq!['/'] + stem,
            None => m.path,
        },
        FileKind::SumFile => match parent_of(m.path) {
            Some(p) => p,
            None => m.path,
        },
        FileKind::DiffIndex | FileKind::Other => m.path,
    }
}

fn stem_is(path: &FilePath, name: &str) -> (r: bool)
    ensures
        r == (file_stem_of(path@) == Some(name@)),
{
    if !path.has_file_name() {
        return false;
    }
    let stem = chars_of(path.file_stem());
    let want = chars_of(name);
    text_eq(stem.as_slice(), want.as_slice())
}

pub fn is_packages_file(path: &FilePath) -> (r: bool)
    ensures
        r == is_packages_path(path@),
{
    stem_is(path, "Packages")
}

pub fn is_diff_index_file(path: &FilePath) -> (r: bool)
    ensures
        r == is_diff_index_path(path@),
{
    stem_is(path, "Index")
}

pub fn is_sources_file(path: &FilePath) -> (r: bool)
    ensures
        r == is_sources_path(path@),
{
    stem_is(path, "Sources")
}

pub fn is_debian_installer_sumfile(path: &FilePath) -> (r: bool)
    ensures
        r == is_sumfile_path(path@),
{
    if !path.has_file_name() {
        return false;
    }
    let stem = chars_of(path.file_stem());
    if !ends_with_exec(stem.as_slice(), lit("SUMS").as_slice()) {
        return false;
    }
    let parent: Vec<char> = match path.parent() {
        Some(p) => chars_of(p),
        None => Vec::new(),
    };
    contains_text_exec(parent.as_slice(), lit("installer-").as_slice())
}

impl View for MetadataFile {
    type V = FileModel;

    open spec fn view(&self) -> FileModel {
        match self {
            MetadataFile::Packages(p) => FileModel { kind: FileKind::Packages, path: p@ },
            MetadataFile::Sources(p) => FileModel { kind: FileKind::Sources, path: p@ },
            MetadataFile::DiffIndex(p) => FileModel { kind: FileKind::DiffIndex, path: p@ },
            MetadataFile::SumFile(p) => FileModel { kind: FileKind::SumFile, path: p@ },
            MetadataFile::Other(p) => FileModel { kind: FileKind::Other, path: p@ },
        }
    }
}

impl MetadataFile {
    /// The file at `path`, by what its name says it is.
    pub fn from(value: String) -> (r: MetadataFile)
        ensures
            r@ == (FileModel { kind: kind_of_path(value@), path: value@ }),
    {
        let value = FilePath(value);
        if is_packages_file(&value) {
            return MetadataFile::Packages(value);
        }
        if is_sources_file(&value) {
            return MetadataFile::Sources(value);
        }
        if is_diff_index_file(&value) {
            return MetadataFile::DiffIndex(value);
        }
        if is_debian_installer_sumfile(&value) {
            return MetadataFile::SumFile(value);
        }
        MetadataFile::Other(value)
    }

    /// The file of the given kind at `path`.
    pub fn of_kind(kind: FileKind, path: FilePath) -> (r: MetadataFile)
        ensures
            r@ == (FileModel { kind, path: path@ }),
    {
        match kind {
            FileKind::Packages => MetadataFile::Packages(path),
            FileKind::Sources => MetadataFile::Sources(path),
            FileKind::DiffIndex => MetadataFile::DiffIndex(path),
            FileKind::SumFile => MetadataFile::SumFile(path),
            FileKind::Other => MetadataFile::Other(path),
        }
    }

    pub fn kind(&self) -> (r: FileKind)
        ensures
            r == self@.kind,
    {
        match self {
            MetadataFile::Packages(_) => FileKind::Packages,
            MetadataFile::Sources(_) => FileKind::Sources,
            MetadataFile::DiffIndex(_) => FileKind::DiffIndex,
            MetadataFile::SumFile(_) => FileKind::SumFile,
            MetadataFile::Other(_) => FileKind::Other,
        }
    }

    pub fn path(&self) -> (r: &FilePath)
        ensures
            r@ == self@.path,
    {
        match self {
            MetadataFile::Packages(file_path)
            | MetadataFile::Sources(file_path)
            | MetadataFile::DiffIndex(file_path)
            | MetadataFile::SumFile(file_path)
            | MetadataFile::Other(file_path) => file_path,
        }
    }

    /// The same file at another path.
    pub fn with_path(&self, path: FilePath) -> (r: MetadataFile)
        ensures
            r@ == (FileModel { kind: self@.kind, path: path@ }),
    {
        MetadataFile::of_kind(self.kind(), path)
    }

    /// Puts the file under the directory `prefix`.
    pub fn prefix_with(&mut self, prefix: &str)
        ensures
            final(self)@ == (FileModel {
                kind: old(self)@.kind,
                path: join_paths(prefix@, old(self)@.path),
            }),
    {
        let base = FilePath::new(prefix);
        let joined = base.join(self.path().as_str());
        *self = self.with_path(joined);
    }

    /// Whether the file is an index: it lists further files.
    pub fn is_index(&self) -> (r: bool)
        ensures
            r == (self@.kind != FileKind::Other),
    {
        !matches!(self, MetadataFile::Other(_))
    }

    pub fn extension(&self) -> (r: Option<&str>)
        ensures
            match r {
                Some(x) => extension_of(self@.path) == Some(x@),
                None => extension_of(self@.path) is None,
            },
    {
        self.path().extension()
    }

    /// The path under which the encodings of this index count as one file.
    pub fn canonical_path(&self) -> (r: FilePath)
        ensures
            r@ == canonical_of(self@),
    {
        match self {
            MetadataFile::Sources(file_path) | MetadataFile::Packages(file_path) => {
                if !file_path.has_file_name() {
                    return FilePath(file_path.0.clone());
                }
                let stem = chars_of(file_path.file_stem());
                let mut out: Vec<char> = match file_path.parent() {
                    Some(p) => chars_of(p),
                    None => Vec::new(),
                };
                out.push('/');
                crate::text::append_chars(&mut out, stem.as_slice());
                FilePath(string_of(out.as_slice()))
            },
            MetadataFile::SumFile(file_path) => match file_path.parent() {
                Some(p) => FilePath::new(p),
                None => FilePath(file_path.0.clone()),
            },
            MetadataFile::DiffIndex(file_path) | MetadataFile::Other(file_path) => FilePath(
                file_path.0.clone(),
            ),
        }
    }
}

/// Whether an index of extension `new` displaces one of extension `old`
/// that stands for the same file: a compressed one does.
pub open spec fn extension_preferred(old: Option<Seq<char>>, new: Option<Seq<char>>) -> bool {
    new == Some("gz"@) || new == Some("xz"@) || new == Some("bz2"@)
}

pub fn is_extension_preferred(old: Option<&str>, new: Option<&str>) -> (r: bool)
    ensures
        r == extension_preferred(
            match old {
                Some(x) => Some(x@),
                None => None,
            },
            match new {
                Some(x) => Some(x@),
                None => None,
            },
        ),
{
    match new {
        Some(x) => {
            let c = chars_of(x);
            text_eq(c.as_slice(), lit("gz").as_slice()) || text_eq(
                c.as_slice(),
                lit("xz").as_slice(),
            ) || text_eq(c.as_slice(), lit("bz2").as_slice())
        },
        None => false,
    }
}

/// The strength of the sums that a sum file of this name holds; 0 for a name
/// that is not known.
pub open spec fn sumfile_rank(name: Seq<char>) -> nat {
    if name == "SHA512SUMS"@ {
        4
    } else if name == "SHA256SUMS"@ {
        3
    } else if name == "SHA1SUMS"@ {
        2
    } else if name == "MD5SUMS"@ {
        1
    } else {
        0
    }
}

fn sumfile_rank_exec(name: &str) -> (r: u8)
    ensures
        r == sumfile_rank(name@),
{
    let c = chars_of(name);
    if text_eq(c.as_slice(), lit("SHA512SUMS").as_slice()) {
        4
    } else if text_eq(c.as_slice(), lit("SHA256SUMS").as_slice()) {
        3
    } else if text_eq(c.as_slice(), lit("SHA1SUMS").as_slice()) {
        2
    } else if text_eq(c.as_slice(), lit("MD5SUMS").as_slice()) {
        1
    } else {
        0
    }
}

/// Whether the sum file named `new` displaces the one named `old` beside it:
/// it does where its sums are of the stronger kind.
pub fn is_sumfile_preferred(old: &str, new: &str) -> (r: bool)
    ensures
        r == (sumfile_rank(old@) < sumfile_rank(new@)),
{
    sumfile_rank_exec(old) < sumfile_rank_exec(new)
}

/// The first index whose file has the canonical path `c`, or the length.
pub open spec fn canonical_index(list: Seq<FileModel>, c: Seq<char>, i: int) -> int
    decreases list.len() - i,
{
    if 0 <= i < list.len() && canonical_of(list[i]) != c {
        canonical_index(list, c, i + 1)
    } else {
        i
    }
}

/// Whether `new` displaces `old`, a file with the same canonical path.
pub open spec fn displaces(old: FileModel, new: FileModel) -> bool {
    match new.kind {
        FileKind::Packages | FileKind::Sources => extension_preferred(
            extension_of(old.path),
            extension_of(new.path),
        ),
        FileKind::SumFile => old.kind == FileKind::SumFile && match (
            file_name_of(old.path),
            file_name_of(new.path),
        ) {
            (Some(a), Some(b)) => sumfile_rank(a) < sumfile_rank(b),
            _ => false,
        },
        FileKind::DiffIndex | FileKind::Other => true,
    }
}

/// `list` with `f` taken in: in place of the file with its canonical path
/// where it displaces that file, dropped where it does not, and at the end
/// where there is no such file.
pub open spec fn taken_in(list: Seq<FileModel>, f: FileModel) -> Seq<FileModel> {
    let p = canonical_index(list, canonical_of(f), 0);
    if 0 <= p < list.len() {
        if displaces(list[p], f) {
            list.update(p, f)
        } else {
            list
        }
    } else {
        list.push(f)
    }
}

/// The first `n` files with one file for each canonical path.
pub open spec fn deduplicated_after(files: Seq<FileModel>, n: int) -> Seq<FileModel>
    decreases n,
{
    if n <= 0 || n > files.len() {
        Seq::empty()
    } else {
        taken_in(deduplicated_after(files, n - 1), files[n - 1])
    }
}

/// Whether no two files of the list stand for the same file: their
/// canonical paths differ.
pub open spec fn distinct(list: Seq<FileModel>) -> bool {
    forall|i: int, j: int|
        0 <= i < j < list.len() ==> canonical_of(#[trigger] list[i]) != canonical_of(
            #[trigger] list[j],
        )
}

pub proof fn lemma_canonical_index(list: Seq<FileModel>, c: Seq<char>, i: int)
    requires
        0 <= i <= list.len(),
    ensures
        i <= canonical_index(list, c, i) <= list.len(),
        canonical_index(list, c, i) < list.len() ==> canonical_of(
            list[canonical_index(list, c, i)],
        ) == c,
        forall|k: int| i <= k < canonical_index(list, c, i) ==> canonical_of(#[trigger] list[k]) != c,
    decreases list.len() - i,
{
    if i < list.len() && canonical_of(list[i]) != c {
        lemma_canonical_index(list, c, i + 1);
    }
}

/// After the encodings of one index are taken as one, no two files of the
/// list stand for the same file.
pub proof fn law_deduplicated_distinct(files: Seq<FileModel>, n: int)
    requires
        0 <= n <= files.len(),
    ensures
        distinct(deduplicated_after(files, n)),
    decreases n,
{
    if n > 0 {
        law_deduplicated_distinct(files, n - 1);
        let list = deduplicated_after(files, n - 1);
        let f = files[n - 1];
        let c = canonical_of(f);
        lemma_canonical_index(list, c, 0);
        let p = canonical_index(list, c, 0);
        let r = taken_in(list, f);
        assert forall|i: int, j: int| 0 <= i < j < r.len() implies canonical_of(
            #[trigger] r[i],
        ) != canonical_of(#[trigger] r[j]) by {
            if p < list.len() {
                assert(canonical_of(r[i]) == canonical_of(list[i]));
                assert(canonical_of(r[j]) == canonical_of(list[j]));
            } else {
                if j < list.len() {
                    assert(r[i] == list[i] && r[j] == list[j]);
                } else {
                    assert(r[i] == list[i]);
                }
            }
        }
    }
}

/// The views of a list of files.
pub open spec fn file_models(v: Seq<MetadataFile>) -> Seq<FileModel> {
    v.map_values(|m: MetadataFile| m@)
}

fn displaces_exec(old: &MetadataFile, new: &MetadataFile) -> (r: bool)
    ensures
        r == displaces(old@, new@),
{
    match new {
        MetadataFile::Packages(_) | MetadataFile::Sources(_) => is_extension_preferred(
            old.extension(),
            new.extension(),
        ),
        MetadataFile::SumFile(sum_file) => match old {
            MetadataFile::SumFile(old_file) => {
                if old_file.has_file_name() && sum_file.has_file_name() {
                    is_sumfile_preferred(old_file.file_name(), sum_file.file_name())
                } else {
                    false
                }
            },
            _ => false,
        },
        MetadataFile::DiffIndex(_) | MetadataFile::Other(_) => true,
    }
}

/// Keeps one file for each canonical path: of the encodings of an index a
/// compressed one, of the sum files of a directory the strongest. The files
/// stay in the order in which their canonical paths first came.
pub fn deduplicate_metadata(files: Vec<MetadataFile>) -> (r: Vec<MetadataFile>)
    ensures
        file_models(r@) == deduplicated_after(file_models(files@), files@.len() as int),
        distinct(file_models(r@)),
{
    proof {
        law_deduplicated_distinct(file_models(files@), files@.len() as int);
    }
    let ghost all = file_models(files@);
    let mut rev = crate::lists::reversed(files);
    assert(file_models(rev@) =~= all.reverse());
    assert(all.reverse().take(rev@.len() as int) =~= all.reverse());
    let mut out: Vec<MetadataFile> = Vec::new();
    let mut n: usize = 0;
    let count: usize = rev.len();
    let ghost total = count as nat;
    assert(file_models(out@) =~= deduplicated_after(all, 0));
    while rev.len() > 0
        invariant
            n + rev@.len() == total,
            total == all.len(),
            total <= usize::MAX,
            file_models(rev@) == all.reverse().take(rev@.len() as int),
            file_models(out@) == deduplicated_after(all, n as int),
        decreases rev.len(),
    {
        let ghost r0 = file_models(rev@);
        match rev.pop() {
            Some(file) => {
                assert(file@ == r0.last());
                assert(r0.last() == all[n as int]);
                assert(file_models(rev@) =~= r0.drop_last());
                let canonical = chars_of(file.canonical_path().as_str());
                let ghost before = file_models(out@);
                let mut p: usize = 0;
                while p < out.len() && !text_eq(
                    chars_of(out[p].canonical_path().as_str()).as_slice(),
                    canonical.as_slice(),
                )
                    invariant
                        p <= out.len(),
                        canonical@ == canonical_of(file@),
                        canonical_index(file_models(out@), canonical@, 0) == canonical_index(
                            file_models(out@),
                            canonical@,
                            p as int,
                        ),
                    decreases out.len() - p,
                {
                    p += 1;
                }
                if p < out.len() {
                    if displaces_exec(&out[p], &file) {
                        out.set(p, file);
                        assert(file_models(out@) =~= before.update(p as int, file@));
                    }
                } else {
                    out.push(file);
                    assert(file_models(out@) =~= before.push(file@));
                }
                n += 1;
            },
            None => {},
        }
    }
    out
}

} // verus!
