//! Pruning a mirror: which files the indices vouch for, and which go.

use crate::error::MirsError;
use crate::metadata_file::FileKind;
use crate::metadata_file::MetadataFile;
use crate::path::parent_of;
use crate::path::FilePath;
use crate::progress::Progress;
use crate::progress::ProgressPart;
use crate::release::paths;
use crate::repository::rel_to;
use crate::repository::Repository;
use crate::text::chars_of;
use crate::text::starts_with;
use crate::text::starts_with_exec;
use crate::text::text_eq;
use crate::textmap::lookup;
use crate::textmap::upsert;
use crate::textmap::TextMap;
use crate::verify::Seen;
use crate::release::FileEntry;
use vstd::prelude::*;

verus! {

/// How the pruning of one mirror ended.
#[derive(Debug)]
pub enum PruneResult {
    Pruned { valid_files: u64, valid_bytes: u64, deleted_files: u64, deleted_bytes: u64 },
    Error(MirsError),
}

/// What the pruning has found: the files that the indices vouch for, and
/// the counts of what stayed and what went.
#[derive(Debug)]
pub struct PruneOutput {
    pub files: TextMap<Seen>,
    pub total_valid: u64,
    pub total_valid_bytes: u64,
    pub total_deleted: u64,
    pub total_deleted_bytes: u64,
}

/// The first step of the pruning: the files that the indices vouch for are
/// listed.
#[derive(Clone, Copy, Debug, Default)]
pub struct Inventory;

/// The second step of the pruning: what no index vouches for is deleted.
#[derive(Clone, Copy, Debug, Default)]
pub struct Delete;

impl Inventory {
    pub fn step_name(&self) -> (r: &'static str)
        ensures
            r@ == "Taking inventory"@,
    {
        "Taking inventory"
    }

    pub fn error(&self, e: MirsError) -> (r: PruneResult)
        ensures
            r matches PruneResult::Error(MirsError::Inventory { inner }) && *inner == e,
    {
        PruneResult::Error(MirsError::Inventory { inner: Box::new(e) })
    }
}

impl Delete {
    pub fn step_name(&self) -> (r: &'static str)
        ensures
            r@ == "Pruning"@,
    {
        "Pruning"
    }

    pub fn error(&self, e: MirsError) -> (r: PruneResult)
        ensures
            r matches PruneResult::Error(MirsError::Delete { inner }) && *inner == e,
    {
        PruneResult::Error(MirsError::Delete { inner: Box::new(e) })
    }
}

/// What an entry of the mirror is, other than a directory.
#[derive(Clone, Copy, Debug, PartialEq, Eq, Structural)]
pub enum EntryKind {
    /// A regular file.
    Regular,
    /// A symbolic link, and what it points at is there or not.
    Link { target_exists: bool },
    /// A socket or a FIFO.
    Special,
}

/// The progress of the walk after an entry of `size` bytes was judged.
pub open spec fn judged(p: Progress, went: bool, size: u64) -> Progress {
    if went {
        Progress {
            files: ProgressPart {
                total: p.files.total.wrapping_add(1),
                success: p.files.success.wrapping_add(1),
                ..p.files
            },
            bytes: ProgressPart { success: p.bytes.success.wrapping_add(size), ..p.bytes },
            ..p
        }
    } else {
        Progress {
            files: ProgressPart {
                total: p.files.total.wrapping_add(1),
                skipped: p.files.skipped.wrapping_add(1),
                ..p.files
            },
            bytes: ProgressPart { skipped: p.bytes.skipped.wrapping_add(size), ..p.bytes },
            ..p
        }
    }
}

/// Whether an entry of the mirror goes. A link that points at nothing, a
/// socket, a FIFO and an empty file always go, listed or not. Any other
/// entry goes unless an index vouches for it.
pub open spec fn goes(valid: Seq<(Seq<char>, ())>, kind: EntryKind, path: Seq<char>, size: u64) -> bool {
    kind == (EntryKind::Link { target_exists: false }) || kind == EntryKind::Special || size == 0
        || lookup(valid, path) is None
}

impl PruneOutput {
    pub fn new() -> (r: PruneOutput)
        ensures
            r.files@.len() == 0,
            r.total_valid == 0,
            r.total_valid_bytes == 0,
            r.total_deleted == 0,
            r.total_deleted_bytes == 0,
    {
        PruneOutput {
            files: TextMap::new(),
            total_valid: 0,
            total_valid_bytes: 0,
            total_deleted: 0,
            total_deleted_bytes: 0,
        }
    }

    /// Lists a file that an index vouches for, by its path under the
    /// directory of the mirror. `true` where the file was not listed yet.
    pub fn add_valid_file(&mut self, file: &str) -> (r: bool)
        ensures
            r == (lookup(old(self).files@, file@) is None),
            final(self).files@ == upsert(old(self).files@, file@, ()),
            final(self).total_valid == old(self).total_valid,
            final(self).total_valid_bytes == old(self).total_valid_bytes,
            final(self).total_deleted == old(self).total_deleted,
            final(self).total_deleted_bytes == old(self).total_deleted_bytes,
    {
        let key = chars_of(file);
        let fresh = !self.files.contains_key(key.as_slice());
        self.files.insert(key, Seen);
        fresh
    }

    /// Whether the entry at `path` under the directory of the mirror goes.
    pub fn should_delete(&self, kind: EntryKind, path: &str, size: u64) -> (r: bool)
        ensures
            r == goes(self.files@, kind, path@, size),
    {
        match kind {
            EntryKind::Link { target_exists } => {
                if !target_exists {
                    return true;
                }
            },
            EntryKind::Special => {
                return true;
            },
            EntryKind::Regular => {},
        }
        if size == 0 {
            return true;
        }
        let key = chars_of(path);
        !self.files.contains_key(key.as_slice())
    }

    /// Judges the entry at `path` and counts it: one more file, which
    /// counts with its bytes as a success where it goes and as skipped
    /// where it stays.
    pub fn judge(&self, progress: &mut Progress, kind: EntryKind, path: &str, size: u64) -> (r: bool)
        ensures
            r == goes(self.files@, kind, path@, size),
            *final(progress) == judged(*old(progress), r, size),
    {
        let r = self.should_delete(kind, path, size);
        progress.files.inc_total(1);
        if r {
            progress.files.inc_success(1);
            progress.bytes.inc_success(size);
        } else {
            progress.files.inc_skipped(1);
            progress.bytes.inc_skipped(size);
        }
        r
    }

    /// Takes the counts of the walk: what was skipped stayed, what
    /// succeeded went.
    pub fn record(&mut self, files: &ProgressPart, bytes: &ProgressPart)
        ensures
            final(self).total_valid == files.skipped,
            final(self).total_valid_bytes == bytes.skipped,
            final(self).total_deleted == files.success,
            final(self).total_deleted_bytes == bytes.success,
            final(self).files == old(self).files,
    {
        self.total_valid = files.skipped();
        self.total_valid_bytes = bytes.skipped();
        self.total_deleted = files.success();
        self.total_deleted_bytes = bytes.success();
    }

    /// The result of a pruning that ran through.
    pub fn finalize(&self) -> (r: PruneResult)
        ensures
            r == (PruneResult::Pruned {
                valid_files: self.total_valid,
                valid_bytes: self.total_valid_bytes,
                deleted_files: self.total_deleted,
                deleted_bytes: self.total_deleted_bytes,
            }),
    {
        PruneResult::Pruned {
            valid_files: self.total_valid,
            valid_bytes: self.total_valid_bytes,
            deleted_files: self.total_deleted,
            deleted_bytes: self.total_deleted_bytes,
        }
    }
}

/// Under which path, relative to the directory of the mirror, the files lie
/// that an index lists: those of a package or source index under the
/// directory itself, those of a sum file or a diff index beside the index.
pub open spec fn inventory_base(kind: FileKind, index_path: Seq<char>, root_dir: Seq<char>) -> Option<
    Seq<char>,
> {
    match kind {
        FileKind::Packages | FileKind::Sources => Some(Seq::empty()),
        FileKind::SumFile | FileKind::DiffIndex => match parent_of(index_path) {
            Some(p) => Some(rel_to(root_dir, p)),
            None => None,
        },
        FileKind::Other => None,
    }
}

/// Under which path the files lie that the index `file` lists.
pub fn inventory_base_path(file: &MetadataFile, repo: &Repository) -> (r: Option<FilePath>)
    ensures
        match r {
            Some(p) => inventory_base(file@.kind, file@.path, repo@.root_dir) == Some(p@),
            None => inventory_base(file@.kind, file@.path, repo@.root_dir) is None,
        },
{
    match file {
        MetadataFile::Packages(_) | MetadataFile::Sources(_) => Some(FilePath(String::new())),
        MetadataFile::SumFile(file_path) | MetadataFile::DiffIndex(file_path) => match file_path.parent() {
            Some(p) => Some(FilePath(repo.strip_root(p))),
            None => None,
        },
        MetadataFile::Other(_) => None,
    }
}

/// Whether a mirror at `other` lies inside the mirror at `root`.
pub open spec fn nested(root: Seq<char>, other: Seq<char>) -> bool {
    root != other && starts_with(other, root)
}

/// Of the first `n` directories those that lie inside the directory at
/// index `i`.
pub open spec fn excluded_after(roots: Seq<Seq<char>>, i: int, n: int) -> Seq<Seq<char>>
    decreases n,
{
    if n <= 0 || n > roots.len() || i < 0 || i >= roots.len() {
        Seq::empty()
    } else if nested(roots[i], roots[n - 1]) {
        excluded_after(roots, i, n - 1).push(roots[n - 1])
    } else {
        excluded_after(roots, i, n - 1)
    }
}

/// The directories that the pruning of the mirror at index `i` keeps out of:
/// the mirrors that lie inside it.
pub fn exclude_paths(roots: &Vec<FilePath>, i: usize) -> (r: Vec<FilePath>)
    requires
        i < roots@.len(),
    ensures
        paths(r@) == excluded_after(paths(roots@), i as int, roots@.len() as int),
{
    let root = chars_of(roots[i].as_str());
    let mut out: Vec<FilePath> = Vec::new();
    let mut k: usize = 0;
    assert(paths(out@) =~= excluded_after(paths(roots@), i as int, 0));
    while k < roots.len()
        invariant
            k <= roots.len(),
            i < roots@.len(),
            root@ == paths(roots@)[i as int],
            paths(out@) == excluded_after(paths(roots@), i as int, k as int),
        decreases roots.len() - k,
    {
        let other = chars_of(roots[k].as_str());
        if !text_eq(root.as_slice(), other.as_slice()) && starts_with_exec(
            other.as_slice(),
            root.as_slice(),
        ) {
            let ghost before = paths(out@);
            out.push(FilePath(roots[k].0.clone()));
            assert(paths(out@) =~= before.push(other@));
        }
        k += 1;
    }
    out
}

/// Whether `path` lies in one of the directories that the pruning keeps out
/// of.
pub fn is_excluded(path: &str, exclude: &Vec<FilePath>) -> (r: bool)
    ensures
        r == (exists|k: int|
            0 <= k < exclude@.len() && starts_with(path@, #[trigger] paths(exclude@)[k])),
{
    let p = chars_of(path);
    let mut i: usize = 0;
    while i < exclude.len()
        invariant
            i <= exclude.len(),
            p@ == path@,
            forall|k: int| 0 <= k < i ==> !starts_with(path@, #[trigger] paths(exclude@)[k]),
        decreases exclude.len() - i,
    {
        let e = chars_of(exclude[i].as_str());
        if starts_with_exec(p.as_slice(), e.as_slice()) {
            assert(starts_with(path@, paths(exclude@)[i as int]));
            return true;
        }
        i += 1;
    }
    false
}

/// The table of listed files after the first `n` of the names are listed,
/// each by its path under the directory of the mirror.
pub open spec fn listed_after(
    files: Seq<(Seq<char>, ())>,
    root_dir: Seq<char>,
    names: Seq<Seq<char>>,
    n: int,
) -> Seq<(Seq<char>, ())>
    decreases n,
{
    if n <= 0 || n > names.len() {
        files
    } else {
        upsert(listed_after(files, root_dir, names, n - 1), rel_to(root_dir, names[n - 1]), ())
    }
}

/// The names under which a file of the manifest lies in the mirror: where
/// the file itself lies, then the names that lead to it.
pub open spec fn manifest_names(e: crate::release::EntryModel, path: Seq<char>, by_hash: bool) -> Option<
    Seq<Seq<char>>,
> {
    match crate::release::entry_paths(e, path, by_hash) {
        Some((primary, links)) => Some(seq![primary] + links),
        None => None,
    }
}

impl PruneOutput {
    /// Lists the file at `path`, a path in the mirror, by its path under
    /// the directory of the mirror.
    pub fn list_path(&mut self, repo: &Repository, path: &str)
        ensures
            final(self).files@ == upsert(old(self).files@, rel_to(repo@.root_dir, path@), ()),
            final(self).total_valid == old(self).total_valid,
            final(self).total_valid_bytes == old(self).total_valid_bytes,
            final(self).total_deleted == old(self).total_deleted,
            final(self).total_deleted_bytes == old(self).total_deleted_bytes,
    {
        let rel = repo.strip_root(path);
        self.add_valid_file(rel.as_str());
    }

    /// Lists a file of the manifest: the place where it lies in the mirror
    /// and every name that leads to it. With by-hash an entry without a
    /// digest is an error, and nothing is listed.
    pub fn list_manifest_file(
        &mut self,
        repo: &Repository,
        path: &FilePath,
        entry: FileEntry,
        by_hash: bool,
    ) -> (r: Result<(), MirsError>)
        ensures
            final(self).total_valid == old(self).total_valid,
            final(self).total_valid_bytes == old(self).total_valid_bytes,
            final(self).total_deleted == old(self).total_deleted,
            final(self).total_deleted_bytes == old(self).total_deleted_bytes,
            match r {
                Ok(()) => manifest_names(entry@, path@, by_hash) matches Some(names)
                    && final(self).files@ == listed_after(
                    old(self).files@,
                    repo@.root_dir,
                    names,
                    names.len() as int,
                ),
                Err(e) => manifest_names(entry@, path@, by_hash) is None && e
                    == MirsError::NoReleaseFile && final(self).files@ == old(self).files@,
            },
    {
        let (_, primary, links) = match entry.into_paths(path, by_hash) {
            Ok(found) => found,
            Err(e) => {
                return Err(e);
            },
        };
        let ghost names = seq![primary@] + paths(links@);
        let ghost start = self.files@;
        self.list_path(repo, primary.as_str());
        assert(self.files@ == listed_after(start, repo@.root_dir, names, 1)) by {
            assert(listed_after(start, repo@.root_dir, names, 0) == start);
            assert(names[0] == primary@);
        }
        let mut i: usize = 0;
        while i < links.len()
            invariant
                i <= links.len(),
                names == seq![primary@] + paths(links@),
                self.files@ == listed_after(start, repo@.root_dir, names, i + 1),
                self.total_valid == old(self).total_valid,
                self.total_valid_bytes == old(self).total_valid_bytes,
                self.total_deleted == old(self).total_deleted,
                self.total_deleted_bytes == old(self).total_deleted_bytes,
            decreases links.len() - i,
        {
            assert(names[i + 1] == links@[i as int]@);
            self.list_path(repo, links[i].as_str());
            i += 1;
        }
        Ok(())
    }
}

} // verus!
