//! Verifying a mirror: which files are checked, and what the check comes to.

use crate::checksum::Checksum;
use crate::download::record_queued;
use crate::error::MirsError;
use crate::index::IndexFileEntry;
use crate::metadata_file::FileKind;
use crate::metadata_file::MetadataFile;
use crate::path::parent_of;
use crate::path::FilePath;
use crate::progress::FileEvent;
use crate::progress::Outcome;
use crate::progress::Progress;
use crate::progress::ProgressPart;
use crate::release::entry_paths;
use crate::release::paths;
use crate::release::Digest;
use crate::release::FileEntry;
use crate::text::chars_of;
use crate::textmap::lookup;
use crate::textmap::upsert;
use crate::textmap::TextMap;
use vstd::prelude::*;

verus! {

/// How the verifying of one target ended.
#[derive(Debug)]
pub enum VerifyResult {
    Done { valid_files: u64, corrupt_files: u64, missing_files: u64 },
    Error(MirsError),
}

/// What the verifying has counted.
#[derive(Clone, Copy, Debug, Default, PartialEq, Eq)]
pub struct VerifyOutput {
    pub total_corrupt: u64,
    pub total_missing: u64,
    pub total_valid: u64,
}

/// The step of the verifying.
#[derive(Clone, Copy, Debug, Default)]
pub struct Verify;

impl Verify {
    pub fn step_name(&self) -> (r: &'static str)
        ensures
            r@ == "Verifying"@,
    {
        "Verifying"
    }

    pub fn error(&self, e: MirsError) -> (r: VerifyResult)
        ensures
            r matches VerifyResult::Error(MirsError::Verify { inner }) && *inner == e,
    {
        VerifyResult::Error(MirsError::Verify { inner: Box::new(e) })
    }
}

impl VerifyOutput {
    /// What the counters of the files say: a failed file is corrupt, a
    /// skipped one is missing, the others are valid.
    pub fn from_progress(files: &ProgressPart) -> (r: VerifyOutput)
        ensures
            r.total_corrupt == files.failed,
            r.total_missing == files.skipped,
            r.total_valid == files.success,
    {
        VerifyOutput {
            total_corrupt: files.failed(),
            total_missing: files.skipped(),
            total_valid: files.success(),
        }
    }

    /// The result of a verifying that ran through.
    pub fn finalize(&self) -> (r: VerifyResult)
        ensures
            r == (VerifyResult::Done {
                valid_files: self.total_valid,
                corrupt_files: self.total_corrupt,
                missing_files: self.total_missing,
            }),
    {
        VerifyResult::Done {
            valid_files: self.total_valid,
            corrupt_files: self.total_corrupt,
            missing_files: self.total_missing,
        }
    }
}

impl VerifyResult {
    /// Whether the process is to exit with success after this result: the
    /// verifying ran through and found no corrupt file.
    pub fn is_success(&self) -> (r: bool)
        ensures
            r == (self matches VerifyResult::Done { corrupt_files, .. } && corrupt_files == 0),
    {
        match self {
            VerifyResult::Done { corrupt_files, .. } => *corrupt_files == 0,
            VerifyResult::Error(_) => false,
        }
    }
}

/// A file to check: the checksum it must have, and the paths at which it
/// must lie.
#[derive(Debug)]
pub struct VerifyTask {
    pub size: Option<u64>,
    pub checksum: Checksum,
    pub paths: Vec<FilePath>,
}

/// A `VerifyTask` as plain values.
pub struct VerifyTaskModel {
    pub size: Option<u64>,
    pub checksum: Digest,
    pub paths: Seq<Seq<char>>,
}

impl View for VerifyTask {
    type V = VerifyTaskModel;

    open spec fn view(&self) -> VerifyTaskModel {
        VerifyTaskModel { size: self.size, checksum: self.checksum@, paths: paths(self.paths@) }
    }
}

impl VerifyTask {
    /// The check of a file that an index lists. An entry without checksum
    /// cannot be checked.
    pub fn try_from(value: IndexFileEntry) -> (r: Result<VerifyTask, MirsError>)
        ensures
            match r {
                Ok(task) => value@.checksum is Some && task@ == (VerifyTaskModel {
                    size: value@.size,
                    checksum: value@.checksum->0,
                    paths: seq![value@.path],
                }),
                Err(e) => value@.checksum is None && (e matches MirsError::VerifyTask { path }
                    && path@ == value@.path),
            },
    {
        match value.checksum {
            Some(checksum) => {
                let mut paths: Vec<FilePath> = Vec::new();
                paths.push(FilePath(value.path));
                let task = VerifyTask { size: value.size, checksum, paths };
                assert(task@.paths =~= seq![value@.path]);
                Ok(task)
            },
            None => Err(MirsError::VerifyTask { path: value.path }),
        }
    }
}

/// The check of a file of the manifest, as plain values: the file must lie
/// where the mirror keeps it, with its size and its strongest digest. With
/// by-hash an entry without a digest has no place; without by-hash it has a
/// place and cannot be checked.
pub open spec fn manifest_task(e: crate::release::EntryModel, path: Seq<char>, by_hash: bool) -> Result<
    VerifyTaskModel,
    TaskFault,
> {
    match entry_paths(e, path, by_hash) {
        None => Err(TaskFault::NoPlace),
        Some(found) => match e.strongest() {
            None => Err(TaskFault::NoChecksum(found.0)),
            Some(d) => Ok(VerifyTaskModel { size: Some(e.size), checksum: d, paths: seq![found.0] }),
        },
    }
}

/// Why a file of the manifest cannot be checked.
pub enum TaskFault {
    /// The entry has no digest by which its place could be named.
    NoPlace,
    /// The file at this path has no checksum.
    NoChecksum(Seq<char>),
}

impl TaskFault {
    /// Whether `e` reports this fault.
    pub open spec fn reported_by(self, e: MirsError) -> bool {
        match self {
            TaskFault::NoPlace => e == MirsError::NoReleaseFile,
            TaskFault::NoChecksum(place) => e matches MirsError::VerifyTask { path } && path@ == place,
        }
    }
}

impl VerifyTask {
    /// The check of the file of the manifest at `path`.
    pub fn of_manifest_file(path: &FilePath, entry: FileEntry, by_hash: bool) -> (r: Result<VerifyTask, MirsError>)
        ensures
            match r {
                Ok(task) => manifest_task(entry@, path@, by_hash) == Ok::<VerifyTaskModel, TaskFault>(
                    task@,
                ),
                Err(e) => manifest_task(entry@, path@, by_hash) matches Err(f) && f.reported_by(e),
            },
    {
        let size = entry.size;
        let (checksum, primary, _) = match entry.into_paths(path, by_hash) {
            Ok(found) => found,
            Err(e) => {
                return Err(e);
            },
        };
        match checksum {
            None => Err(MirsError::VerifyTask { path: primary.0 }),
            Some(checksum) => {
                let mut paths: Vec<FilePath> = Vec::new();
                paths.push(primary);
                let task = VerifyTask { size: Some(size), checksum, paths };
                assert(task@.paths =~= seq![primary@]);
                Ok(task)
            },
        }
    }
}

/// Where the files lie that an index lists: those of a package or source
/// index under the directory of the mirror, those of a sum file or a diff
/// index beside the index.
pub open spec fn entries_base(kind: FileKind, index_path: Seq<char>, root_dir: Seq<char>) -> Option<
    Seq<char>,
> {
    match kind {
        FileKind::Packages | FileKind::Sources => Some(root_dir),
        FileKind::SumFile | FileKind::DiffIndex => parent_of(index_path),
        FileKind::Other => None,
    }
}

/// Where the files lie that the index `file` lists.
pub fn base_path(file: &MetadataFile, root_dir: &FilePath) -> (r: Option<FilePath>)
    ensures
        match r {
            Some(p) => entries_base(file@.kind, file@.path, root_dir@) == Some(p@),
            None => entries_base(file@.kind, file@.path, root_dir@) is None,
        },
{
    match file {
        MetadataFile::Packages(_) | MetadataFile::Sources(_) => Some(
            FilePath(root_dir.0.clone()),
        ),
        MetadataFile::SumFile(file_path) | MetadataFile::DiffIndex(file_path) => match file_path.parent() {
            Some(p) => Some(FilePath::new(p)),
            None => None,
        },
        MetadataFile::Other(_) => None,
    }
}

/// A mark in the set of paths.
#[derive(Clone, Copy, Debug)]
pub struct Seen;

impl View for Seen {
    type V = ();

    open spec fn view(&self) -> () {
        ()
    }
}

/// The checks that are taken on, each path once.
#[derive(Debug)]
pub struct Verifier {
    pub progress: Progress,
    pub verified_set: TextMap<Seen>,
}

impl Verifier {
    pub fn build() -> (r: Verifier)
        ensures
            r.verified_set@.len() == 0,
            r.progress.files == ProgressPart::zero(),
            r.progress.bytes == ProgressPart::zero(),
    {
        Verifier { progress: Progress::new(), verified_set: TextMap::new() }
    }

    /// Takes a check on, unless its first path was taken on before. A check
    /// that is taken on counts as one file, and its bytes where its size is
    /// known.
    pub fn queue(&mut self, verify_task: &VerifyTask) -> (r: bool)
        requires
            verify_task@.paths.len() > 0,
        ensures
            r == (lookup(old(self).verified_set@, verify_task@.paths[0]) is None),
            r ==> final(self).verified_set@ == upsert(
                old(self).verified_set@,
                verify_task@.paths[0],
                (),
            ) && final(self).progress == crate::download::queued(
                old(self).progress,
                verify_task@.size,
            ),
            !r ==> final(self).verified_set@ == old(self).verified_set@ && final(self).progress
                == old(self).progress,
    {
        let path = chars_of(verify_task.paths[0].as_str());
        if self.verified_set.contains_key(path.as_slice()) {
            return false;
        }
        self.verified_set.insert(path, Seen);
        record_queued(&mut self.progress, verify_task.size);
        true
    }
}

/// What was found at one path of a check.
#[derive(Clone, Copy, Debug, PartialEq, Eq, Structural)]
pub enum Found {
    /// Nothing lies at the path.
    Missing,
    /// What lies at the path has another checksum.
    Corrupt,
    /// What lies at the path has the checksum of the check.
    Intact,
}

/// What was found at a path, by whether a file lies there and whether it
/// has the checksum of the check.
pub fn found_at(present: bool, intact: bool) -> (r: Found)
    ensures
        r == if !present {
            Found::Missing
        } else if intact {
            Found::Intact
        } else {
            Found::Corrupt
        },
{
    if !present {
        Found::Missing
    } else if intact {
        Found::Intact
    } else {
        Found::Corrupt
    }
}

/// The first index at or after `i` whose path is not intact, or the length.
pub open spec fn first_fault(found: Seq<Found>, i: int) -> int
    decreases found.len() - i,
{
    if 0 <= i < found.len() && found[i] == Found::Intact {
        first_fault(found, i + 1)
    } else {
        i
    }
}

/// What a check comes to, by what was found at its paths in order: the
/// first path that is not intact decides, a missing file as skipped and a
/// corrupt one as failed; a check whose paths are all intact is a success.
pub open spec fn outcome_of_check(found: Seq<Found>) -> Outcome {
    let k = first_fault(found, 0);
    if 0 <= k < found.len() {
        if found[k] == Found::Missing {
            Outcome::Skipped
        } else {
            Outcome::Failed
        }
    } else {
        Outcome::Success
    }
}

/// What a check comes to, by what was found at its paths in order.
pub fn check_outcome(found: &Vec<Found>) -> (r: Outcome)
    ensures
        r == outcome_of_check(found@),
{
    let mut i: usize = 0;
    while i < found.len()
        invariant
            i <= found.len(),
            first_fault(found@, 0) == first_fault(found@, i as int),
        decreases found.len() - i,
    {
        match found[i] {
            Found::Missing => {
                return Outcome::Skipped;
            },
            Found::Corrupt => {
                return Outcome::Failed;
            },
            Found::Intact => {},
        }
        i += 1;
    }
    Outcome::Success
}

impl Verifier {
    /// Counts how a check that was taken on ended.
    pub fn record(&mut self, outcome: Outcome)
        ensures
            final(self).verified_set == old(self).verified_set,
            final(self).progress == (Progress {
                files: old(self).progress.files.after(FileEvent::Done(outcome)),
                ..old(self).progress
            }),
    {
        self.progress.files.record(FileEvent::Done(outcome));
    }
}

} // verus!
