//! A mirror run: its steps, what a step hands to the next, how a run ends,
//! and what becomes of the staging directory.

use crate::config::MirrorOpts;
use crate::error::MirsError;
use crate::manifest::Release;
use crate::metadata_file::file_models;
use crate::metadata_file::FileKind;
use crate::metadata_file::FileModel;
use crate::metadata_file::MetadataFile;
use crate::path::FilePath;
use crate::progress::ProgressPart;
use vstd::prelude::*;

verus! {

/// How the mirroring of one target ended.
#[derive(Debug)]
pub enum MirrorResult {
    NewRelease { total_download_size: u64, num_packages_downloaded: u64 },
    ReleaseUnchanged,
    IrrelevantChanges,
    ReleaseUnchangedButIncomplete,
    Error(MirsError),
}

/// What a step says when it is done: go on, or end the run with a result.
#[derive(Debug)]
pub enum StepResult<T> {
    Continue,
    End(T),
}

/// What becomes of the staging directory at the end of a run.
#[derive(Clone, Copy, Debug, PartialEq, Eq, Structural)]
pub enum Finalization {
    /// What was staged is moved into the mirror; then the staging directory
    /// is removed.
    Commit,
    /// The staging directory is removed; the mirror stays as it was.
    Discard,
}

impl MirrorResult {
    /// Whether the run failed.
    pub open spec fn is_error(&self) -> bool {
        self is Error
    }

    /// What becomes of the staging directory under this result: a new
    /// release, also one without changes that matter, is committed; an
    /// unchanged release and every error is discarded.
    pub open spec fn finalization_spec(&self) -> Finalization {
        match self {
            MirrorResult::NewRelease { .. } | MirrorResult::IrrelevantChanges => Finalization::Commit,
            MirrorResult::ReleaseUnchangedButIncomplete
            | MirrorResult::ReleaseUnchanged
            | MirrorResult::Error(_) => Finalization::Discard,
        }
    }

    /// What becomes of the staging directory under this result. An error is
    /// never committed, and neither is an unchanged release.
    pub fn finalization(&self) -> (r: Finalization)
        ensures
            r == self.finalization_spec(),
            self is Error ==> r == Finalization::Discard,
            self is ReleaseUnchanged ==> r == Finalization::Discard,
    {
        match self {
            MirrorResult::NewRelease { .. } | MirrorResult::IrrelevantChanges => Finalization::Commit,
            MirrorResult::ReleaseUnchangedButIncomplete
            | MirrorResult::ReleaseUnchanged
            | MirrorResult::Error(_) => Finalization::Discard,
        }
    }

    /// The result of the run once the commit is over: the result itself
    /// where the commit went well, an error of the finalizing where it did
    /// not.
    pub fn after_commit(self, commit: Result<(), MirsError>) -> (r: MirrorResult)
        ensures
            match commit {
                Ok(()) => r == self,
                Err(e) => r matches MirrorResult::Error(MirsError::Finalize { inner }) && *inner
                    == e,
            },
    {
        match commit {
            Ok(()) => self,
            Err(e) => MirrorResult::Error(MirsError::Finalize { inner: Box::new(e) }),
        }
    }

    /// Whether the process is to exit with success after this result.
    pub fn is_success(&self) -> (r: bool)
        ensures
            r == !(self is Error),
    {
        !matches!(self, MirrorResult::Error(_))
    }
}

/// Whether the run of a target counts as failed when the process exits:
/// it ended in an error, or it ended well and files failed on the way.
pub fn run_failed(result: &MirrorResult, failed_files: u64) -> (r: bool)
    ensures
        r == (result is Error || failed_files > 0),
{
    !result.is_success() || failed_files > 0
}

/// Whether the process exits with success after the runs of all targets:
/// `failed` says of each run whether it counts as failed, and none may.
pub fn exit_ok(failed: &Vec<bool>) -> (r: bool)
    ensures
        r == (forall|i: int| 0 <= i < failed@.len() ==> !failed@[i]),
{
    let mut i: usize = 0;
    while i < failed.len()
        invariant
            i <= failed.len(),
            forall|k: int| 0 <= k < i ==> !failed@[k],
        decreases failed.len() - i,
    {
        if failed[i] {
            return false;
        }
        i += 1;
    }
    true
}

/// The steps of a mirror run.
#[derive(Clone, Copy, Debug, PartialEq, Eq, Structural)]
pub enum MirrorStep {
    Release,
    Metadata,
    Diffs,
    Packages,
    DebianInstaller,
}

/// The first step: the release files are fetched, checked and read.
#[derive(Clone, Copy, Debug, Default)]
pub struct DownloadRelease;

/// The second step: the files of the manifest are fetched.
#[derive(Clone, Copy, Debug, Default)]
pub struct DownloadMetadata;

/// The third step: the files that the diff indices list are fetched.
#[derive(Clone, Copy, Debug, Default)]
pub struct DownloadFromDiffs;

/// The fourth step: the files that the package indices list are fetched.
#[derive(Clone, Copy, Debug, Default)]
pub struct DownloadFromPackageIndices;

/// The fifth step: the installer images are fetched.
#[derive(Clone, Copy, Debug, Default)]
pub struct DownloadDebianInstaller;

impl DownloadRelease {
    pub fn step_name(&self) -> (r: &'static str)
        ensures
            r@ == "Downloading release"@,
    {
        "Downloading release"
    }

    pub fn error(&self, e: MirsError) -> (r: MirrorResult)
        ensures
            r matches MirrorResult::Error(MirsError::DownloadRelease { inner }) && *inner == e,
    {
        MirrorResult::Error(MirsError::DownloadRelease { inner: Box::new(e) })
    }
}

impl DownloadMetadata {
    pub fn step_name(&self) -> (r: &'static str)
        ensures
            r@ == "Downloading metadata"@,
    {
        "Downloading metadata"
    }

    pub fn error(&self, e: MirsError) -> (r: MirrorResult)
        ensures
            r matches MirrorResult::Error(MirsError::DownloadMetadata { inner }) && *inner == e,
    {
        MirrorResult::Error(MirsError::DownloadMetadata { inner: Box::new(e) })
    }
}

impl DownloadFromDiffs {
    pub fn step_name(&self) -> (r: &'static str)
        ensures
            r@ == "Downloading diffs"@,
    {
        "Downloading diffs"
    }

    pub fn error(&self, e: MirsError) -> (r: MirrorResult)
        ensures
            r matches MirrorResult::Error(MirsError::DownloadDiffs { inner }) && *inner == e,
    {
        MirrorResult::Error(MirsError::DownloadDiffs { inner: Box::new(e) })
    }
}

impl DownloadFromPackageIndices {
    pub fn step_name(&self) -> (r: &'static str)
        ensures
            r@ == "Downloading packages"@,
    {
        "Downloading packages"
    }

    pub fn error(&self, e: MirsError) -> (r: MirrorResult)
        ensures
            r matches MirrorResult::Error(MirsError::DownloadPackages { inner }) && *inner == e,
    {
        MirrorResult::Error(MirsError::DownloadPackages { inner: Box::new(e) })
    }
}

impl DownloadDebianInstaller {
    pub fn step_name(&self) -> (r: &'static str)
        ensures
            r@ == "Downloading debian installer image"@,
    {
        "Downloading debian installer image"
    }

    pub fn error(&self, e: MirsError) -> (r: MirrorResult)
        ensures
            r matches MirrorResult::Error(MirsError::DownloadDebianInstaller { inner }) && *inner
                == e,
    {
        MirrorResult::Error(MirsError::DownloadDebianInstaller { inner: Box::new(e) })
    }
}

impl MirrorStep {
    /// The name under which the step is shown.
    pub open spec fn name(self) -> Seq<char> {
        match self {
            MirrorStep::Release => "Downloading release"@,
            MirrorStep::Metadata => "Downloading metadata"@,
            MirrorStep::Diffs => "Downloading diffs"@,
            MirrorStep::Packages => "Downloading packages"@,
            MirrorStep::DebianInstaller => "Downloading debian installer image"@,
        }
    }

    pub fn step_name(self) -> (r: &'static str)
        ensures
            r@ == self.name(),
    {
        match self {
            MirrorStep::Release => DownloadRelease.step_name(),
            MirrorStep::Metadata => DownloadMetadata.step_name(),
            MirrorStep::Diffs => DownloadFromDiffs.step_name(),
            MirrorStep::Packages => DownloadFromPackageIndices.step_name(),
            MirrorStep::DebianInstaller => DownloadDebianInstaller.step_name(),
        }
    }

    /// The result of a run that fails in this step: the error of the step
    /// around the error that occurred.
    pub open spec fn failure(self, e: MirsError) -> MirrorResult {
        match self {
            MirrorStep::Release => MirrorResult::Error(
                MirsError::DownloadRelease { inner: Box::new(e) },
            ),
            MirrorStep::Metadata => MirrorResult::Error(
                MirsError::DownloadMetadata { inner: Box::new(e) },
            ),
            MirrorStep::Diffs => MirrorResult::Error(
                MirsError::DownloadDiffs { inner: Box::new(e) },
            ),
            MirrorStep::Packages => MirrorResult::Error(
                MirsError::DownloadPackages { inner: Box::new(e) },
            ),
            MirrorStep::DebianInstaller => MirrorResult::Error(
                MirsError::DownloadDebianInstaller { inner: Box::new(e) },
            ),
        }
    }

    pub fn error(self, e: MirsError) -> (r: MirrorResult)
        ensures
            r == self.failure(e),
            r is Error,
    {
        match self {
            MirrorStep::Release => DownloadRelease.error(e),
            MirrorStep::Metadata => DownloadMetadata.error(e),
            MirrorStep::Diffs => DownloadFromDiffs.error(e),
            MirrorStep::Packages => DownloadFromPackageIndices.error(e),
            MirrorStep::DebianInstaller => DownloadDebianInstaller.error(e),
        }
    }
}

/// The steps of a run for a target, in order: release, metadata, diffs,
/// packages, and the installer images where the target asks for them.
pub open spec fn steps_of(installer: bool) -> Seq<MirrorStep> {
    if installer {
        seq![
            MirrorStep::Release,
            MirrorStep::Metadata,
            MirrorStep::Diffs,
            MirrorStep::Packages,
            MirrorStep::DebianInstaller,
        ]
    } else {
        seq![MirrorStep::Release, MirrorStep::Metadata, MirrorStep::Diffs, MirrorStep::Packages]
    }
}

/// The steps of a run for `opts`.
pub fn create_steps(opts: &MirrorOpts) -> (r: Vec<MirrorStep>)
    ensures
        r@ == steps_of(opts@.debian_installer_arch.len() > 0),
{
    let mut steps: Vec<MirrorStep> = Vec::new();
    steps.push(MirrorStep::Release);
    steps.push(MirrorStep::Metadata);
    steps.push(MirrorStep::Diffs);
    steps.push(MirrorStep::Packages);
    if opts.debian_installer() {
        steps.push(MirrorStep::DebianInstaller);
    }
    assert(steps@ =~= steps_of(opts@.debian_installer_arch.len() > 0));
    steps
}

/// What the steps of a run hand on.
#[derive(Debug, Default)]
pub struct MirrorOutput {
    pub release: Option<Release>,
    pub indices: Vec<MetadataFile>,
    pub delete_paths: Vec<FilePath>,
    pub total_bytes_downloaded: u64,
    pub total_packages_downloaded: u64,
    /// The files that the steps after the release step failed to fetch.
    pub total_files_failed: u64,
    pub new_release: bool,
}

/// How a step ended.
#[derive(Debug)]
pub enum StepEvent {
    /// The step is done; the run goes on.
    Continue,
    /// The step ends the run with a result.
    End(MirrorResult),
    /// The step failed.
    Failed(MirsError),
}

/// What the driver does next.
#[derive(Debug)]
pub enum RunAction {
    /// The step at the index is executed.
    Execute(usize),
    /// The run ends with the result.
    Finish(MirrorResult),
}

/// What the driver does after the step at `index` ended with `event`: the
/// next step after `Continue`, or the end of the run, with a new release as
/// its result, after the last; the end with the result of the step after
/// `End`; the end with the error of the step after a failure.
pub open spec fn next_action(
    steps: Seq<MirrorStep>,
    index: int,
    event: StepEvent,
    bytes: u64,
    packages: u64,
) -> RunAction {
    match event {
        StepEvent::Continue => if index + 1 < steps.len() {
            RunAction::Execute((index + 1) as usize)
        } else {
            RunAction::Finish(
                MirrorResult::NewRelease {
                    total_download_size: bytes,
                    num_packages_downloaded: packages,
                },
            )
        },
        StepEvent::End(result) => RunAction::Finish(result),
        StepEvent::Failed(e) => RunAction::Finish(steps[index].failure(e)),
    }
}

/// What the driver does after the step at `index` ended with `event`.
pub fn advance(steps: &Vec<MirrorStep>, index: usize, event: StepEvent, output: &MirrorOutput) -> (r:
    RunAction)
    requires
        index < steps@.len(),
    ensures
        r == next_action(
            steps@,
            index as int,
            event,
            output.total_bytes_downloaded,
            output.total_packages_downloaded,
        ),
        event is Failed ==> (r matches RunAction::Finish(result) && result is Error),
{
    match event {
        StepEvent::Continue => {
            if index < steps.len() - 1 {
                RunAction::Execute(index + 1)
            } else {
                RunAction::Finish(
                    MirrorResult::NewRelease {
                        total_download_size: output.total_bytes_downloaded,
                        num_packages_downloaded: output.total_packages_downloaded,
                    },
                )
            }
        },
        StepEvent::End(result) => RunAction::Finish(result),
        StepEvent::Failed(e) => RunAction::Finish(steps[index].error(e)),
    }
}

/// A run that failed never commits: whatever step fails, and with whatever
/// error, the staging directory is discarded.
pub proof fn law_failure_discards(steps: Seq<MirrorStep>, index: int, e: MirsError, bytes: u64, packages: u64)
    requires
        0 <= index < steps.len(),
    ensures
        next_action(steps, index, StepEvent::Failed(e), bytes, packages) matches RunAction::Finish(
            result,
        ) && result.finalization_spec() == Finalization::Discard,
{
}

/// The state of the list while files are taken from it: what is kept, and
/// what was taken.
pub struct TakeState {
    pub kept: Seq<FileModel>,
    pub taken: Seq<FileModel>,
}

/// The list after the indices below `i` are still to be looked at, from the
/// last down: a file of a wanted kind is taken, and the last file of the
/// list moves to its place.
pub open spec fn take_down(list: Seq<FileModel>, kinds: Seq<FileKind>, i: int) -> TakeState
    decreases list.len() - i,
{
    if i < 0 || i >= list.len() {
        TakeState { kept: list, taken: Seq::empty() }
    } else {
        let before = take_down(list, kinds, i + 1);
        if i < before.kept.len() && kinds.contains(before.kept[i].kind) {
            TakeState {
                kept: before.kept.update(i, before.kept.last()).drop_last(),
                taken: before.taken.push(before.kept[i]),
            }
        } else {
            before
        }
    }
}

/// Taking files by kind parts the list: every file that is taken is of a
/// wanted kind, no file that is kept is, and none is lost.
pub proof fn law_take_parts_the_list(list: Seq<FileModel>, kinds: Seq<FileKind>, i: int)
    requires
        0 <= i <= list.len(),
    ensures
        ({
            let s = take_down(list, kinds, i);
            &&& i <= s.kept.len()
            &&& s.kept.len() + s.taken.len() == list.len()
            &&& forall|j: int| 0 <= j < i ==> (#[trigger] s.kept[j]) == list[j]
            &&& forall|j: int| i <= j < s.kept.len() ==> !kinds.contains((#[trigger] s.kept[j]).kind)
            &&& forall|j: int| 0 <= j < s.taken.len() ==> kinds.contains((#[trigger] s.taken[j]).kind)
        }),
    decreases list.len() - i,
{
    if i < list.len() {
        law_take_parts_the_list(list, kinds, i + 1);
    }
}

fn kinds_contain(kinds: &Vec<FileKind>, kind: FileKind) -> (r: bool)
    ensures
        r == kinds@.contains(kind),
{
    let mut i: usize = 0;
    while i < kinds.len()
        invariant
            i <= kinds.len(),
            forall|k: int| 0 <= k < i ==> kinds@[k] != kind,
        decreases kinds.len() - i,
    {
        if kinds[i] == kind {
            return true;
        }
        i += 1;
    }
    false
}

impl MirrorOutput {
    /// The totals after a step is closed with the counts of its files and
    /// bytes. The bytes that came in are added. The files that were fetched
    /// count as packages in the step of the packages. The files that failed
    /// are added in every step but the first: a release file that is not
    /// there is passed over. A total stops at the largest number.
    pub open spec fn closed(self, step: MirrorStep, files: ProgressPart, bytes: ProgressPart) -> MirrorOutput {
        MirrorOutput {
            total_bytes_downloaded: self.total_bytes_downloaded.saturating_add(bytes.success),
            total_packages_downloaded: if step == MirrorStep::Packages {
                self.total_packages_downloaded.saturating_add(files.success)
            } else {
                self.total_packages_downloaded
            },
            total_files_failed: if step == MirrorStep::Release {
                self.total_files_failed
            } else {
                self.total_files_failed.saturating_add(files.failed)
            },
            ..self
        }
    }

    /// Closes a step: its counts go into the totals of the run.
    pub fn close_step(&mut self, step: MirrorStep, files: &ProgressPart, bytes: &ProgressPart)
        ensures
            *final(self) == old(self).closed(step, *files, *bytes),
    {
        self.total_bytes_downloaded = self.total_bytes_downloaded.saturating_add(bytes.success());
        if step == MirrorStep::Packages {
            self.total_packages_downloaded = self.total_packages_downloaded.saturating_add(
                files.success(),
            );
        }
        if step != MirrorStep::Release {
            self.total_files_failed = self.total_files_failed.saturating_add(files.failed());
        }
    }

    /// Whether no index is at hand.
    pub fn is_empty(&self) -> (r: bool)
        ensures
            r == (self.indices@.len() == 0),
    {
        self.indices.len() == 0
    }

    /// Takes the files of the wanted kinds out of the indices. The list is
    /// walked from its end; the place of a file that is taken goes to the
    /// last file of the list.
    pub fn take_metadata(&mut self, kinds: &Vec<FileKind>) -> (r: Vec<MetadataFile>)
        ensures
            file_models(r@) == take_down(file_models(old(self).indices@), kinds@, 0).taken,
            file_models(final(self).indices@) == take_down(
                file_models(old(self).indices@),
                kinds@,
                0,
            ).kept,
            forall|j: int|
                0 <= j < r@.len() ==> kinds@.contains((#[trigger] file_models(r@)[j]).kind),
            forall|j: int|
                0 <= j < final(self).indices@.len() ==> !kinds@.contains(
                    (#[trigger] file_models(final(self).indices@)[j]).kind,
                ),
            r@.len() + final(self).indices@.len() == old(self).indices@.len(),
            final(self).total_bytes_downloaded == old(self).total_bytes_downloaded,
            final(self).total_packages_downloaded == old(self).total_packages_downloaded,
            final(self).total_files_failed == old(self).total_files_failed,
            final(self).new_release == old(self).new_release,
            final(self).delete_paths == old(self).delete_paths,
            final(self).release == old(self).release,
    {
        proof {
            law_take_parts_the_list(file_models(self.indices@), kinds@, 0);
        }
        let mut vec: Vec<MetadataFile> = Vec::new();
        let mut i: usize = self.indices.len();
        let ghost all = file_models(self.indices@);
        assert(file_models(vec@) =~= Seq::<FileModel>::empty());
        while i > 0
            invariant
                i <= all.len(),
                all == file_models(old(self).indices@),
                take_down(all, kinds@, i as int) == (TakeState {
                    kept: file_models(self.indices@),
                    taken: file_models(vec@),
                }),
                self.total_bytes_downloaded == old(self).total_bytes_downloaded,
                self.total_packages_downloaded == old(self).total_packages_downloaded,
                self.total_files_failed == old(self).total_files_failed,
                self.new_release == old(self).new_release,
                self.delete_paths == old(self).delete_paths,
                self.release == old(self).release,
            decreases i,
        {
            i -= 1;
            let ghost kept = file_models(self.indices@);
            let ghost taken = file_models(vec@);
            if i < self.indices.len() && kinds_contain(kinds, self.indices[i].kind()) {
                let file = self.indices.swap_remove(i);
                vec.push(file);
                assert(file_models(self.indices@) =~= kept.update(i as int, kept.last()).drop_last());
                assert(file_models(vec@) =~= taken.push(kept[i as int]));
            }
        }
        vec
    }
}

/// The first `n` files without those that `exists` does not mark.
pub open spec fn existing_after(files: Seq<FileModel>, exists: Seq<bool>, n: int) -> Seq<FileModel>
    decreases n,
{
    if n <= 0 || n > files.len() || n > exists.len() {
        Seq::empty()
    } else if exists[n - 1] {
        existing_after(files, exists, n - 1).push(files[n - 1])
    } else {
        existing_after(files, exists, n - 1)
    }
}

/// Keeps the files that are there: `exists` says of each, in order, whether
/// it is.
pub fn verify_and_prune(files: Vec<MetadataFile>, exists: &Vec<bool>) -> (r: Vec<MetadataFile>)
    requires
        exists@.len() == files@.len(),
    ensures
        file_models(r@) == existing_after(file_models(files@), exists@, files@.len() as int),
{
    let ghost orig = files@;
    let ghost all = file_models(files@);
    let count: usize = files.len();
    let mut rev = crate::lists::reversed(files);
    let mut out: Vec<MetadataFile> = Vec::new();
    let mut n: usize = 0;
    assert(file_models(out@) =~= existing_after(all, exists@, 0));
    while rev.len() > 0
        invariant
            n + rev@.len() == count,
            count == orig.len(),
            exists@.len() == count,
            all == file_models(orig),
            rev@ == orig.reverse().take(rev@.len() as int),
            file_models(out@) == existing_after(all, exists@, n as int),
        decreases rev.len(),
    {
        let ghost r0 = rev@;
        let ghost before = file_models(out@);
        match rev.pop() {
            Some(file) => {
                assert(file == r0.last());
                assert(r0.last() == orig[n as int]);
                assert(rev@ =~= orig.reverse().take(rev@.len() as int));
                if exists[n] {
                    out.push(file);
                    assert(file_models(out@) =~= before.push(all[n as int]));
                }
                n += 1;
            },
            None => {},
        }
    }
    out
}

/// One deed of the commit of a run.
#[derive(Debug)]
pub enum CommitAction {
    /// What lies at the path is removed.
    Remove(FilePath),
    /// Every file under `from` is moved to its place under `to`.
    MoveStaged { from: FilePath, to: FilePath },
    /// The staging directory is removed.
    RemoveStaging(FilePath),
}

/// A `CommitAction` as plain values.
pub enum CommitModel {
    Remove(Seq<char>),
    MoveStaged { from: Seq<char>, to: Seq<char> },
    RemoveStaging(Seq<char>),
}

impl View for CommitAction {
    type V = CommitModel;

    open spec fn view(&self) -> CommitModel {
        match self {
            CommitAction::Remove(p) => CommitModel::Remove(p@),
            CommitAction::MoveStaged { from, to } => CommitModel::MoveStaged { from: from@, to: to@ },
            CommitAction::RemoveStaging(p) => CommitModel::RemoveStaging(p@),
        }
    }
}

/// The views of a list of deeds.
pub open spec fn commit_models(v: Seq<CommitAction>) -> Seq<CommitModel> {
    v.map_values(|a: CommitAction| a@)
}

/// The removals of the first `n` paths that are to go: one for each path
/// where something lies.
pub open spec fn removals_after(delete: Seq<Seq<char>>, present: Seq<bool>, n: int) -> Seq<CommitModel>
    decreases n,
{
    if n <= 0 || n > delete.len() || n > present.len() {
        Seq::empty()
    } else if present[n - 1] {
        removals_after(delete, present, n - 1).push(CommitModel::Remove(delete[n - 1]))
    } else {
        removals_after(delete, present, n - 1)
    }
}

/// The deeds of a commit, in order: first what is to go is removed, then
/// what was staged is moved into the mirror, and last the staging directory
/// is removed. So nothing is removed after the move.
pub open spec fn commit_plan(
    delete: Seq<Seq<char>>,
    present: Seq<bool>,
    tmp_dir: Seq<char>,
    root_dir: Seq<char>,
) -> Seq<CommitModel> {
    removals_after(delete, present, delete.len() as int) + seq![
        CommitModel::MoveStaged { from: tmp_dir, to: root_dir },
        CommitModel::RemoveStaging(tmp_dir),
    ]
}

/// The deeds of the commit of a run, in order: `present` says of each path
/// that is to go, in order, whether something lies there.
pub fn commit_actions(
    delete_paths: &Vec<FilePath>,
    present: &Vec<bool>,
    tmp_dir: &FilePath,
    root_dir: &FilePath,
) -> (r: Vec<CommitAction>)
    requires
        present@.len() == delete_paths@.len(),
    ensures
        commit_models(r@) == commit_plan(
            crate::release::paths(delete_paths@),
            present@,
            tmp_dir@,
            root_dir@,
        ),
{
    let mut out: Vec<CommitAction> = Vec::new();
    let mut i: usize = 0;
    let ghost delete = crate::release::paths(delete_paths@);
    assert(commit_models(out@) =~= removals_after(delete, present@, 0));
    while i < delete_paths.len()
        invariant
            i <= delete_paths.len(),
            present@.len() == delete_paths@.len(),
            delete == crate::release::paths(delete_paths@),
            commit_models(out@) == removals_after(delete, present@, i as int),
        decreases delete_paths.len() - i,
    {
        if present[i] {
            let ghost before = commit_models(out@);
            let path = FilePath(delete_paths[i].0.clone());
            out.push(CommitAction::Remove(path));
            assert(commit_models(out@) =~= before.push(CommitModel::Remove(delete[i as int])));
        }
        i += 1;
    }
    let ghost removed = commit_models(out@);
    let from = FilePath(tmp_dir.0.clone());
    let to = FilePath(root_dir.0.clone());
    out.push(CommitAction::MoveStaged { from, to });
    out.push(CommitAction::RemoveStaging(FilePath(tmp_dir.0.clone())));
    assert(commit_models(out@) =~= removed + seq![
        CommitModel::MoveStaged { from: tmp_dir@, to: root_dir@ },
        CommitModel::RemoveStaging(tmp_dir@),
    ]);
    out
}

} // verus!
