//! The decisions of the steps of a mirror run. What a step reads from disk
//! or from the network comes in as plain values; what it is to fetch goes
//! out as requests.

use crate::checksum::Checksum;
use crate::config::MirrorOpts;
use crate::download::Download;
use crate::download::DownloadModel;
use crate::error::MirsError;
use crate::filter::filter_of;
use crate::index::IndexEntryModel;
use crate::index::IndexFileEntry;
use crate::manifest::parse_release;
use crate::manifest::well_formed;
use crate::manifest::Release;
use crate::manifest::ReleaseModel;
use crate::metadata_file::FileKind;
use crate::metadata_file::FileModel;
use crate::metadata_file::MetadataFile;
use crate::mirror::MirrorResult;
use crate::mirror::StepResult;
use crate::path::file_name_of;
use crate::path::join_chars;
use crate::path::join_paths;
use crate::path::parent_of;
use crate::path::FilePath;
use crate::progress::ProgressPart;
use crate::reader::IndexFileEntryIterator;
use crate::reader::IndexReader;
use crate::release::hash_base;
use crate::release::hash_path;
use crate::release::paths;
use crate::release::Digest;
use crate::release::reports;
use crate::release::EntryModel;
use crate::release::FileEntry;
use crate::release::ReleaseFault;
use crate::repository::file_download;
use crate::repository::local_path;
use crate::repository::metadata_download;
use crate::repository::under;
use crate::repository::Repository;
use crate::repository::RepositoryModel;
use crate::text::after_last;
use crate::text::after_last_exec;
use crate::text::append_chars;
use crate::text::chars_of;
use crate::text::list_contains;
use crate::text::lit;
use crate::text::split_words;
use crate::text::starts_with;
use crate::text::string_of;
use crate::text::strip_prefix;
use crate::text::text_eq;
use crate::text::texts;
use crate::text::views;
use crate::text::words;
use crate::text::Blank;
use crate::progress::Progress;
use vstd::prelude::*;

verus! {

/// The request for a release file: it goes to the staging directory, and is
/// fetched whatever is in place.
pub open spec fn release_request(repo: RepositoryModel, url: Seq<char>) -> DownloadModel {
    DownloadModel {
        url,
        size: None,
        checksum: None,
        primary_target_path: local_path(repo.root_url, repo.tmp_dir, url),
        symlink_paths: Seq::empty(),
        always_download: true,
    }
}

/// The request for the release file at `url`.
pub fn release_download(repo: &Repository, url: String) -> (r: Download)
    requires
        starts_with(url@, repo@.root_url),
    ensures
        r@ == release_request(repo@, url@),
{
    let destination = repo.to_path_in_tmp(url.as_str());
    let r = Download {
        primary_target_path: destination,
        url,
        checksum: None,
        size: None,
        symlink_paths: Vec::new(),
        always_download: true,
    };
    assert(r@.symlink_paths =~= Seq::<Seq<char>>::empty());
    r
}

/// Whether the file at `path` is named `name`.
pub open spec fn is_named(path: Seq<char>, name: Seq<char>) -> bool {
    file_name_of(path) == Some(name)
}

fn is_named_exec(path: &FilePath, name: &str) -> (r: bool)
    ensures
        r == is_named(path@, name@),
{
    if !path.has_file_name() {
        return false;
    }
    let n = chars_of(path.file_name());
    text_eq(n.as_slice(), lit(name).as_slice())
}

/// Whether the file at `path` holds the manifest: it is named `InRelease`
/// or `Release`.
pub open spec fn is_release_name(path: Seq<char>) -> bool {
    is_named(path, "InRelease"@) || is_named(path, "Release"@)
}

/// The first index at or after `i` of a file that is there and holds the
/// manifest, or the length.
pub open spec fn release_index(files: Seq<Seq<char>>, exists: Seq<bool>, i: int) -> int
    decreases files.len() - i,
{
    if 0 <= i < files.len() && !(i < exists.len() && exists[i] && is_release_name(files[i])) {
        release_index(files, exists, i + 1)
    } else {
        i
    }
}

/// The file that holds the manifest: the first of `files` that is there and
/// is named `InRelease` or `Release`. Without one the target is no
/// repository.
pub fn get_release_file(files: &Vec<FilePath>, exists: &Vec<bool>) -> (r: Result<usize, MirsError>)
    ensures
        match r {
            Ok(i) => i == release_index(paths(files@), exists@, 0) && i < files@.len(),
            Err(e) => release_index(paths(files@), exists@, 0) >= files@.len() && e
                == MirsError::NoReleaseFile,
        },
{
    let mut i: usize = 0;
    while i < files.len()
        invariant
            i <= files.len(),
            release_index(paths(files@), exists@, 0) == release_index(
                paths(files@),
                exists@,
                i as int,
            ),
        decreases files.len() - i,
    {
        if i < exists.len() && exists[i] && (is_named_exec(&files[i], "InRelease")
            || is_named_exec(&files[i], "Release")) {
            return Ok(i);
        }
        i += 1;
    }
    Err(MirsError::NoReleaseFile)
}

/// The first index at or after `i` of a file named `name`, or the length.
pub open spec fn named_index(files: Seq<Seq<char>>, name: Seq<char>, i: int) -> int
    decreases files.len() - i,
{
    if 0 <= i < files.len() && !is_named(files[i], name) {
        named_index(files, name, i + 1)
    } else {
        i
    }
}

fn find_named(files: &Vec<FilePath>, name: &str) -> (r: Option<usize>)
    ensures
        match r {
            Some(i) => i == named_index(paths(files@), name@, 0) && i < files@.len(),
            None => named_index(paths(files@), name@, 0) >= files@.len(),
        },
{
    let mut i: usize = 0;
    while i < files.len()
        invariant
            i <= files.len(),
            named_index(paths(files@), name@, 0) == named_index(paths(files@), name@, i as int),
        decreases files.len() - i,
    {
        if is_named_exec(&files[i], name) {
            return Some(i);
        }
        i += 1;
    }
    None
}

/// Which files a signature is checked on.
#[derive(Clone, Copy, Debug, PartialEq, Eq, Structural)]
pub enum SignaturePlan {
    /// The file at the index holds the manifest with its signature.
    Inline(usize),
    /// The manifest and its signature are two files.
    Detached { release: usize, signature: usize },
}

/// Which of the fetched files the signature is checked on: `InRelease`
/// where it is there, else `Release` with `Release.gpg`.
pub open spec fn signature_plan(files: Seq<Seq<char>>) -> Option<SignaturePlan> {
    let inline = named_index(files, "InRelease"@, 0);
    let release = named_index(files, "Release"@, 0);
    let signature = named_index(files, "Release.gpg"@, 0);
    if 0 <= inline < files.len() {
        Some(SignaturePlan::Inline(inline as usize))
    } else if 0 <= release < files.len() && 0 <= signature < files.len() {
        Some(SignaturePlan::Detached { release: release as usize, signature: signature as usize })
    } else {
        None
    }
}

/// Which of the fetched files the signature is checked on. An archive
/// without signature cannot be verified.
pub fn plan_signature(files: &Vec<FilePath>) -> (r: Result<SignaturePlan, MirsError>)
    ensures
        match r {
            Ok(plan) => signature_plan(paths(files@)) == Some(plan),
            Err(e) => signature_plan(paths(files@)) is None && e == MirsError::PgpNotSupported,
        },
{
    match find_named(files, "InRelease") {
        Some(i) => Ok(SignaturePlan::Inline(i)),
        None => {
            let release = match find_named(files, "Release") {
                Some(i) => i,
                None => {
                    return Err(MirsError::PgpNotSupported);
                },
            };
            let signature = match find_named(files, "Release.gpg") {
                Some(i) => i,
                None => {
                    return Err(MirsError::PgpNotSupported);
                },
            };
            Ok(SignaturePlan::Detached { release, signature })
        },
    }
}

/// Where the key comes from that a signature is checked against.
#[derive(Clone, Copy, Debug, PartialEq, Eq, Structural)]
pub enum KeySource {
    /// The key that the target names.
    Repository,
    /// The keys of the key store.
    KeyStore,
}

/// Where the key comes from, where the target asks for verification: the
/// key of the target comes before the key store.
pub fn key_source(pgp_verify: bool, repo: &Repository) -> (r: Option<KeySource>)
    ensures
        r == if !pgp_verify {
            None
        } else if repo@.has_pgp_key {
            Some(KeySource::Repository)
        } else {
            Some(KeySource::KeyStore)
        },
{
    if !pgp_verify {
        None
    } else if repo.has_specified_pgp_key() {
        Some(KeySource::Repository)
    } else {
        Some(KeySource::KeyStore)
    }
}

/// Whether the manifest that was fetched is the one of the mirror: the
/// mirror has one, of the same checksum, and the run is not forced.
pub open spec fn same_release(local: Option<Digest>, new: Digest, force: bool) -> bool {
    !force && local == Some(new)
}

/// How the release step ends: with an unchanged release the run ends at
/// once; else it goes on.
pub open spec fn release_end(unchanged: bool) -> StepResult<MirrorResult> {
    if unchanged {
        StepResult::End(MirrorResult::ReleaseUnchanged)
    } else {
        StepResult::Continue
    }
}

/// Whether the manifest that was fetched is the one of the mirror.
pub fn release_unchanged(local: &Option<Checksum>, new: &Checksum, force: bool) -> (r: bool)
    ensures
        r == same_release(
            match *local {
                Some(l) => Some(l@),
                None => None,
            },
            new@,
            force,
        ),
{
    if force {
        return false;
    }
    match local {
        Some(l) => l.same(new),
        None => false,
    }
}

/// A run against an upstream that has not changed changes nothing in the
/// mirror: where the manifest that was fetched has the checksum of the
/// manifest of the mirror and the run is not forced, the release step ends
/// the run, its result is an unchanged release and no error, and under that
/// result the staging directory is discarded.
pub proof fn law_same_release_changes_nothing(checksum: Digest)
    ensures
        same_release(Some(checksum), checksum, false),
        release_end(same_release(Some(checksum), checksum, false)) == StepResult::End(
            MirrorResult::ReleaseUnchanged,
        ),
        MirrorResult::ReleaseUnchanged.finalization_spec() == crate::mirror::Finalization::Discard,
        !MirrorResult::ReleaseUnchanged.is_error(),
{
}

/// Reads the manifest of the release step; a manifest that cannot be read is
/// an invalid release file.
pub fn read_release(content: &str, opts: &MirrorOpts) -> (r: Result<Release, MirsError>)
    ensures
        match r {
            Ok(release) => parse_release(content@, filter_of(opts@)) == Ok::<
                ReleaseModel,
                ReleaseFault,
            >(release@) && well_formed(release@),
            Err(e) => parse_release(content@, filter_of(opts@)) matches Err(f) && (
            e matches MirsError::InvalidReleaseFile { inner } && reports(*inner, f)),
        },
{
    match Release::parse(content, opts) {
        Ok(release) => Ok(release),
        Err(e) => Err(MirsError::InvalidReleaseFile { inner: Box::new(e) }),
    }
}

/// How the release step ends.
pub fn release_outcome(unchanged: bool) -> (r: StepResult<MirrorResult>)
    ensures
        r == release_end(unchanged),
{
    if unchanged {
        StepResult::End(MirrorResult::ReleaseUnchanged)
    } else {
        StepResult::Continue
    }
}

/// The components that a manifest offers: of each word of its `Components`
/// header what follows the last slash.
pub open spec fn offered_components(header: Seq<char>) -> Seq<Seq<char>> {
    Seq::new(
        words(header, Blank::Ascii).len(),
        |i: int| after_last(words(header, Blank::Ascii)[i], '/'),
    )
}

/// Of the first `n` components asked for, those that the manifest does not
/// offer.
pub open spec fn missing_after(offered: Seq<Seq<char>>, requested: Seq<Seq<char>>, n: int) -> Seq<
    Seq<char>,
>
    decreases n,
{
    if n <= 0 || n > requested.len() {
        Seq::empty()
    } else if offered.contains(requested[n - 1]) {
        missing_after(offered, requested, n - 1)
    } else {
        missing_after(offered, requested, n - 1).push(requested[n - 1])
    }
}

/// The components asked for that the manifest does not offer.
pub fn missing_components(header: &str, requested: &Vec<String>) -> (r: Vec<String>)
    ensures
        texts(r@) == missing_after(
            offered_components(header@),
            texts(requested@),
            requested@.len() as int,
        ),
{
    let h = chars_of(header);
    let parts = split_words(h.as_slice(), Blank::Ascii);
    let mut offered: Vec<String> = Vec::new();
    let mut i: usize = 0;
    assert(texts(offered@) =~= offered_components(header@).take(0));
    while i < parts.len()
        invariant
            i <= parts.len(),
            views(parts@) == words(header@, Blank::Ascii),
            texts(offered@) == offered_components(header@).take(i as int),
        decreases parts.len() - i,
    {
        let ghost before = texts(offered@);
        let name = after_last_exec(parts[i], '/');
        offered.push(string_of(name));
        assert(texts(offered@) =~= before.push(name@));
        assert(offered_components(header@).take(i + 1) =~= offered_components(header@).take(
            i as int,
        ).push(name@));
        i += 1;
    }
    assert(offered_components(header@).take(parts@.len() as int) =~= offered_components(header@));
    let mut out: Vec<String> = Vec::new();
    let mut k: usize = 0;
    assert(texts(out@) =~= missing_after(texts(offered@), texts(requested@), 0));
    while k < requested.len()
        invariant
            k <= requested.len(),
            texts(offered@) == offered_components(header@),
            texts(out@) == missing_after(texts(offered@), texts(requested@), k as int),
        decreases requested.len() - k,
    {
        let want = chars_of(requested[k].as_str());
        if !list_contains(&offered, want.as_slice()) {
            let ghost before = texts(out@);
            out.push(requested[k].clone());
            assert(texts(out@) =~= before.push(requested@[k as int]@));
        }
        k += 1;
    }
    out
}

/// Where a file of the manifest is fetched from and where it goes.
#[derive(Debug)]
pub struct MetadataPaths {
    pub url: String,
    pub in_tmp: FilePath,
    pub in_root: FilePath,
    /// Where the file lies in the mirror under its strongest digest.
    pub checksum_path: Option<FilePath>,
}

/// `MetadataPaths` as plain values.
pub struct MetadataPathsModel {
    pub url: Seq<char>,
    pub in_tmp: Seq<char>,
    pub in_root: Seq<char>,
    pub checksum_path: Option<Seq<char>>,
}

impl View for MetadataPaths {
    type V = MetadataPathsModel;

    open spec fn view(&self) -> MetadataPathsModel {
        MetadataPathsModel {
            url: self.url@,
            in_tmp: self.in_tmp@,
            in_root: self.in_root@,
            checksum_path: match self.checksum_path {
                Some(p) => Some(p@),
                None => None,
            },
        }
    }
}

/// Where the file at `path` of the manifest is fetched from and where it
/// goes.
pub open spec fn metadata_paths_of(repo: RepositoryModel, path: Seq<char>, e: EntryModel) -> MetadataPathsModel {
    let url = repo.dist_url + seq!['/'] + path;
    let in_root = local_path(repo.root_url, repo.root_dir, url);
    MetadataPathsModel {
        url,
        in_tmp: local_path(repo.root_url, repo.tmp_dir, url),
        in_root,
        checksum_path: match e.strongest() {
            Some(d) => Some(hash_base(in_root) + seq!['/'] + hash_path(d)),
            None => None,
        },
    }
}

/// Where `file` of the manifest is fetched from and where it goes.
pub fn metadata_paths(repo: &Repository, file: &MetadataFile, entry: &FileEntry) -> (r:
    MetadataPaths)
    requires
        repo@.wf(),
    ensures
        r@ == metadata_paths_of(repo@, file@.path, entry@),
{
    let url = repo.to_url_in_dist(file.path().as_str());
    proof {
        assert(url@.subrange(0, repo@.root_url.len() as int) =~= repo@.dist_url.subrange(
            0,
            repo@.root_url.len() as int,
        ));
    }
    let in_tmp = repo.to_path_in_tmp(url.as_str());
    let in_root = repo.to_path_in_root(url.as_str());
    let checksum_path = match entry.strongest_hash() {
        Some(checksum) => {
            let mut p: Vec<char> = match in_root.parent() {
                Some(base) => chars_of(base),
                None => Vec::new(),
            };
            p.push('/');
            append_chars(&mut p, chars_of(checksum.relative_path().as_str()).as_slice());
            assert(p@ =~= hash_base(in_root@) + seq!['/'] + hash_path(checksum@));
            Some(FilePath(string_of(p.as_slice())))
        },
        None => None,
    };
    MetadataPaths { url, in_tmp, in_root, checksum_path }
}

/// What is in place for a file of the manifest.
#[derive(Clone, Copy, Debug, PartialEq, Eq, Structural)]
pub struct MetadataProbe {
    /// The file is in the staging directory.
    pub in_tmp: bool,
    /// The file is in the mirror.
    pub in_root: bool,
    /// The file is in the mirror under its strongest digest.
    pub checksum: bool,
}

/// What is done with a file of the manifest.
#[derive(Clone, Copy, Debug, PartialEq, Eq, Structural)]
pub enum MetadataAction {
    /// The manifest lists itself: the file is passed over.
    Ignore,
    /// The file is in place from an earlier run.
    Skip,
    /// The file is fetched.
    Fetch,
}

/// What is done with a file of the manifest. A manifest that lists itself
/// is passed over. A file with a digest is skipped where an earlier run has
/// left it in the mirror: a sum file under its name, any other file under
/// its name and under its strongest digest. A forced run skips nothing.
pub open spec fn metadata_action_of(
    kind: FileKind,
    in_tmp: Seq<char>,
    has_digest: bool,
    probe: MetadataProbe,
    force: bool,
) -> MetadataAction {
    if (probe.in_tmp && is_named(in_tmp, "Release"@)) || is_named(in_tmp, "InRelease"@) {
        MetadataAction::Ignore
    } else if has_digest && !force && probe.in_root && (kind == FileKind::SumFile
        || probe.checksum) {
        MetadataAction::Skip
    } else {
        MetadataAction::Fetch
    }
}

/// What is done with `file` of the manifest.
pub fn metadata_action(
    file: &MetadataFile,
    paths: &MetadataPaths,
    probe: MetadataProbe,
    force: bool,
) -> (r: MetadataAction)
    ensures
        r == metadata_action_of(
            file@.kind,
            paths@.in_tmp,
            paths@.checksum_path is Some,
            probe,
            force,
        ),
{
    if (probe.in_tmp && is_named_exec(&paths.in_tmp, "Release")) || is_named_exec(
        &paths.in_tmp,
        "InRelease",
    ) {
        return MetadataAction::Ignore;
    }
    if paths.checksum_path.is_some() {
        if matches!(file, MetadataFile::SumFile(_)) {
            if probe.in_root && !force {
                return MetadataAction::Skip;
            }
        } else if probe.checksum && probe.in_root && !force {
            return MetadataAction::Skip;
        }
    }
    MetadataAction::Fetch
}

/// The request for a file of the manifest that is fetched into the staging
/// directory, and the index that it will be there. By-hash names are asked
/// for where the manifest has them, but not for a sum file.
pub fn metadata_request(
    repo: &Repository,
    paths: MetadataPaths,
    file: MetadataFile,
    entry: FileEntry,
    by_hash: bool,
) -> (r: Result<(Download, Option<MetadataFile>), MirsError>)
    ensures
        match r {
            Ok((download, index)) => metadata_download(
                paths@.url,
                paths@.in_tmp,
                entry@,
                by_hash && file@.kind != FileKind::SumFile,
            ) == Some(download@) && match index {
                Some(f) => file@.kind != FileKind::Other && f@ == (FileModel {
                    kind: file@.kind,
                    path: paths@.in_tmp,
                }),
                None => file@.kind == FileKind::Other,
            },
            Err(e) => metadata_download(
                paths@.url,
                paths@.in_tmp,
                entry@,
                by_hash && file@.kind != FileKind::SumFile,
            ) is None && e == MirsError::NoReleaseFile,
        },
{
    let add_by_hash = by_hash && !matches!(file, MetadataFile::SumFile(_));
    let index = if file.is_index() {
        Some(file.with_path(FilePath(paths.in_tmp.0.clone())))
    } else {
        None
    };
    match repo.create_metadata_download(paths.url, paths.in_tmp, entry, add_by_hash) {
        Ok(download) => Ok((download, index)),
        Err(e) => Err(e),
    }
}

/// How the metadata step ends once its downloads are over. A file of the
/// manifest that failed leaves the repository inconsistent. Without any
/// index there is nothing more to do: the changes of a new release do not
/// matter to the target, or an unchanged release was incomplete.
pub fn metadata_outcome(files: &ProgressPart, no_indices: bool, new_release: bool) -> (r: Result<
    StepResult<MirrorResult>,
    MirsError,
>)
    ensures
        match r {
            Err(e) => files.failed > 0 && e == (MirsError::InconsistentRepository {
                progress: *files,
            }),
            Ok(StepResult::End(result)) => files.failed == 0 && no_indices && result == if new_release {
                MirrorResult::IrrelevantChanges
            } else {
                MirrorResult::ReleaseUnchangedButIncomplete
            },
            Ok(StepResult::Continue) => files.failed == 0 && !no_indices,
        },
{
    if files.failed() > 0 {
        return Err(MirsError::InconsistentRepository { progress: *files });
    }
    if no_indices {
        let result = if new_release {
            MirrorResult::IrrelevantChanges
        } else {
            MirrorResult::ReleaseUnchangedButIncomplete
        };
        return Ok(StepResult::End(result));
    }
    Ok(StepResult::Continue)
}

/// The request for a file that the diff index at `index_path` lists: the
/// file lies beside the index, and goes to its place in the mirror.
pub open spec fn diff_request(repo: RepositoryModel, index_path: Seq<char>, entry: IndexEntryModel) -> Option<
    DownloadModel,
> {
    match parent_of(index_path) {
        None => None,
        Some(dir) => match strip_prefix(dir, repo.tmp_dir) {
            None => None,
            Some(rel) => Some(
                file_download(
                    repo,
                    IndexEntryModel {
                        path: join_paths(rel, entry.path),
                        size: entry.size,
                        checksum: entry.checksum,
                    },
                ),
            ),
        },
    }
}

/// The request for a file that the diff index at `index_path` lists; `None`
/// for an index that does not lie in a directory of the staging directory.
pub fn diff_download(repo: &Repository, index_path: &FilePath, entry: IndexFileEntry) -> (r: Option<
    Download,
>)
    ensures
        match r {
            Some(d) => diff_request(repo@, index_path@, entry@) == Some(d@),
            None => diff_request(repo@, index_path@, entry@) is None,
        },
{
    let dir = match index_path.parent() {
        Some(d) => d,
        None => {
            return None;
        },
    };
    let d = chars_of(dir);
    let tmp = chars_of(repo.tmp_dir.as_str());
    let rel = match crate::text::strip_prefix_exec(d.as_slice(), tmp.as_slice()) {
        Some(rel) => rel,
        None => {
            return None;
        },
    };
    let name = chars_of(entry.path.as_str());
    let path = join_chars(rel, name.as_slice());
    Some(
        repo.create_file_download(
            IndexFileEntry {
                path: string_of(path.as_slice()),
                size: entry.size,
                checksum: entry.checksum,
            },
        ),
    )
}

/// The views of a list of requests.
pub open spec fn requests(v: Seq<Download>) -> Seq<DownloadModel> {
    v.map_values(|d: Download| d@)
}

/// The three requests of the release step, in order: `InRelease`, `Release`
/// and `Release.gpg` under the URL of the suite.
pub open spec fn release_requests(repo: RepositoryModel) -> Seq<DownloadModel> {
    seq![
        release_request(repo, repo.dist_url + "/InRelease"@),
        release_request(repo, repo.dist_url + "/Release"@),
        release_request(repo, repo.dist_url + "/Release.gpg"@),
    ]
}

/// The progress after the three release files are taken on: three more
/// files, whose sizes are not known.
pub open spec fn release_counted(p: Progress) -> Progress {
    crate::download::queued(crate::download::queued(crate::download::queued(p, None), None), None)
}

/// The three requests of the release step, each counted as a file that is
/// taken on.
pub fn release_downloads(repo: &Repository, progress: &mut Progress) -> (r: Vec<Download>)
    requires
        repo@.wf(),
    ensures
        requests(r@) == release_requests(repo@),
        *final(progress) == release_counted(*old(progress)),
{
    let urls = repo.release_urls();
    let mut out: Vec<Download> = Vec::new();
    let mut i: usize = 0;
    let ghost start = *progress;
    while i < 3
        invariant
            i <= 3,
            repo@.wf(),
            urls@.len() == 3,
            urls@[0]@ == repo@.dist_url + "/InRelease"@,
            urls@[1]@ == repo@.dist_url + "/Release"@,
            urls@[2]@ == repo@.dist_url + "/Release.gpg"@,
            requests(out@) == release_requests(repo@).take(i as int),
            i == 0 ==> *progress == start,
            i == 1 ==> *progress == crate::download::queued(start, None),
            i == 2 ==> *progress == crate::download::queued(
                crate::download::queued(start, None),
                None,
            ),
            i == 3 ==> *progress == release_counted(start),
        decreases 3 - i,
    {
        let url = urls[i].clone();
        proof {
            let d = repo@.dist_url;
            let r = repo@.root_url;
            assert(url@.subrange(0, r.len() as int) =~= d.subrange(0, r.len() as int));
        }
        let ghost before = requests(out@);
        let dl = release_download(repo, url);
        crate::download::record_queued(progress, dl.size);
        out.push(dl);
        assert(requests(out@) =~= before.push(dl@));
        assert(release_requests(repo@).take(i + 1) =~= release_requests(repo@).take(i as int).push(
            release_requests(repo@)[i as int],
        ));
        i += 1;
    }
    assert(release_requests(repo@).take(3) =~= release_requests(repo@));
    out
}

/// Of the first `n` files those whose fetch went well; a fetch that failed
/// is passed over.
pub open spec fn fetched_after(files: Seq<Seq<char>>, went_well: Seq<bool>, n: int) -> Seq<Seq<char>>
    decreases n,
{
    if n <= 0 || n > files.len() || n > went_well.len() {
        Seq::empty()
    } else if went_well[n - 1] {
        fetched_after(files, went_well, n - 1).push(files[n - 1])
    } else {
        fetched_after(files, went_well, n - 1)
    }
}

/// The release files that were fetched: `went_well` says of each file, in
/// order, whether its fetch went well.
pub fn fetched_files(files: &Vec<FilePath>, went_well: &Vec<bool>) -> (r: Vec<FilePath>)
    requires
        went_well@.len() == files@.len(),
    ensures
        paths(r@) == fetched_after(paths(files@), went_well@, files@.len() as int),
{
    let mut out: Vec<FilePath> = Vec::new();
    let mut i: usize = 0;
    assert(paths(out@) =~= fetched_after(paths(files@), went_well@, 0));
    while i < files.len()
        invariant
            i <= files.len(),
            went_well@.len() == files@.len(),
            paths(out@) == fetched_after(paths(files@), went_well@, i as int),
        decreases files.len() - i,
    {
        if went_well[i] {
            let ghost before = paths(out@);
            out.push(FilePath(files[i].0.clone()));
            assert(paths(out@) =~= before.push(files@[i as int]@));
        }
        i += 1;
    }
    out
}

/// The sizes of the first `n` indices, added up as a machine word adds.
pub open spec fn sizes_after(readers: Seq<IndexReader>, n: int) -> u64
    decreases n,
{
    if n <= 0 || n > readers.len() {
        0
    } else {
        sizes_after(readers, n - 1).wrapping_add(readers[n - 1].file_size())
    }
}

/// The size of all the indices together.
pub fn total_size(readers: &Vec<IndexReader>) -> (r: u64)
    ensures
        r == sizes_after(readers@, readers@.len() as int),
{
    let mut sum: u64 = 0;
    let mut i: usize = 0;
    while i < readers.len()
        invariant
            i <= readers@.len(),
            sum == sizes_after(readers@, i as int),
        decreases readers@.len() - i,
    {
        sum = sum.wrapping_add(readers[i].size());
        i += 1;
    }
    sum
}

/// The walk over the indices of a step: the indices that wait, the one
/// that is read, and the bytes of those that were read to their end.
pub struct IndexWalk {
    pub waiting: Vec<IndexReader>,
    pub current: Option<IndexReader>,
    pub base: u64,
}

/// What a step of the walk asks for.
pub enum WalkStep {
    /// The next index was opened.
    Opened,
    /// The index that is read listed a file: this is the request for it.
    Request(Download),
    /// The index that is read is at its end.
    Closed,
    /// No index is left.
    Done,
}

impl IndexWalk {
    /// The walk over `readers`, in their order.
    pub fn new(readers: Vec<IndexReader>) -> (r: IndexWalk)
        ensures
            r.waiting == readers,
            r.current is None,
            r.base == 0,
    {
        IndexWalk { waiting: readers, current: None, base: 0 }
    }

    /// How many bytes of the indices have been read: those of the indices
    /// that were read to their end, and what has been read of the one that
    /// is open.
    pub open spec fn read(&self) -> u64 {
        match self.current {
            Some(reader) => reader.read().wrapping_add(self.base),
            None => self.base,
        }
    }

    pub fn bytes_read(&self) -> (r: u64)
        ensures
            r == self.read(),
    {
        match &self.current {
            Some(reader) => reader.counter().wrapping_add(self.base),
            None => self.base,
        }
    }

    /// Whether a step of the walk leads from this state to `after` and
    /// gives `r`. With no index open the next one is opened, and the walk
    /// is done where none waits. The open index is asked for its next
    /// entry: an entry gives the request for its file, the end of the
    /// index adds its size to the bytes read, and an error of the index is
    /// the error of the step.
    pub open spec fn leads(self, repo: Repository, after: IndexWalk, r: Result<WalkStep, MirsError>) -> bool {
        match self.current {
            None => if self.waiting@.len() == 0 {
                r matches Ok(WalkStep::Done) && after == self
            } else {
                &&& r matches Ok(WalkStep::Opened)
                &&& after.current == Some(self.waiting@[0])
                &&& after.waiting@ == self.waiting@.remove(0)
                &&& after.base == self.base
            },
            Some(reader) => {
                &&& after.waiting == self.waiting
                &&& match r {
                    Ok(WalkStep::Request(download)) => exists|entry: IndexFileEntry|
                        {
                            &&& after.current is Some
                            &&& #[trigger] reader.hands(after.current->0, Some(Ok(entry)))
                            &&& download@ == file_download(repo@, entry@)
                            &&& after.base == self.base
                        },
                    Ok(WalkStep::Closed) => {
                        &&& after.current is None
                        &&& after.base == self.base.wrapping_add(reader.file_size())
                        &&& exists|next: IndexReader| #[trigger] reader.hands(next, None)
                    },
                    Ok(_) => false,
                    Err(e) => {
                        &&& after.current is Some
                        &&& reader.hands(after.current->0, Some(Err(e)))
                        &&& after.base == self.base
                    },
                }
            },
        }
    }

    /// One step of the walk.
    pub fn advance(&mut self, repo: &Repository) -> (r: Result<WalkStep, MirsError>)
        ensures
            old(self).leads(*repo, *final(self), r),
    {
        match self.current.take() {
            None => {
                if self.waiting.len() == 0 {
                    Ok(WalkStep::Done)
                } else {
                    let reader = self.waiting.remove(0);
                    self.current = Some(reader);
                    Ok(WalkStep::Opened)
                }
            },
            Some(mut reader) => {
                let ghost before = reader;
                match reader.next_entry() {
                    None => {
                        self.base = self.base.wrapping_add(reader.size());
                        assert(before.hands(reader, None));
                        assert(before.file_size() == reader.file_size());
                        Ok(WalkStep::Closed)
                    },
                    Some(Ok(entry)) => {
                        let ghost listed = entry;
                        let download = repo.create_file_download(entry);
                        self.current = Some(reader);
                        assert(self.current->0 == reader);
                        assert(before.hands(self.current->0, Some(Ok(listed))));
                        assert(download@ == file_download(repo@, listed@));
                        Ok(WalkStep::Request(download))
                    },
                    Some(Err(e)) => {
                        self.current = Some(reader);
                        Err(e)
                    },
                }
            },
        }
    }
}

} // verus!
