use aptmirs::checksum::Checksum;
use aptmirs::cmd::Cmd;
use aptmirs::cmd::CmdResult;
use aptmirs::cmd::CmdState;
use aptmirs::config::MirrorOpts;
use aptmirs::error::MirsError;
use aptmirs::index::IndexFileEntry;
use aptmirs::metadata_file::FileKind;
use aptmirs::metadata_file::MetadataFile;
use aptmirs::mirror::advance;
use aptmirs::mirror::commit_actions;
use aptmirs::mirror::exit_ok;
use aptmirs::mirror::run_failed;
use aptmirs::mirror::CommitAction;
use aptmirs::mirror::create_steps;
use aptmirs::mirror::verify_and_prune;
use aptmirs::mirror::DownloadDebianInstaller;
use aptmirs::mirror::DownloadFromDiffs;
use aptmirs::mirror::DownloadFromPackageIndices;
use aptmirs::mirror::DownloadMetadata;
use aptmirs::mirror::DownloadRelease;
use aptmirs::mirror::Finalization;
use aptmirs::mirror::MirrorOutput;
use aptmirs::mirror::MirrorResult;
use aptmirs::mirror::MirrorStep;
use aptmirs::mirror::RunAction;
use aptmirs::mirror::StepEvent;
use aptmirs::mirror::StepResult;
use aptmirs::path::FilePath;
use aptmirs::progress::Progress;
use aptmirs::reader::IndexReader;
use aptmirs::progress::ProgressPart;
use aptmirs::release::FileEntry;
use aptmirs::repository::Repository;
use aptmirs::steps::diff_download;
use aptmirs::steps::fetched_files;
use aptmirs::steps::release_downloads;
use aptmirs::steps::total_size;
use aptmirs::steps::IndexWalk;
use aptmirs::steps::WalkStep;
use aptmirs::steps::get_release_file;
use aptmirs::steps::key_source;
use aptmirs::steps::metadata_action;
use aptmirs::steps::metadata_outcome;
use aptmirs::steps::metadata_paths;
use aptmirs::steps::metadata_request;
use aptmirs::steps::missing_components;
use aptmirs::steps::plan_signature;
use aptmirs::steps::read_release;
use aptmirs::steps::release_download;
use aptmirs::steps::release_outcome;
use aptmirs::steps::release_unchanged;
use aptmirs::steps::KeySource;
use aptmirs::steps::MetadataAction;
use aptmirs::steps::MetadataProbe;
use aptmirs::steps::SignaturePlan;

fn opts(line: &str) -> MirrorOpts {
    MirrorOpts::try_from(line).unwrap()
}

fn repo() -> Repository {
    Repository::build_with_tmp(&opts("deb http://h.org/debian bookworm main"), &FilePath::new("/out")).unwrap()
}

fn paths(names: &[&str]) -> Vec<FilePath> {
    names.iter().map(|n| FilePath::new(n)).collect()
}

#[test]
fn the_steps_of_a_run() {
    assert_eq!(
        create_steps(&opts("deb http://x s main")),
        vec![MirrorStep::Release, MirrorStep::Metadata, MirrorStep::Diffs, MirrorStep::Packages]
    );
    assert_eq!(
        create_steps(&opts("deb [di_arch=amd64] http://x s main")),
        vec![
            MirrorStep::Release,
            MirrorStep::Metadata,
            MirrorStep::Diffs,
            MirrorStep::Packages,
            MirrorStep::DebianInstaller
        ]
    );
}

#[test]
fn the_names_of_the_steps() {
    assert_eq!(DownloadRelease.step_name(), "Downloading release");
    assert_eq!(DownloadMetadata.step_name(), "Downloading metadata");
    assert_eq!(DownloadFromDiffs.step_name(), "Downloading diffs");
    assert_eq!(DownloadFromPackageIndices.step_name(), "Downloading packages");
    assert_eq!(DownloadDebianInstaller.step_name(), "Downloading debian installer image");
    assert_eq!(MirrorStep::Packages.step_name(), "Downloading packages");
}

#[test]
fn a_step_wraps_the_error_that_occurred_in_it() {
    assert!(matches!(
        DownloadRelease.error(MirsError::NoReleaseFile),
        MirrorResult::Error(MirsError::DownloadRelease { inner }) if matches!(*inner, MirsError::NoReleaseFile)
    ));
    assert!(matches!(
        DownloadMetadata.error(MirsError::PgpNotVerified),
        MirrorResult::Error(MirsError::DownloadMetadata { inner }) if matches!(*inner, MirsError::PgpNotVerified)
    ));
    assert!(matches!(
        DownloadFromDiffs.error(MirsError::NoReleaseFile),
        MirrorResult::Error(MirsError::DownloadDiffs { .. })
    ));
    assert!(matches!(
        DownloadFromPackageIndices.error(MirsError::NoReleaseFile),
        MirrorResult::Error(MirsError::DownloadPackages { .. })
    ));
    assert!(matches!(
        DownloadDebianInstaller.error(MirsError::NoReleaseFile),
        MirrorResult::Error(MirsError::DownloadDebianInstaller { .. })
    ));
}

#[test]
fn the_driver_goes_through_the_steps() {
    let steps = create_steps(&opts("deb http://x s main"));
    let mut output = MirrorOutput::default();
    output.total_bytes_downloaded = 1000;
    output.total_packages_downloaded = 3;
    assert!(matches!(advance(&steps, 0, StepEvent::Continue, &output), RunAction::Execute(1)));
    assert!(matches!(advance(&steps, 2, StepEvent::Continue, &output), RunAction::Execute(3)));
    assert!(matches!(
        advance(&steps, 3, StepEvent::Continue, &output),
        RunAction::Finish(MirrorResult::NewRelease { total_download_size: 1000, num_packages_downloaded: 3 })
    ));
    assert!(matches!(
        advance(&steps, 0, StepEvent::End(MirrorResult::ReleaseUnchanged), &output),
        RunAction::Finish(MirrorResult::ReleaseUnchanged)
    ));
    assert!(matches!(
        advance(&steps, 1, StepEvent::Failed(MirsError::NoReleaseFile), &output),
        RunAction::Finish(MirrorResult::Error(MirsError::DownloadMetadata { .. }))
    ));
}

#[test]
fn only_a_new_release_is_committed() {
    let new = MirrorResult::NewRelease { total_download_size: 1, num_packages_downloaded: 1 };
    assert_eq!(new.finalization(), Finalization::Commit);
    assert_eq!(MirrorResult::IrrelevantChanges.finalization(), Finalization::Commit);
    assert_eq!(MirrorResult::ReleaseUnchanged.finalization(), Finalization::Discard);
    assert_eq!(MirrorResult::ReleaseUnchangedButIncomplete.finalization(), Finalization::Discard);
    assert_eq!(MirrorResult::Error(MirsError::NoReleaseFile).finalization(), Finalization::Discard);
}

#[test]
fn a_commit_that_fails_is_a_finalize_error() {
    let new = MirrorResult::NewRelease { total_download_size: 1, num_packages_downloaded: 2 };
    assert!(matches!(
        new.after_commit(Ok(())),
        MirrorResult::NewRelease { total_download_size: 1, num_packages_downloaded: 2 }
    ));
    let r = MirrorResult::IrrelevantChanges.after_commit(Err(MirsError::Io { msg: "disk full".to_string() }));
    assert!(matches!(
        r,
        MirrorResult::Error(MirsError::Finalize { inner }) if matches!(&*inner, MirsError::Io { msg } if msg == "disk full")
    ));
}

#[test]
fn results_and_exit_codes() {
    assert!(MirrorResult::ReleaseUnchanged.is_success());
    assert!(MirrorResult::IrrelevantChanges.is_success());
    assert!(!MirrorResult::Error(MirsError::NoReleaseFile).is_success());
    assert!(MirrorResult::Error(MirsError::NoReleaseFile).is_failure());
    assert!(!MirrorResult::ReleaseUnchanged.is_failure());
    let mut output = MirrorOutput::default();
    output.total_bytes_downloaded = 5;
    output.total_packages_downloaded = 6;
    assert!(matches!(
        CmdState::finalize(&output),
        MirrorResult::NewRelease { total_download_size: 5, num_packages_downloaded: 6 }
    ));
}

#[test]
fn the_commands() {
    assert_eq!(Cmd::default(), Cmd::Mirror);
    assert_eq!(Cmd::Mirror.describe(), "Mirroring");
    assert_eq!(Cmd::Verify.describe(), "Verifying");
    assert_eq!(Cmd::Prune.describe(), "Pruning");
    assert_eq!(Cmd::from_word(None), Some(Cmd::Mirror));
    assert_eq!(Cmd::from_word(Some("mirror")), Some(Cmd::Mirror));
    assert_eq!(Cmd::from_word(Some("verify")), Some(Cmd::Verify));
    assert_eq!(Cmd::from_word(Some("prune")), Some(Cmd::Prune));
    assert_eq!(Cmd::from_word(Some("Prune")), None);
}

fn files(paths: &[&str]) -> Vec<MetadataFile> {
    paths.iter().map(|p| MetadataFile::from(p.to_string())).collect()
}

fn names(v: &[MetadataFile]) -> Vec<String> {
    v.iter().map(|f| f.path().as_str().to_string()).collect()
}

#[test]
fn indices_are_taken_by_kind() {
    let mut output = MirrorOutput::default();
    assert!(output.is_empty());
    output.indices = files(&["a/Packages", "a/Index", "a/Sources", "i/installer-x/MD5SUMS", "b/Index", "b/Packages"]);
    assert!(!output.is_empty());
    let diffs = output.take_metadata(&vec![FileKind::DiffIndex]);
    assert_eq!(names(&diffs), vec!["b/Index", "a/Index"]);
    assert_eq!(names(&output.indices), vec!["a/Packages", "b/Packages", "a/Sources", "i/installer-x/MD5SUMS"]);
    let packages = output.take_metadata(&vec![FileKind::Packages, FileKind::Sources]);
    assert_eq!(names(&packages), vec!["a/Sources", "b/Packages", "a/Packages"]);
    assert_eq!(names(&output.indices), vec!["i/installer-x/MD5SUMS"]);
    assert!(output.take_metadata(&vec![FileKind::Packages]).is_empty());
    let sums = output.take_metadata(&vec![FileKind::SumFile]);
    assert_eq!(sums.len(), 1);
    assert!(output.is_empty());
}

#[test]
fn files_that_are_not_there_are_dropped() {
    let kept = verify_and_prune(files(&["a", "b", "c", "d"]), &vec![true, false, true, false]);
    assert_eq!(names(&kept), vec!["a", "c"]);
    assert!(verify_and_prune(Vec::new(), &Vec::new()).is_empty());
}

#[test]
fn the_release_files_go_to_the_staging_directory() {
    let r = repo();
    let urls = r.release_urls();
    let d = release_download(&r, urls[0].clone());
    assert_eq!(d.url, "http://h.org/debian/dists/bookworm/InRelease");
    assert_eq!(d.primary_target_path.as_str(), "/out/.tmp/h.org_debian_bookworm/dists/bookworm/InRelease");
    assert_eq!(d.size, None);
    assert_eq!(d.checksum, None);
    assert!(d.always_download);
    assert!(d.symlink_paths.is_empty());
}

#[test]
fn the_manifest_is_the_first_release_file_that_is_there() {
    let fetched = paths(&["t/InRelease", "t/Release", "t/Release.gpg"]);
    assert!(matches!(get_release_file(&fetched, &vec![true, true, true]), Ok(0)));
    assert!(matches!(get_release_file(&fetched, &vec![false, true, true]), Ok(1)));
    assert!(matches!(get_release_file(&fetched, &vec![false, false, true]), Err(MirsError::NoReleaseFile)));
    assert!(matches!(get_release_file(&Vec::new(), &Vec::new()), Err(MirsError::NoReleaseFile)));
    assert!(matches!(get_release_file(&fetched, &vec![true]), Ok(0)));
    assert!(matches!(get_release_file(&fetched, &Vec::new()), Err(MirsError::NoReleaseFile)));
}

#[test]
fn the_signature_is_inline_or_detached() {
    assert_eq!(
        plan_signature(&paths(&["t/Release", "t/InRelease", "t/Release.gpg"])).unwrap(),
        SignaturePlan::Inline(1)
    );
    assert_eq!(
        plan_signature(&paths(&["t/Release.gpg", "t/Release"])).unwrap(),
        SignaturePlan::Detached { release: 1, signature: 0 }
    );
    assert!(matches!(plan_signature(&paths(&["t/Release"])), Err(MirsError::PgpNotSupported)));
    assert!(matches!(plan_signature(&paths(&["t/Release.gpg"])), Err(MirsError::PgpNotSupported)));
    assert!(matches!(plan_signature(&Vec::new()), Err(MirsError::PgpNotSupported)));
}

#[test]
fn the_key_of_the_target_comes_before_the_key_store() {
    let plain = repo();
    assert_eq!(key_source(false, &plain), None);
    assert_eq!(key_source(true, &plain), Some(KeySource::KeyStore));
    let keyed = Repository::build(&opts("deb [pgp_pub_key=k] http://h.org s main"), &FilePath::new("o")).unwrap();
    assert_eq!(key_source(true, &keyed), Some(KeySource::Repository));
    assert_eq!(key_source(false, &keyed), None);
}

#[test]
fn an_unchanged_release_ends_the_run_and_commits_nothing() {
    let old = Checksum::Sha512([7; 64]);
    let new = Checksum::Sha512([7; 64]);
    assert!(release_unchanged(&Some(old), &new, false));
    let outcome = release_outcome(true);
    match outcome {
        StepResult::End(result) => {
            assert!(matches!(result, MirrorResult::ReleaseUnchanged));
            assert_eq!(result.finalization(), Finalization::Discard);
            assert!(result.is_success());
        }
        StepResult::Continue => panic!("the run must end"),
    }
    let steps = create_steps(&opts("deb http://x s main"));
    let action = advance(&steps, 0, StepEvent::End(MirrorResult::ReleaseUnchanged), &MirrorOutput::default());
    assert!(matches!(action, RunAction::Finish(MirrorResult::ReleaseUnchanged)));
}

#[test]
fn a_release_is_new_unless_its_checksum_is_the_old_one() {
    let new = Checksum::Sha512([7; 64]);
    assert!(!release_unchanged(&None, &new, false));
    assert!(!release_unchanged(&Some(Checksum::Sha512([8; 64])), &new, false));
    assert!(!release_unchanged(&Some(Checksum::Sha256([7; 32])), &new, false));
    assert!(!release_unchanged(&Some(new), &new, true));
    assert!(matches!(release_outcome(false), StepResult::Continue));
}

#[test]
fn a_manifest_that_cannot_be_read_is_an_invalid_release_file() {
    let o = opts("deb http://x s main");
    assert!(read_release("Origin: x\n", &o).is_ok());
    match read_release("Bad:\n", &o) {
        Err(MirsError::InvalidReleaseFile { inner }) => {
            assert!(matches!(*inner, MirsError::ParsingRelease { line } if line == "Bad:"))
        }
        other => panic!("unexpected: {:?}", other.map(|_| ())),
    }
}

#[test]
fn components_that_the_manifest_does_not_offer() {
    let requested = vec!["main".to_string(), "contrib".to_string(), "non-free".to_string()];
    assert_eq!(missing_components("main updates/non-free", &requested), vec!["contrib"]);
    assert_eq!(missing_components("", &requested), vec!["main", "contrib", "non-free"]);
    assert!(missing_components("main contrib non-free extra", &requested).is_empty());
}

fn entry() -> FileEntry {
    FileEntry { size: 5, md5: None, sha1: None, sha256: Some([3; 32]), sha512: None }
}

#[test]
fn where_a_file_of_the_manifest_comes_from_and_goes() {
    let r = repo();
    let file = MetadataFile::from("main/binary-amd64/Packages.gz".to_string());
    let p = metadata_paths(&r, &file, &entry());
    assert_eq!(p.url, "http://h.org/debian/dists/bookworm/main/binary-amd64/Packages.gz");
    assert_eq!(
        p.in_tmp.as_str(),
        "/out/.tmp/h.org_debian_bookworm/dists/bookworm/main/binary-amd64/Packages.gz"
    );
    assert_eq!(p.in_root.as_str(), "/out/h.org/debian/dists/bookworm/main/binary-amd64/Packages.gz");
    assert_eq!(
        p.checksum_path.as_ref().map(|v| v.as_str().to_string()),
        Some(format!(
            "/out/h.org/debian/dists/bookworm/main/binary-amd64/by-hash/SHA256/{}",
            "03".repeat(32)
        ))
    );
    let bare = FileEntry { size: 5, md5: None, sha1: None, sha256: None, sha512: None };
    assert_eq!(metadata_paths(&r, &file, &bare).checksum_path, None);
}

#[test]
fn a_file_of_the_manifest_is_fetched_unless_it_is_in_place() {
    let r = repo();
    let file = MetadataFile::from("main/binary-amd64/Packages.gz".to_string());
    let p = metadata_paths(&r, &file, &entry());
    let probe = |in_tmp, in_root, checksum| MetadataProbe { in_tmp, in_root, checksum };
    assert_eq!(metadata_action(&file, &p, probe(false, false, false), false), MetadataAction::Fetch);
    assert_eq!(metadata_action(&file, &p, probe(false, true, false), false), MetadataAction::Fetch);
    assert_eq!(metadata_action(&file, &p, probe(false, false, true), false), MetadataAction::Fetch);
    assert_eq!(metadata_action(&file, &p, probe(false, true, true), false), MetadataAction::Skip);
    assert_eq!(metadata_action(&file, &p, probe(false, true, true), true), MetadataAction::Fetch);
    let sums = MetadataFile::from("main/installer-amd64/current/images/SHA256SUMS".to_string());
    let sp = metadata_paths(&r, &sums, &entry());
    assert_eq!(metadata_action(&sums, &sp, probe(false, true, false), false), MetadataAction::Skip);
    assert_eq!(metadata_action(&sums, &sp, probe(false, true, false), true), MetadataAction::Fetch);
    let bare = FileEntry { size: 5, md5: None, sha1: None, sha256: None, sha512: None };
    let bp = metadata_paths(&r, &file, &bare);
    assert_eq!(metadata_action(&file, &bp, probe(false, true, true), false), MetadataAction::Fetch);
}

#[test]
fn a_manifest_that_lists_itself_is_passed_over() {
    let r = repo();
    let inrelease = MetadataFile::from("InRelease".to_string());
    let p = metadata_paths(&r, &inrelease, &entry());
    let probe = |in_tmp| MetadataProbe { in_tmp, in_root: false, checksum: false };
    assert_eq!(metadata_action(&inrelease, &p, probe(false), false), MetadataAction::Ignore);
    let release = MetadataFile::from("Release".to_string());
    let p = metadata_paths(&r, &release, &entry());
    assert_eq!(metadata_action(&release, &p, probe(true), false), MetadataAction::Ignore);
    assert_eq!(metadata_action(&release, &p, probe(false), false), MetadataAction::Fetch);
}

#[test]
fn the_request_for_a_file_of_the_manifest() {
    let r = repo();
    let file = MetadataFile::from("main/binary-amd64/Packages.gz".to_string());
    let p = metadata_paths(&r, &file, &entry());
    let staged = p.in_tmp.as_str().to_string();
    let (d, index) = metadata_request(&r, p, file, entry(), true).unwrap();
    assert_eq!(d.url, "http://h.org/debian/dists/bookworm/main/binary-amd64/Packages.gz");
    assert_eq!(
        d.primary_target_path.as_str(),
        format!(
            "/out/.tmp/h.org_debian_bookworm/dists/bookworm/main/binary-amd64/by-hash/SHA256/{}",
            "03".repeat(32)
        )
    );
    assert_eq!(d.symlink_paths, vec![FilePath::new(&staged)]);
    assert_eq!(d.size, Some(5));
    let index = index.unwrap();
    assert_eq!(index.kind(), FileKind::Packages);
    assert_eq!(index.path().as_str(), staged);

    let sums = MetadataFile::from("main/installer-amd64/current/images/SHA256SUMS".to_string());
    let sp = metadata_paths(&r, &sums, &entry());
    let staged = sp.in_tmp.as_str().to_string();
    let (d, index) = metadata_request(&r, sp, sums, entry(), true).unwrap();
    assert_eq!(d.primary_target_path.as_str(), staged);
    assert!(d.symlink_paths.is_empty());
    assert_eq!(index.unwrap().kind(), FileKind::SumFile);

    let other = MetadataFile::from("main/i18n/Translation-en".to_string());
    let op = metadata_paths(&r, &other, &entry());
    let (d, index) = metadata_request(&r, op, other, entry(), false).unwrap();
    assert!(d.symlink_paths.is_empty());
    assert!(index.is_none());
}

#[test]
fn how_the_metadata_step_ends() {
    let mut files = ProgressPart::new();
    files.inc_total(3);
    files.inc_success(3);
    assert!(matches!(metadata_outcome(&files, false, true), Ok(StepResult::Continue)));
    assert!(matches!(
        metadata_outcome(&files, true, true),
        Ok(StepResult::End(MirrorResult::IrrelevantChanges))
    ));
    assert!(matches!(
        metadata_outcome(&files, true, false),
        Ok(StepResult::End(MirrorResult::ReleaseUnchangedButIncomplete))
    ));
    let mut failed = ProgressPart::new();
    failed.inc_total(3);
    failed.inc_success(2);
    failed.inc_failed(1);
    match metadata_outcome(&failed, false, true) {
        Err(MirsError::InconsistentRepository { progress }) => assert_eq!(progress, failed),
        other => panic!("unexpected: {:?}", other),
    }
    assert!(matches!(metadata_outcome(&failed, true, false), Err(MirsError::InconsistentRepository { .. })));
}

#[test]
fn a_file_of_a_diff_index_lies_beside_the_index() {
    let r = repo();
    let index = FilePath::new("/out/.tmp/h.org_debian_bookworm/dists/bookworm/main/binary-amd64/Packages.diff/Index");
    let entry = IndexFileEntry {
        path: "2024-01-01-0000.00.gz".to_string(),
        size: Some(9),
        checksum: Some(Checksum::Sha256([1; 32])),
    };
    let d = diff_download(&r, &index, entry).unwrap();
    assert_eq!(
        d.url,
        "http://h.org/debian//dists/bookworm/main/binary-amd64/Packages.diff/2024-01-01-0000.00.gz"
    );
    assert_eq!(
        d.primary_target_path.as_str(),
        "/out/h.org/debian/dists/bookworm/main/binary-amd64/Packages.diff/2024-01-01-0000.00.gz"
    );
    assert_eq!(d.size, Some(9));
    assert_eq!(d.checksum, Some(Checksum::Sha256([1; 32])));
    assert!(!d.always_download);
    let elsewhere = IndexFileEntry { path: "x".to_string(), size: None, checksum: None };
    assert!(diff_download(&r, &FilePath::new("/elsewhere/Index"), elsewhere).is_none());
    let no_dir = IndexFileEntry { path: "x".to_string(), size: None, checksum: None };
    assert!(diff_download(&r, &FilePath::new("Index"), no_dir).is_none());
}

#[test]
fn the_three_release_files_are_asked_for_and_counted() {
    let r = repo();
    let mut progress = Progress::new();
    let requests = release_downloads(&r, &mut progress);
    let urls: Vec<&str> = requests.iter().map(|d| d.url.as_str()).collect();
    assert_eq!(
        urls,
        vec![
            "http://h.org/debian/dists/bookworm/InRelease",
            "http://h.org/debian/dists/bookworm/Release",
            "http://h.org/debian/dists/bookworm/Release.gpg"
        ]
    );
    for d in &requests {
        assert!(d.always_download);
        assert_eq!(d.size, None);
        assert_eq!(d.checksum, None);
        assert!(d.symlink_paths.is_empty());
        assert_eq!(d.primary_target_path, r.to_path_in_tmp(&d.url));
    }
    assert_eq!(progress.files.total(), 3);
    assert_eq!(progress.bytes.total(), 0);
    assert_eq!(progress.files.remaining(), 3);
}

#[test]
fn a_release_file_that_could_not_be_fetched_is_passed_over() {
    let files = paths(&["t/InRelease", "t/Release", "t/Release.gpg"]);
    assert_eq!(fetched_files(&files, &vec![false, true, true]), paths(&["t/Release", "t/Release.gpg"]));
    assert_eq!(fetched_files(&files, &vec![true, false, false]), paths(&["t/InRelease"]));
    assert!(fetched_files(&files, &vec![false, false, false]).is_empty());
}

#[test]
fn the_counts_of_a_step_go_into_the_totals() {
    let mut files = ProgressPart::new();
    files.inc_total(10);
    files.inc_success(6);
    files.inc_skipped(1);
    files.inc_failed(3);
    let mut bytes = ProgressPart::new();
    bytes.inc_success(500);
    let mut output = MirrorOutput::default();
    output.close_step(MirrorStep::Release, &files, &bytes);
    assert_eq!(
        (output.total_bytes_downloaded, output.total_packages_downloaded, output.total_files_failed),
        (500, 0, 0)
    );
    output.close_step(MirrorStep::Diffs, &files, &bytes);
    assert_eq!(
        (output.total_bytes_downloaded, output.total_packages_downloaded, output.total_files_failed),
        (1000, 0, 3)
    );
    output.close_step(MirrorStep::Packages, &files, &bytes);
    assert_eq!(
        (output.total_bytes_downloaded, output.total_packages_downloaded, output.total_files_failed),
        (1500, 6, 6)
    );
    bytes.inc_success(u64::MAX);
    output.total_files_failed = u64::MAX;
    output.close_step(MirrorStep::DebianInstaller, &files, &bytes);
    assert_eq!(output.total_files_failed, u64::MAX);
}

#[test]
fn a_run_with_failed_files_counts_as_failed() {
    let new = MirrorResult::NewRelease { total_download_size: 1, num_packages_downloaded: 1 };
    assert!(!run_failed(&new, 0));
    assert!(run_failed(&new, 1));
    assert!(!run_failed(&MirrorResult::ReleaseUnchanged, 0));
    assert!(!run_failed(&MirrorResult::IrrelevantChanges, 0));
    assert!(run_failed(&MirrorResult::Error(MirsError::NoReleaseFile), 0));
    assert!(exit_ok(&vec![false, false]));
    assert!(exit_ok(&Vec::new()));
    assert!(!exit_ok(&vec![false, true, false]));
}

#[test]
fn a_commit_removes_first_then_moves_then_clears_the_staging() {
    let actions = commit_actions(
        &paths(&["/out/r/old-a", "/out/r/old-b", "/out/r/old-c"]),
        &vec![true, false, true],
        &FilePath::new("/out/.tmp/h_s"),
        &FilePath::new("/out/r"),
    );
    assert_eq!(actions.len(), 4);
    assert!(matches!(&actions[0], CommitAction::Remove(p) if p.as_str() == "/out/r/old-a"));
    assert!(matches!(&actions[1], CommitAction::Remove(p) if p.as_str() == "/out/r/old-c"));
    assert!(matches!(&actions[2], CommitAction::MoveStaged { from, to }
        if from.as_str() == "/out/.tmp/h_s" && to.as_str() == "/out/r"));
    assert!(matches!(&actions[3], CommitAction::RemoveStaging(p) if p.as_str() == "/out/.tmp/h_s"));
}

fn packages_reader(path: &str, text: &str) -> IndexReader {
    MetadataFile::from(path.to_string()).into_reader(text.as_bytes().to_vec()).unwrap()
}

#[test]
fn a_walk_gives_one_request_for_each_entry_of_each_index() {
    let r = repo();
    let first = "Filename: pool/a.deb\nSize: 1\n\nFilename: pool/b.deb\nSize: 2\n\n";
    let second = "Filename: pool/c.deb\nSize: 3\n\n";
    let readers = vec![packages_reader("t/main/Packages", first), packages_reader("t/other/Packages", second)];
    assert_eq!(total_size(&readers), (first.len() + second.len()) as u64);
    let mut walk = IndexWalk::new(readers);
    let mut seen = Vec::new();
    let mut read = Vec::new();
    loop {
        match walk.advance(&r).unwrap() {
            WalkStep::Opened => seen.push("opened".to_string()),
            WalkStep::Closed => seen.push("closed".to_string()),
            WalkStep::Request(dl) => {
                assert_eq!(dl.primary_target_path, r.to_path_in_root(&dl.url));
                assert!(!dl.always_download);
                seen.push(format!("{} {:?}", dl.url, dl.size));
            }
            WalkStep::Done => break,
        }
        read.push(walk.bytes_read());
    }
    assert_eq!(
        seen,
        vec![
            "opened",
            "http://h.org/debian/pool/a.deb Some(1)",
            "http://h.org/debian/pool/b.deb Some(2)",
            "closed",
            "opened",
            "http://h.org/debian/pool/c.deb Some(3)",
            "closed"
        ]
    );
    let (a, b) = (first.len() as u64, second.len() as u64);
    assert_eq!(read, vec![0, a / 2, a, a, a, a + b, a + b]);
    assert!(matches!(walk.advance(&r), Ok(WalkStep::Done)));
    assert!(matches!(IndexWalk::new(Vec::new()).advance(&r), Ok(WalkStep::Done)));
}

#[test]
fn an_error_of_an_index_is_the_error_of_the_walk() {
    let r = repo();
    let mut walk = IndexWalk::new(vec![packages_reader("t/main/Packages", "Filename: f\nSize: x\n\n")]);
    assert!(matches!(walk.advance(&r), Ok(WalkStep::Opened)));
    match walk.advance(&r) {
        Err(MirsError::ParsingPackages { path }) => assert_eq!(path, "t/main/Packages"),
        other => panic!("unexpected: {:?}", other.map(|_| ())),
    }
}
