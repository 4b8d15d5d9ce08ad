use aptmirs::checksum::Checksum;
use aptmirs::cmd::CmdResult;
use aptmirs::cmd::CmdState;
use aptmirs::config::MirrorOpts;
use aptmirs::error::MirsError;
use aptmirs::index::IndexFileEntry;
use aptmirs::metadata_file::MetadataFile;
use aptmirs::path::FilePath;
use aptmirs::progress::Outcome;
use aptmirs::progress::Progress;
use aptmirs::progress::ProgressPart;
use aptmirs::prune::exclude_paths;
use aptmirs::prune::inventory_base_path;
use aptmirs::prune::is_excluded;
use aptmirs::prune::Delete;
use aptmirs::prune::Inventory;
use aptmirs::prune::EntryKind;
use aptmirs::prune::PruneOutput;
use aptmirs::prune::PruneResult;
use aptmirs::repository::Repository;
use aptmirs::release::FileEntry;
use aptmirs::verify::base_path;
use aptmirs::verify::check_outcome;
use aptmirs::verify::Found;
use aptmirs::verify::found_at;
use aptmirs::verify::Verifier;
use aptmirs::verify::Verify;
use aptmirs::verify::VerifyOutput;
use aptmirs::verify::VerifyResult;
use aptmirs::verify::VerifyTask;

#[test]
fn a_check_is_made_of_an_entry_with_checksum() {
    let task = VerifyTask::try_from(IndexFileEntry {
        path: "out/pool/a.deb".to_string(),
        size: Some(4),
        checksum: Some(Checksum::Md5([1; 16])),
    })
    .unwrap();
    assert_eq!(task.size, Some(4));
    assert_eq!(task.checksum, Checksum::Md5([1; 16]));
    assert_eq!(task.paths, vec![FilePath::new("out/pool/a.deb")]);
    match VerifyTask::try_from(IndexFileEntry { path: "p".to_string(), size: None, checksum: None }) {
        Err(MirsError::VerifyTask { path }) => assert_eq!(path, "p"),
        other => panic!("unexpected: {:?}", other),
    }
}

#[test]
fn a_path_is_checked_once() {
    let mut v = Verifier::build();
    let task = |p: &str, size| VerifyTask {
        size,
        checksum: Checksum::Md5([1; 16]),
        paths: vec![FilePath::new(p)],
    };
    assert!(v.queue(&task("a", Some(10))));
    assert!(v.queue(&task("b", None)));
    assert!(!v.queue(&task("a", Some(10))));
    assert!(!v.queue(&task("b", Some(3))));
    assert_eq!(v.progress.files.total(), 2);
    assert_eq!(v.progress.bytes.total(), 10);
}

#[test]
fn what_a_check_comes_to() {
    assert_eq!(found_at(false, false), Found::Missing);
    assert_eq!(found_at(false, true), Found::Missing);
    assert_eq!(found_at(true, true), Found::Intact);
    assert_eq!(found_at(true, false), Found::Corrupt);
    assert_eq!(check_outcome(&vec![found_at(false, false)]), Outcome::Skipped);
    assert_eq!(check_outcome(&vec![found_at(true, true)]), Outcome::Success);
    assert_eq!(check_outcome(&vec![found_at(true, false)]), Outcome::Failed);
}

#[test]
fn the_result_of_a_verifying() {
    let mut files = ProgressPart::new();
    files.inc_total(6);
    files.inc_success(3);
    files.inc_skipped(2);
    files.inc_failed(1);
    let output = VerifyOutput::from_progress(&files);
    assert_eq!(output, VerifyOutput { total_corrupt: 1, total_missing: 2, total_valid: 3 });
    let result = CmdState::finalize(&output);
    assert!(matches!(
        result,
        VerifyResult::Done { valid_files: 3, corrupt_files: 1, missing_files: 2 }
    ));
    assert!(!result.is_success());
    assert!(result.is_failure());
    let clean = VerifyOutput { total_corrupt: 0, total_missing: 4, total_valid: 3 }.finalize();
    assert!(clean.is_success());
    assert!(!VerifyResult::Error(MirsError::NoReleaseFile).is_success());
    assert_eq!(Verify.step_name(), "Verifying");
    assert!(matches!(
        Verify.error(MirsError::NoReleaseFile),
        VerifyResult::Error(MirsError::Verify { .. })
    ));
}

#[test]
fn where_the_files_of_an_index_lie() {
    let root = FilePath::new("/out/h/debian");
    let base = |p: &str| base_path(&MetadataFile::from(p.to_string()), &root).map(|v| v.as_str().to_string());
    assert_eq!(base("/out/h/debian/dists/s/main/binary-amd64/Packages.gz"), Some("/out/h/debian".to_string()));
    assert_eq!(base("/out/h/debian/dists/s/main/source/Sources"), Some("/out/h/debian".to_string()));
    assert_eq!(
        base("/out/h/debian/dists/s/main/binary-amd64/Packages.diff/Index"),
        Some("/out/h/debian/dists/s/main/binary-amd64/Packages.diff".to_string())
    );
    assert_eq!(
        base("/out/h/debian/dists/s/main/installer-amd64/current/images/MD5SUMS"),
        Some("/out/h/debian/dists/s/main/installer-amd64/current/images".to_string())
    );
    assert_eq!(base("/out/h/debian/dists/s/Release"), None);
}

#[test]
fn what_goes_when_a_mirror_is_pruned() {
    let mut output = PruneOutput::new();
    assert!(output.add_valid_file("pool/a.deb"));
    assert!(output.add_valid_file("dists/s/Release"));
    assert!(!output.add_valid_file("pool/a.deb"));
    assert!(!output.should_delete(EntryKind::Regular, "pool/a.deb", 10));
    assert!(output.should_delete(EntryKind::Regular, "pool/b.deb", 10));
    assert!(output.should_delete(EntryKind::Regular, "pool/a.deb", 0));
    assert!(output.should_delete(EntryKind::Link { target_exists: false }, "pool/a.deb", 10));
    assert!(!output.should_delete(EntryKind::Link { target_exists: true }, "pool/a.deb", 10));
    assert!(output.should_delete(EntryKind::Link { target_exists: true }, "pool/c.deb", 10));
    assert!(output.should_delete(EntryKind::Special, "pool/a.deb", 10));
    assert!(output.should_delete(EntryKind::Special, "pool/c.deb", 0));
}

#[test]
fn the_files_of_a_manifest_are_listed_by_every_name() {
    let repo = Repository::build(
        &MirrorOpts::try_from("deb http://h.org/debian s main").unwrap(),
        &FilePath::new("/out"),
    )
    .unwrap();
    let entry = FileEntry { size: 5, md5: Some([1; 16]), sha1: None, sha256: Some([3; 32]), sha512: None };
    let path = FilePath::new("/out/h.org/debian/dists/s/main/binary-amd64/Packages");
    let mut output = PruneOutput::new();
    output.list_path(&repo, "/out/h.org/debian/dists/s/Release");
    output.list_manifest_file(&repo, &path, entry, true).unwrap();
    let by_hash = |kind: &str, hex: String| format!("dists/s/main/binary-amd64/by-hash/{kind}/{hex}");
    for listed in [
        "dists/s/Release".to_string(),
        "dists/s/main/binary-amd64/Packages".to_string(),
        by_hash("SHA256", "03".repeat(32)),
        by_hash("MD5Sum", "01".repeat(16)),
    ] {
        assert!(!output.should_delete(EntryKind::Regular, &listed, 1), "{listed}");
    }
    assert!(output.should_delete(EntryKind::Regular, &by_hash("SHA1", "02".repeat(20)), 1));
    let mut plain = PruneOutput::new();
    plain.list_manifest_file(&repo, &path, entry, false).unwrap();
    assert!(!plain.should_delete(EntryKind::Regular, "dists/s/main/binary-amd64/Packages", 1));
    assert!(plain.should_delete(EntryKind::Regular, &by_hash("SHA256", "03".repeat(32)), 1));
    let bare = FileEntry { size: 5, md5: None, sha1: None, sha256: None, sha512: None };
    assert!(matches!(plain.list_manifest_file(&repo, &path, bare, true), Err(MirsError::NoReleaseFile)));
}

#[test]
fn the_first_path_that_is_not_intact_decides_a_check() {
    assert_eq!(check_outcome(&vec![Found::Intact, Found::Intact]), Outcome::Success);
    assert_eq!(check_outcome(&Vec::new()), Outcome::Success);
    assert_eq!(check_outcome(&vec![Found::Intact, Found::Missing, Found::Corrupt]), Outcome::Skipped);
    assert_eq!(check_outcome(&vec![Found::Corrupt, Found::Missing]), Outcome::Failed);
    let mut v = Verifier::build();
    let task = VerifyTask { size: Some(4), checksum: Checksum::Md5([1; 16]), paths: vec![FilePath::new("a")] };
    assert!(v.queue(&task));
    v.record(check_outcome(&vec![Found::Corrupt]));
    assert_eq!(v.progress.files.failed(), 1);
    assert_eq!(v.progress.files.remaining(), 0);
    assert_eq!(v.progress.bytes.total(), 4);
}

#[test]
fn the_result_of_a_pruning() {
    let mut files = ProgressPart::new();
    files.inc_total(5);
    files.inc_success(2);
    files.inc_skipped(3);
    let mut bytes = ProgressPart::new();
    bytes.inc_success(200);
    bytes.inc_skipped(3000);
    let mut output = PruneOutput::new();
    output.record(&files, &bytes);
    let result = CmdState::finalize(&output);
    assert!(matches!(
        result,
        PruneResult::Pruned { valid_files: 3, valid_bytes: 3000, deleted_files: 2, deleted_bytes: 200 }
    ));
    assert!(!result.is_failure());
    assert!(PruneResult::Error(MirsError::NoReleaseFile).is_failure());
    assert_eq!(Inventory.step_name(), "Taking inventory");
    assert_eq!(Delete.step_name(), "Pruning");
    assert!(matches!(
        Inventory.error(MirsError::NoReleaseFile),
        PruneResult::Error(MirsError::Inventory { .. })
    ));
    assert!(matches!(
        Delete.error(MirsError::NoReleaseFile),
        PruneResult::Error(MirsError::Delete { .. })
    ));
}

#[test]
fn mirrors_inside_a_mirror_are_kept_out_of_its_pruning() {
    let roots: Vec<FilePath> =
        ["/out/h/debian", "/out/h/debian/security", "/out/g", "/out/h/debian"].iter().map(|p| FilePath::new(p)).collect();
    assert_eq!(exclude_paths(&roots, 0), vec![FilePath::new("/out/h/debian/security")]);
    assert!(exclude_paths(&roots, 1).is_empty());
    assert!(exclude_paths(&roots, 2).is_empty());
    let exclude = exclude_paths(&roots, 0);
    assert!(is_excluded("/out/h/debian/security/pool/a.deb", &exclude));
    assert!(is_excluded("/out/h/debian/security", &exclude));
    assert!(!is_excluded("/out/h/debian/pool/a.deb", &exclude));
    assert!(!is_excluded("/out/h/debian/pool/a.deb", &Vec::new()));
}

#[test]
fn under_which_path_the_files_of_an_index_are_listed() {
    let repo = Repository::build(
        &MirrorOpts::try_from("deb http://h.org/debian s main").unwrap(),
        &FilePath::new("/out"),
    )
    .unwrap();
    let base = |p: &str| inventory_base_path(&MetadataFile::from(p.to_string()), &repo).map(|v| v.as_str().to_string());
    assert_eq!(base("/out/h.org/debian/dists/s/main/binary-amd64/Packages"), Some("".to_string()));
    assert_eq!(
        base("/out/h.org/debian/dists/s/main/binary-amd64/Packages.diff/Index"),
        Some("dists/s/main/binary-amd64/Packages.diff".to_string())
    );
    assert_eq!(
        base("/out/h.org/debian/dists/s/main/installer-amd64/current/images/SHA256SUMS"),
        Some("dists/s/main/installer-amd64/current/images".to_string())
    );
    assert_eq!(base("/out/h.org/debian/dists/s/Release"), None);
}

#[test]
fn an_entry_is_judged_and_counted() {
    let mut output = PruneOutput::new();
    output.add_valid_file("pool/a.deb");
    let mut progress = Progress::new();
    assert!(!output.judge(&mut progress, EntryKind::Regular, "pool/a.deb", 10));
    assert!(output.judge(&mut progress, EntryKind::Regular, "pool/b.deb", 7));
    assert!(output.judge(&mut progress, EntryKind::Special, "pool/a.deb", 5));
    assert!(output.judge(&mut progress, EntryKind::Regular, "pool/a.deb", 0));
    assert_eq!(progress.files.total(), 4);
    assert_eq!(progress.files.skipped(), 1);
    assert_eq!(progress.files.success(), 3);
    assert_eq!(progress.files.failed(), 0);
    assert_eq!(progress.bytes.skipped(), 10);
    assert_eq!(progress.bytes.success(), 12);
    output.record(&progress.files, &progress.bytes);
    assert!(matches!(
        output.finalize(),
        PruneResult::Pruned { valid_files: 1, valid_bytes: 10, deleted_files: 3, deleted_bytes: 12 }
    ));
}

#[test]
fn the_check_of_a_file_of_the_manifest() {
    let path = FilePath::new("/out/h.org/debian/dists/s/main/binary-amd64/Packages");
    let entry = FileEntry { size: 5, md5: Some([1; 16]), sha1: None, sha256: Some([3; 32]), sha512: None };
    let task = VerifyTask::of_manifest_file(&path, entry, false).unwrap();
    assert_eq!(task.size, Some(5));
    assert_eq!(task.checksum, Checksum::Sha256([3; 32]));
    assert_eq!(task.paths, vec![path.clone()]);
    let task = VerifyTask::of_manifest_file(&path, entry, true).unwrap();
    assert_eq!(task.checksum, Checksum::Sha256([3; 32]));
    assert_eq!(
        task.paths,
        vec![FilePath::new(&format!(
            "/out/h.org/debian/dists/s/main/binary-amd64/by-hash/SHA256/{}",
            "03".repeat(32)
        ))]
    );
    let bare = FileEntry { size: 5, md5: None, sha1: None, sha256: None, sha512: None };
    assert!(matches!(VerifyTask::of_manifest_file(&path, bare, true), Err(MirsError::NoReleaseFile)));
    match VerifyTask::of_manifest_file(&path, bare, false) {
        Err(MirsError::VerifyTask { path: p }) => assert_eq!(p, path.as_str()),
        other => panic!("unexpected: {:?}", other),
    }
}
