use aptmirs::checksum::Checksum;
use aptmirs::download::absent_error;
use aptmirs::download::is_absent;
use aptmirs::download::needs_downloading;
use aptmirs::download::plan_fetch;
use aptmirs::download::plan_links;
use aptmirs::download::record_bytes;
use aptmirs::download::record_outcome;
use aptmirs::download::record_queued;
use aptmirs::download::record_result;
use aptmirs::download::symlink_target;
use aptmirs::download::Download;
use aptmirs::download::FetchAction;
use aptmirs::download::Transfer;
use aptmirs::error::MirsError;
use aptmirs::path::FilePath;
use aptmirs::progress::Progress;

const SHA256_ABC: &str = "ba7816bf8f01cfea414140de5dae2223b00361a396177a9cb410ff61f20015ad";

fn download(size: Option<u64>, checksum: Option<Checksum>, always: bool) -> Download {
    Download {
        url: "http://x/pool/p_1.0.deb".to_string(),
        size,
        checksum,
        primary_target_path: FilePath::new("out/pool/p_1.0.deb"),
        symlink_paths: Vec::new(),
        always_download: always,
    }
}

#[test]
fn a_file_in_place_is_not_fetched_again() {
    assert!(!needs_downloading(&download(Some(10), None, false), Some(10)));
    assert!(needs_downloading(&download(Some(10), None, false), Some(9)));
    assert!(needs_downloading(&download(Some(10), None, false), None));
    assert!(!needs_downloading(&download(None, None, false), Some(3)));
    assert!(needs_downloading(&download(None, None, false), None));
    assert!(needs_downloading(&download(Some(10), None, true), Some(10)));
    assert!(needs_downloading(&download(None, None, true), Some(0)));
}

#[test]
fn an_empty_file_needs_no_request() {
    assert_eq!(plan_fetch(&download(Some(0), None, false), None), FetchAction::CreateEmpty);
    assert_eq!(plan_fetch(&download(Some(0), None, false), Some(0)), FetchAction::Keep);
    assert_eq!(plan_fetch(&download(Some(0), None, true), Some(0)), FetchAction::CreateEmpty);
    assert_eq!(plan_fetch(&download(Some(5), None, false), None), FetchAction::Fetch);
    assert_eq!(plan_fetch(&download(None, None, false), None), FetchAction::Fetch);
    assert_eq!(plan_fetch(&download(Some(5), None, false), Some(5)), FetchAction::Keep);
}

#[test]
fn a_file_that_is_not_there_is_a_download_error() {
    assert!(is_absent(404));
    assert!(!is_absent(200));
    assert!(!is_absent(500));
    match absent_error(&download(None, None, false), 404) {
        MirsError::Download { url, status_code } => {
            assert_eq!(url, "http://x/pool/p_1.0.deb");
            assert_eq!(status_code, 404);
        }
        other => panic!("unexpected: {:?}", other),
    }
}

#[test]
fn a_body_of_the_expected_checksum_is_accepted() {
    let dl = download(Some(3), Some(Checksum::try_from(SHA256_ABC).unwrap()), false);
    let mut t = Transfer::begin(&dl);
    t.chunk(b"ab");
    t.chunk(b"c");
    assert_eq!(t.bytes(), 3);
    assert!(t.finish(&dl.url).is_ok());
    let dl = download(None, None, false);
    let mut t = Transfer::begin(&dl);
    t.chunk(b"anything");
    assert_eq!(t.bytes(), 8);
    assert!(t.finish(&dl.url).is_ok());
}

#[test]
fn a_body_of_another_checksum_is_refused_and_counted_as_failed() {
    let declared = "aa".repeat(32);
    let dl = download(Some(3), Some(Checksum::try_from(&declared).unwrap()), false);
    let mut progress = Progress::new();
    record_queued(&mut progress, dl.size);
    let mut t = Transfer::begin(&dl);
    t.chunk(b"abc");
    record_bytes(&mut progress, 3);
    match t.finish(&dl.url) {
        Err(MirsError::Checksum { url, expected, hash }) => {
            assert_eq!(url, "http://x/pool/p_1.0.deb");
            assert_eq!(expected, declared);
            assert_eq!(hash, SHA256_ABC);
        }
        other => panic!("unexpected: {:?}", other),
    }
    record_outcome(&mut progress, dl.size, None, false);
    assert_eq!(progress.files.total(), 1);
    assert_eq!(progress.files.failed(), 1);
    assert_eq!(progress.files.success(), 0);
    assert_eq!(progress.files.skipped(), 0);
    assert_eq!(progress.files.remaining(), 0);
    assert!(progress.is_complete());
}

#[test]
fn each_outcome_is_counted_once() {
    let mut progress = Progress::new();
    for size in [Some(10), None, Some(7), Some(5)] {
        record_queued(&mut progress, size);
    }
    assert_eq!(progress.files.total(), 4);
    assert_eq!(progress.bytes.total(), 22);
    assert_eq!(progress.files.remaining(), 4);
    assert!(!progress.is_complete());
    record_outcome(&mut progress, Some(10), Some(true), false);
    record_outcome(&mut progress, None, Some(false), false);
    record_outcome(&mut progress, Some(7), None, true);
    assert_eq!(progress.files.remaining(), 1);
    record_outcome(&mut progress, Some(5), None, false);
    assert_eq!(progress.files.success(), 1);
    assert_eq!(progress.files.skipped(), 1);
    assert_eq!(progress.files.failed(), 2);
    assert_eq!(
        progress.files.total(),
        progress.files.success() + progress.files.skipped() + progress.files.failed()
    );
    assert_eq!(progress.bytes.skipped(), 7);
    assert!(progress.is_complete());
}

#[test]
fn a_link_points_from_its_directory_to_the_file() {
    let primary = FilePath::new("out/dists/s/main/binary-amd64/by-hash/SHA256/abcd");
    assert_eq!(
        symlink_target(&primary, &FilePath::new("out/dists/s/main/binary-amd64/Packages.gz")),
        Some("by-hash/SHA256/abcd".to_string())
    );
    assert_eq!(
        symlink_target(&primary, &FilePath::new("out/dists/s/main/binary-amd64/by-hash/MD5Sum/ef")),
        Some("../SHA256/abcd".to_string())
    );
    assert_eq!(symlink_target(&primary, &FilePath::new("Packages")), None);
    assert_eq!(
        symlink_target(&FilePath::new("/a/b"), &FilePath::new("/a/c/d")),
        Some("../b".to_string())
    );
}

#[test]
fn links_are_made_where_nothing_stands() {
    let mut dl = download(None, None, false);
    dl.primary_target_path = FilePath::new("out/d/by-hash/SHA256/ab");
    dl.symlink_paths = vec![
        FilePath::new("out/d/Packages"),
        FilePath::new("out/d/by-hash/MD5Sum/cd"),
        FilePath::new("out/d/by-hash/SHA1/ef"),
    ];
    let links = plan_links(&dl, &vec![false, true, false]).unwrap();
    assert_eq!(links.len(), 2);
    assert_eq!(links[0].path.as_str(), "out/d/Packages");
    assert_eq!(links[0].target, "by-hash/SHA256/ab");
    assert_eq!(links[1].path.as_str(), "out/d/by-hash/SHA1/ef");
    assert_eq!(links[1].target, "../SHA256/ab");
    assert!(plan_links(&dl, &vec![true, true, true]).unwrap().is_empty());
    dl.symlink_paths = vec![FilePath::new("Packages")];
    assert!(plan_links(&dl, &vec![false]).is_none());
    assert!(plan_links(&dl, &vec![true]).unwrap().is_empty());
}

#[test]
fn the_result_of_a_download_is_counted_by_its_kind() {
    let mut progress = Progress::new();
    for _ in 0..4 {
        record_queued(&mut progress, Some(10));
    }
    record_result(&mut progress, Some(10), &Ok(true));
    record_result(&mut progress, Some(10), &Ok(false));
    record_result(
        &mut progress,
        Some(10),
        &Err(MirsError::Download { url: "u".to_string(), status_code: 404 }),
    );
    record_result(
        &mut progress,
        Some(10),
        &Err(MirsError::Checksum { url: "u".to_string(), expected: "a".to_string(), hash: "b".to_string() }),
    );
    assert_eq!(progress.files.success(), 1);
    assert_eq!(progress.files.skipped(), 1);
    assert_eq!(progress.files.failed(), 2);
    assert_eq!(progress.bytes.skipped(), 10);
    assert_eq!(progress.bytes.total(), 40);
    assert!(progress.is_complete());
}
