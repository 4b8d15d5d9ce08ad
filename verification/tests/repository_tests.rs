use aptmirs::checksum::Checksum;
use aptmirs::config::MirrorOpts;
use aptmirs::error::MirsError;
use aptmirs::index::IndexFileEntry;
use aptmirs::path::FilePath;
use aptmirs::release::FileEntry;
use aptmirs::repository::check_staging;
use aptmirs::repository::sanitize_path_part;
use aptmirs::repository::Probe;
use aptmirs::repository::Repository;
use aptmirs::text::chars_of;
use aptmirs::text::string_of;

fn repo(line: &str) -> Repository {
    Repository::build_with_tmp(&MirrorOpts::try_from(line).unwrap(), &FilePath::new("/srv/mirror")).unwrap()
}

#[test]
fn a_repository_lies_under_host_and_path() {
    let r = repo("deb http://deb.debian.org/debian bookworm main");
    assert_eq!(r.root_url, "http://deb.debian.org/debian");
    assert_eq!(r.dist_url, "http://deb.debian.org/debian/dists/bookworm");
    assert_eq!(r.root_dir.as_str(), "/srv/mirror/deb.debian.org/debian");
    assert_eq!(r.tmp_dir.as_str(), "/srv/mirror/.tmp/deb.debian.org_debian_bookworm");
    assert!(!r.has_specified_pgp_key());
}

#[test]
fn the_path_of_the_url_is_sanitized_for_the_staging_directory() {
    let r = repo("deb http://example.org/a/b/c stable main");
    assert_eq!(r.root_dir.as_str(), "/srv/mirror/example.org/a/b/c");
    assert_eq!(r.tmp_dir.as_str(), "/srv/mirror/.tmp/example.org_a_b_c_stable");
    assert_eq!(string_of(&sanitize_path_part(&chars_of("/a/b/c"))), "_a_b_c");
    assert_eq!(string_of(&sanitize_path_part(&chars_of(""))), "");
}

#[test]
fn a_url_without_path_has_the_root_as_path() {
    let r = repo("deb http://example.org bookworm main");
    assert_eq!(r.root_dir.as_str(), "/srv/mirror/example.org/");
    assert_eq!(r.tmp_dir.as_str(), "/srv/mirror/.tmp/example.org_bookworm");
}

#[test]
fn without_a_run_there_is_no_staging_directory() {
    let opts = MirrorOpts::try_from("deb [pgp_pub_key=/k.asc] http://example.org/debian bookworm main").unwrap();
    let r = Repository::build(&opts, &FilePath::new("out")).unwrap();
    assert_eq!(r.tmp_dir.as_str(), "");
    assert_eq!(r.root_dir.as_str(), "out/example.org/debian");
    assert!(r.has_specified_pgp_key());
}

#[test]
fn what_is_no_url_is_refused() {
    for line in ["deb not-a-url bookworm main", "deb mailto:a@b.c bookworm main", "deb /http://x s"] {
        let opts = MirrorOpts::try_from(line).unwrap();
        let expected = opts.url.strip_prefix('/').unwrap_or(&opts.url).to_string();
        if line.starts_with("deb /http") {
            assert!(Repository::build(&opts, &FilePath::new("out")).is_ok());
            continue;
        }
        match Repository::build(&opts, &FilePath::new("out")) {
            Err(MirsError::UrlParsing { url }) => assert_eq!(url, expected),
            other => panic!("unexpected: {:?}", other),
        }
    }
}

#[test]
fn a_flat_repository_has_its_release_files_at_the_root() {
    let r = repo("deb http://example.org/flat /");
    assert_eq!(r.dist_url, "http://example.org/flat");
    let urls = r.release_urls();
    assert_eq!(urls[0], "http://example.org/flat/InRelease");
    assert_eq!(urls[1], "http://example.org/flat/Release");
    assert_eq!(urls[2], "http://example.org/flat/Release.gpg");
}

#[test]
fn the_release_files_lie_under_the_suite() {
    let r = repo("deb http://deb.debian.org/debian bookworm main");
    let urls = r.release_urls();
    assert_eq!(urls[0], "http://deb.debian.org/debian/dists/bookworm/InRelease");
    assert_eq!(urls[1], "http://deb.debian.org/debian/dists/bookworm/Release");
    assert_eq!(urls[2], "http://deb.debian.org/debian/dists/bookworm/Release.gpg");
}

#[test]
fn a_staging_directory_that_is_there_stops_the_run() {
    let r = repo("deb http://deb.debian.org bookworm main");
    assert_eq!(r.tmp_dir.as_str(), "/srv/mirror/.tmp/deb.debian.org_bookworm");
    match check_staging(&r.tmp_dir, Probe::Present) {
        Err(MirsError::Tmp { msg }) => assert_eq!(
            msg,
            "tmp folder already exists for this repository. aptmirs is probably currently running. if it is not, delete /srv/mirror/.tmp/deb.debian.org_bookworm"
        ),
        other => panic!("unexpected: {:?}", other),
    }
    assert!(check_staging(&r.tmp_dir, Probe::Missing).is_ok());
    match check_staging(&r.tmp_dir, Probe::Failed("permission denied".to_string())) {
        Err(MirsError::Tmp { msg }) => assert_eq!(msg, "permission denied"),
        other => panic!("unexpected: {:?}", other),
    }
}

#[test]
fn urls_and_paths_map_onto_each_other() {
    let r = repo("deb http://deb.debian.org/debian bookworm main");
    let url = r.to_url_in_dist("main/binary-amd64/Packages.gz");
    assert_eq!(url, "http://deb.debian.org/debian/dists/bookworm/main/binary-amd64/Packages.gz");
    assert_eq!(
        r.to_path_in_tmp(&url).as_str(),
        "/srv/mirror/.tmp/deb.debian.org_debian_bookworm/dists/bookworm/main/binary-amd64/Packages.gz"
    );
    assert_eq!(
        r.to_path_in_root(&url).as_str(),
        "/srv/mirror/deb.debian.org/debian/dists/bookworm/main/binary-amd64/Packages.gz"
    );
    assert_eq!(r.to_url_in_root("pool/a.deb"), "http://deb.debian.org/debian/pool/a.deb");
    assert_eq!(
        r.rebase_rel_to_root("pool/a.deb").as_str(),
        "/srv/mirror/deb.debian.org/debian/pool/a.deb"
    );
}

#[test]
fn paths_of_the_staging_directory_and_of_the_mirror() {
    let r = repo("deb http://deb.debian.org/debian bookworm main");
    let staged = "/srv/mirror/.tmp/deb.debian.org_debian_bookworm/dists/bookworm/Release";
    assert_eq!(r.rel_from_tmp(staged), "/dists/bookworm/Release");
    assert_eq!(
        r.tmp_to_root(staged).unwrap().as_str(),
        "/srv/mirror/deb.debian.org/debian/dists/bookworm/Release"
    );
    assert_eq!(r.tmp_to_root("/elsewhere/Release"), None);
    assert_eq!(r.strip_tmp_base(staged).unwrap().as_str(), "dists/bookworm/Release");
    assert_eq!(r.strip_tmp_base("/elsewhere/Release"), None);
    assert_eq!(r.strip_tmp_base("/srv/mirror/.tmp/deb.debian.org_debian_bookworm"), None);
    assert_eq!(r.strip_root("/srv/mirror/deb.debian.org/debian/pool/a.deb"), "pool/a.deb");
    assert_eq!(r.strip_root("/srv/mirror/deb.debian.org/debian"), "");
    assert_eq!(r.strip_root("/elsewhere/a.deb"), "/elsewhere/a.deb");
}

#[test]
fn a_file_of_an_index_goes_to_its_place_in_the_mirror() {
    let r = repo("deb http://deb.debian.org/debian bookworm main");
    let checksum = Checksum::Sha256([9; 32]);
    let d = r.create_file_download(IndexFileEntry {
        path: "pool/main/a/a_1.0.deb".to_string(),
        size: Some(10),
        checksum: Some(checksum),
    });
    assert_eq!(d.url, "http://deb.debian.org/debian/pool/main/a/a_1.0.deb");
    assert_eq!(d.size, Some(10));
    assert_eq!(d.checksum, Some(checksum));
    assert_eq!(d.primary_target_path.as_str(), "/srv/mirror/deb.debian.org/debian/pool/main/a/a_1.0.deb");
    assert!(d.symlink_paths.is_empty());
    assert!(!d.always_download);
}

#[test]
fn a_raw_download_is_always_fetched() {
    let r = repo("deb http://deb.debian.org/debian bookworm main");
    let d = r.create_raw_download(FilePath::new("t/x"), "http://u/x".to_string(), None);
    assert_eq!(d.url, "http://u/x");
    assert_eq!(d.size, None);
    assert_eq!(d.checksum, None);
    assert_eq!(d.primary_target_path.as_str(), "t/x");
    assert!(d.symlink_paths.is_empty());
    assert!(d.always_download);
}

#[test]
fn a_file_of_the_manifest_with_and_without_by_hash() {
    let r = repo("deb http://deb.debian.org/debian bookworm main");
    let entry = FileEntry { size: 5, md5: Some([1; 16]), sha1: None, sha256: Some([3; 32]), sha512: None };
    let d = r
        .create_metadata_download("http://u/Packages".to_string(), FilePath::new("t/m/Packages"), entry, false)
        .unwrap();
    assert_eq!(d.size, Some(5));
    assert_eq!(d.checksum, Some(Checksum::Sha256([3; 32])));
    assert_eq!(d.primary_target_path.as_str(), "t/m/Packages");
    assert!(d.symlink_paths.is_empty());
    assert!(!d.always_download);
    let d = r
        .create_metadata_download("http://u/Packages".to_string(), FilePath::new("t/m/Packages"), entry, true)
        .unwrap();
    assert_eq!(d.url, "http://u/Packages");
    assert_eq!(d.primary_target_path.as_str(), format!("t/m/by-hash/SHA256/{}", "03".repeat(32)));
    let links: Vec<&str> = d.symlink_paths.iter().map(|p| p.as_str()).collect();
    assert_eq!(links, vec!["t/m/Packages".to_string(), format!("t/m/by-hash/MD5Sum/{}", "01".repeat(16))]);
    let bare = FileEntry { size: 5, md5: None, sha1: None, sha256: None, sha512: None };
    assert!(matches!(
        r.create_metadata_download("u".to_string(), FilePath::new("t/P"), bare, true),
        Err(MirsError::NoReleaseFile)
    ));
}

#[test]
fn a_repository_is_laid_out_by_host_and_path() {
    let opts = MirrorOpts::try_from("deb http://ignored/here bookworm main").unwrap();
    let r = Repository::from_location(&opts, &FilePath::new("/out"), true, "mirror.example", "/pub/debian");
    assert_eq!(r.root_url, "http://ignored/here");
    assert_eq!(r.dist_url, "http://ignored/here/dists/bookworm");
    assert_eq!(r.root_dir.as_str(), "/out/mirror.example/pub/debian");
    assert_eq!(r.tmp_dir.as_str(), "/out/.tmp/mirror.example_pub_debian_bookworm");
    let r = Repository::from_location(&opts, &FilePath::new("/out"), false, "h", "/");
    assert_eq!(r.root_dir.as_str(), "/out/h/");
    assert_eq!(r.tmp_dir.as_str(), "");
}
