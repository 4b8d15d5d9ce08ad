use aptmirs::checksum::Checksum;
use aptmirs::config::MirrorOpts;
use aptmirs::error::MirsError;
use aptmirs::filter::ReleaseFileFilter;
use aptmirs::manifest::valid_file;
use aptmirs::manifest::LocalFile;
use aptmirs::manifest::Release;
use aptmirs::metadata_file::MetadataFile;
use aptmirs::path::FilePath;
use aptmirs::release::ChecksumState;
use aptmirs::release::FileEntry;
use aptmirs::release::FileEntryChecksumIterator;
use aptmirs::release::FileLine;
use aptmirs::release::Line;
use aptmirs::text::string_of;

const MD5_A: &str = "0123456789abcdef0123456789abcdef";
const MD5_B: &str = "fedcba9876543210fedcba9876543210";
const SHA256_A: &str = "00112233445566778899aabbccddeeff00112233445566778899aabbccddeeff";
const SHA256_B: &str = "ffeeddccbbaa99887766554433221100ffeeddccbbaa99887766554433221100";

fn opts(line: &str) -> MirrorOpts {
    MirrorOpts::try_from(line).unwrap()
}

fn sample() -> String {
    format!(
        "Origin: Debian\nLabel: Debian\nSuite: stable\nAcquire-By-Hash: yes\nComponents: main contrib\nMD5Sum:\n {a}   1234 main/binary-amd64/Packages\n {b}    567 main/binary-amd64/Packages.gz\n {a}     10 main/binary-arm64/Packages\n {a}     11 contrib/binary-amd64/Packages\n {a}     12 non-free/binary-amd64/Packages\nSHA256:\n {sa}   1234 main/binary-amd64/Packages\n {sb}    567 main/binary-amd64/Packages.gz\n",
        a = MD5_A,
        b = MD5_B,
        sa = SHA256_A,
        sb = SHA256_B
    )
}

fn digest16(text: &str) -> [u8; 16] {
    match Checksum::try_from(text).unwrap() {
        Checksum::Md5(d) => d,
        other => panic!("unexpected: {:?}", other),
    }
}

fn digest32(text: &str) -> [u8; 32] {
    match Checksum::try_from(text).unwrap() {
        Checksum::Sha256(d) => d,
        other => panic!("unexpected: {:?}", other),
    }
}

fn keys(release: &Release) -> Vec<String> {
    (0..release.files.len()).map(|i| string_of(release.files.key_at(i))).collect()
}

#[test]
fn a_manifest_is_read_into_headers_and_files() {
    let release = Release::parse(&sample(), &opts("deb http://x stable main contrib")).unwrap();
    assert!(release.acquire_by_hash());
    assert_eq!(release.components().map(|s| s.as_str()), Some("main contrib"));
    assert_eq!(release.header("Origin").map(|s| s.as_str()), Some("Debian"));
    assert_eq!(release.header("Missing"), None);
    assert_eq!(
        keys(&release),
        vec![
            "contrib/binary-amd64/Packages",
            "main/binary-amd64/Packages",
            "main/binary-amd64/Packages.gz"
        ]
    );
    let entry = *release.files.get(&aptmirs::text::chars_of("main/binary-amd64/Packages")).unwrap();
    assert_eq!(
        entry,
        FileEntry {
            size: 1234,
            md5: Some(digest16(MD5_A)),
            sha1: None,
            sha256: Some(digest32(SHA256_A)),
            sha512: None
        }
    );
    let entry = *release.files.get(&aptmirs::text::chars_of("contrib/binary-amd64/Packages")).unwrap();
    assert_eq!(entry.size, 11);
    assert_eq!(entry.sha256, None);
}

#[test]
fn every_file_of_a_manifest_lists_a_digest_and_paths_ascend() {
    let release = Release::parse(&sample(), &opts("deb http://x stable main contrib")).unwrap();
    let names = keys(&release);
    for i in 0..names.len() {
        assert!(release.files.value_at(i).strongest_hash().is_some());
        if i > 0 {
            assert!(names[i - 1] < names[i]);
        }
    }
}

#[test]
fn the_files_of_a_manifest_come_in_the_order_of_their_paths() {
    let release = Release::parse(&sample(), &opts("deb http://x stable main")).unwrap();
    let mut it = release.into_iter();
    let (file, entry) = it.next().unwrap();
    assert!(matches!(&file, MetadataFile::Packages(p) if p.as_str() == "main/binary-amd64/Packages"));
    assert_eq!(entry.size, 1234);
    let (file, entry) = it.next().unwrap();
    assert!(matches!(&file, MetadataFile::Packages(p) if p.as_str() == "main/binary-amd64/Packages.gz"));
    assert_eq!(entry.size, 567);
    assert!(it.next().is_none());
    assert!(it.next().is_none());
}

#[test]
fn a_signed_manifest_is_read_without_its_frame() {
    let text = format!(
        "-----BEGIN PGP SIGNED MESSAGE-----\nHash: SHA512\n\nOrigin: Debian\nAcquire-By-Hash: no\nSHA256:\n {sa} 5 main/binary-amd64/Packages\n-----BEGIN PGP SIGNATURE-----\n\niQIzBAEBCgAdFiEE: not a header\n=abcd\n-----END PGP SIGNATURE-----\n",
        sa = SHA256_A
    );
    let release = Release::parse(&text, &opts("deb http://x stable main")).unwrap();
    assert_eq!(release.header("Hash"), None);
    assert_eq!(release.header("iQIzBAEBCgAdFiEE"), None);
    assert_eq!(release.header("Origin").map(|s| s.as_str()), Some("Debian"));
    assert!(!release.acquire_by_hash());
    assert_eq!(release.len(), 1);
}

#[test]
fn a_file_outside_any_section_is_an_error() {
    let text = format!("Origin: Debian\n {} 5 main/binary-amd64/Packages\n", MD5_A);
    match Release::parse(&text, &opts("deb http://x stable main")) {
        Err(MirsError::ParsingRelease { line }) => {
            assert_eq!(line, format!(" {} 5 main/binary-amd64/Packages", MD5_A))
        }
        other => panic!("unexpected: {:?}", other.map(|_| ())),
    }
}

#[test]
fn a_label_that_is_not_known_is_an_error() {
    let text = "Origin: Debian\nSHA3:\n";
    match Release::parse(text, &opts("deb http://x stable main")) {
        Err(MirsError::ParsingRelease { line }) => assert_eq!(line, "SHA3:"),
        other => panic!("unexpected: {:?}", other.map(|_| ())),
    }
}

#[test]
fn a_bad_size_and_a_bad_digest_are_errors() {
    let text = format!("MD5Sum:\n {} 12x main/binary-amd64/Packages\n", MD5_A);
    match Release::parse(&text, &opts("deb http://x stable main")) {
        Err(MirsError::ParseInt { value }) => assert_eq!(value, "12x"),
        other => panic!("unexpected: {:?}", other.map(|_| ())),
    }
    let text = format!("SHA256:\n {} 12 main/binary-amd64/Packages\n", MD5_A);
    assert!(matches!(
        Release::parse(&text, &opts("deb http://x stable main")),
        Err(MirsError::Hex { .. })
    ));
    let text = "MD5Sum:\n abc 12\n";
    match Release::parse(text, &opts("deb http://x stable main")) {
        Err(MirsError::ParsingRelease { line }) => assert_eq!(line, " abc 12"),
        other => panic!("unexpected: {:?}", other.map(|_| ())),
    }
}

#[test]
fn a_file_line_outside_any_section_is_an_error_whatever_it_lists() {
    for text in [" 00 1 zz\n", " 00\n", "Origin: x\n 00 1 other/binary-amd64/Packages\n"] {
        let line = text.lines().last().unwrap().to_string();
        match Release::parse(text, &opts("deb http://x stable main")) {
            Err(MirsError::ParsingRelease { line: l }) => assert_eq!(l, line),
            other => panic!("unexpected: {:?}", other.map(|_| ())),
        }
    }
}

#[test]
fn whether_a_manifest_can_be_read_does_not_depend_on_the_filter() {
    let text = "MD5Sum:\n nothex 12 other/binary-amd64/Packages\n";
    for line in ["deb http://x stable main", "deb http://x stable other", "deb-src http://x stable main"] {
        assert!(matches!(Release::parse(text, &opts(line)), Err(MirsError::Hex { .. })));
    }
    let text = format!("MD5Sum:\n {} 12 other/binary-amd64/Packages\n", MD5_A);
    assert_eq!(Release::parse(&text, &opts("deb http://x stable main")).unwrap().len(), 0);
    assert_eq!(Release::parse(&text, &opts("deb http://x stable other")).unwrap().len(), 1);
}

#[test]
fn a_file_line_inside_a_frame_of_the_signature_is_passed_over() {
    let text = format!(
        "-----BEGIN PGP SIGNED MESSAGE-----\n {} 12 main/binary-amd64/Packages\n\nOrigin: x\n",
        MD5_A
    );
    let release = Release::parse(&text, &opts("deb http://x stable main")).unwrap();
    assert_eq!(release.len(), 0);
    assert_eq!(release.header("Origin").map(|s| s.as_str()), Some("x"));
}

#[test]
fn an_empty_manifest_is_empty() {
    let release = Release::parse("", &opts("deb http://x stable main")).unwrap();
    assert_eq!(release.len(), 0);
    assert!(!release.acquire_by_hash());
    assert_eq!(release.components(), None);
}

#[test]
fn files_that_are_in_place_are_dropped() {
    let mut release = Release::parse(&sample(), &opts("deb http://x stable main contrib")).unwrap();
    release.prune_existing(&vec![true, false, true]);
    assert_eq!(keys(&release), vec!["main/binary-amd64/Packages"]);
    assert!(release.acquire_by_hash());
}

#[test]
fn the_filter_wants_what_the_target_asks_for() {
    let f = ReleaseFileFilter::new(&opts("deb [arch=amd64,arm64] http://x stable main contrib"));
    assert!(f.accept("main/binary-amd64/Packages"));
    assert!(f.accept("main/binary-amd64/Packages.xz"));
    assert!(f.accept("contrib/binary-arm64/Release"));
    assert!(f.accept("main/binary-all/Packages"));
    assert!(f.accept("main/i18n/Translation-en.bz2"));
    assert!(f.accept("main/dep11/Components-amd64.yml.gz"));
    assert!(f.accept("main/Contents-amd64.gz"));
    assert!(f.accept("main/binary-amd64/Packages.diff/Index"));
    assert!(f.accept("main/./binary-amd64/./Packages"));
    assert!(!f.accept("non-free/binary-amd64/Packages"));
    assert!(!f.accept("main/binary-i386/Packages"));
    assert!(!f.accept("main/source/Sources"));
    assert!(!f.accept("main/binary-amd64/Unknown"));
    assert!(!f.accept("main/debian-installer/binary-amd64/Packages"));
    assert!(!f.accept("main/installer-amd64/current/images/SHA256SUMS"));
    assert!(!f.accept("main/binary-amd64/"));
    assert!(!f.accept("main/../main/binary-amd64/Packages"));
    assert!(!f.accept("main/binary-amd64/.."));
    assert!(!f.accept("/main/binary-amd64/Packages"));
    assert!(!f.accept("./main/binary-amd64/Packages"));
    assert!(!f.accept("../Packages"));
    assert!(!f.accept(""));
    assert!(!f.accept("main"));
}

#[test]
fn the_filter_follows_the_flags_of_the_target() {
    let f = ReleaseFileFilter::new(&opts("deb-src http://x stable main"));
    assert!(f.accept("main/source/Sources.xz"));
    assert!(f.accept("main/source/Release"));
    assert!(!f.accept("main/binary-amd64/Packages"));
    let f = ReleaseFileFilter::new(&opts("deb [udeb=true di_arch=amd64] http://x stable main"));
    assert!(f.accept("main/debian-installer/binary-amd64/Packages"));
    assert!(f.accept("main/installer-amd64/current/images/SHA256SUMS"));
    assert!(f.accept("main/installer-amd64/current/images/MD5SUMS"));
    assert!(f.accept("main/Contents-udeb-amd64.gz"));
    assert!(!f.accept("main/installer-arm64/current/images/SHA256SUMS"));
    assert!(!f.accept("main/source/Sources"));
}

#[test]
fn a_flat_repository_lists_files_at_its_root() {
    let f = ReleaseFileFilter::new(&opts("deb http://x/flat /"));
    assert!(f.accept("Packages"));
    assert!(f.accept("Packages.gz"));
    assert!(f.accept("Release"));
    assert!(f.accept("Translation-en"));
    assert!(!f.accept("Sources"));
    assert!(!f.accept("README"));
    let text = format!("MD5Sum:\n {} 5 Packages\n {} 6 Sources\n", MD5_A, MD5_B);
    let release = Release::parse(&text, &opts("deb http://x/flat /")).unwrap();
    assert_eq!(keys(&release), vec!["Packages"]);
}

#[test]
fn a_file_line_has_three_fields() {
    let l = FileLine::parse(" 0123 42   main/binary-amd64/Packages extra").unwrap();
    assert_eq!(l.checksum, "0123");
    assert_eq!(l.size, 42);
    assert_eq!(l.path, "main/binary-amd64/Packages");
    match FileLine::parse(" 0123 42") {
        Err(MirsError::ParsingRelease { line }) => assert_eq!(line, " 0123 42"),
        other => panic!("unexpected: {:?}", other),
    }
    match FileLine::parse(" 0123 -4 p") {
        Err(MirsError::ParseInt { value }) => assert_eq!(value, "-4"),
        other => panic!("unexpected: {:?}", other),
    }
}

#[test]
fn lines_are_told_apart() {
    assert!(matches!(Line::from(" abc 1 p"), Line::FileEntry(v) if v == " abc 1 p"));
    assert!(matches!(Line::from(" MD5Sum:"), Line::FileEntry(_)));
    assert!(matches!(Line::from("MD5Sum:"), Line::Md5Start));
    assert!(matches!(Line::from("SHA1:"), Line::Sha1Start));
    assert!(matches!(Line::from("SHA256:"), Line::Sha256Start));
    assert!(matches!(Line::from("SHA512:"), Line::Sha512Start));
    assert!(matches!(Line::from("-----BEGIN PGP SIGNED MESSAGE-----"), Line::PGPSignedMessageStart));
    assert!(matches!(Line::from("-----BEGIN PGP SIGNATURE-----"), Line::PGPSignatureStart));
    assert!(matches!(Line::from("-----END PGP SIGNATURE-----"), Line::PGPSignatureEnd));
    assert!(matches!(Line::from("Origin: Debian"), Line::Metadata(v) if v == "Origin: Debian"));
    assert!(matches!(Line::from("SHA3:"), Line::Metadata(_)));
    assert!(matches!(Line::from(""), Line::Unknown));
    assert!(matches!(Line::from("no colon here"), Line::Unknown));
}

#[test]
fn labels_start_sections() {
    assert_eq!(ChecksumState::from("MD5Sum:"), ChecksumState::Md5);
    assert_eq!(ChecksumState::from("SHA1:"), ChecksumState::Sha1);
    assert_eq!(ChecksumState::from("SHA256:"), ChecksumState::Sha256);
    assert_eq!(ChecksumState::from("SHA512:"), ChecksumState::Sha512);
    assert_eq!(ChecksumState::from("SHA3:"), ChecksumState::Unknown);
    assert_eq!(ChecksumState::from("md5sum:"), ChecksumState::Unknown);
}

fn entry(md5: bool, sha1: bool, sha256: bool, sha512: bool) -> FileEntry {
    FileEntry {
        size: 7,
        md5: if md5 { Some([1; 16]) } else { None },
        sha1: if sha1 { Some([2; 20]) } else { None },
        sha256: if sha256 { Some([3; 32]) } else { None },
        sha512: if sha512 { Some([4; 64]) } else { None },
    }
}

#[test]
fn the_strongest_digest_of_an_entry() {
    assert_eq!(entry(true, true, true, true).strongest_hash(), Some(Checksum::Sha512([4; 64])));
    assert_eq!(entry(true, true, true, false).strongest_hash(), Some(Checksum::Sha256([3; 32])));
    assert_eq!(entry(true, true, false, false).strongest_hash(), Some(Checksum::Sha1([2; 20])));
    assert_eq!(entry(true, false, false, false).strongest_hash(), Some(Checksum::Md5([1; 16])));
    assert_eq!(entry(false, false, false, false).strongest_hash(), None);
}

#[test]
fn an_entry_has_the_digests_it_lists() {
    let e = entry(true, false, true, false);
    assert!(e.has_checksum(&Checksum::Md5([1; 16])));
    assert!(!e.has_checksum(&Checksum::Md5([9; 16])));
    assert!(!e.has_checksum(&Checksum::Sha1([2; 20])));
    assert!(e.has_checksum(&Checksum::Sha256([3; 32])));
    assert!(!e.has_checksum(&Checksum::Sha512([4; 64])));
}

#[test]
fn the_digests_of_an_entry_come_strongest_first() {
    let mut it = FileEntryChecksumIterator::new(entry(true, false, true, true));
    assert_eq!(it.next(), Some(Checksum::Sha512([4; 64])));
    assert_eq!(it.next(), Some(Checksum::Sha256([3; 32])));
    assert_eq!(it.next(), Some(Checksum::Md5([1; 16])));
    assert_eq!(it.next(), None);
    assert_eq!(it.next(), None);
    let mut it = entry(false, false, false, false).into_iter();
    assert_eq!(it.next(), None);
}

#[test]
fn without_by_hash_a_file_lies_at_its_name() {
    let path = FilePath::new("tmp/dists/s/main/binary-amd64/Packages.gz");
    let (strongest, primary, links) = entry(true, false, true, false).into_paths(&path, false).unwrap();
    assert_eq!(strongest, Some(Checksum::Sha256([3; 32])));
    assert_eq!(primary, path);
    assert!(links.is_empty());
    let (strongest, primary, links) =
        entry(false, false, false, false).into_paths(&path, false).unwrap();
    assert_eq!(strongest, None);
    assert_eq!(primary, path);
    assert!(links.is_empty());
}

#[test]
fn with_by_hash_a_file_lies_under_its_strongest_digest() {
    let path = FilePath::new("tmp/dists/s/main/binary-amd64/Packages.gz");
    let (strongest, primary, links) = entry(true, false, true, true).into_paths(&path, true).unwrap();
    assert_eq!(strongest, Some(Checksum::Sha512([4; 64])));
    assert_eq!(
        primary.as_str(),
        format!("tmp/dists/s/main/binary-amd64/by-hash/SHA512/{}", "04".repeat(64))
    );
    let links: Vec<&str> = links.iter().map(|p| p.as_str()).collect();
    assert_eq!(
        links,
        vec![
            "tmp/dists/s/main/binary-amd64/Packages.gz".to_string(),
            format!("tmp/dists/s/main/binary-amd64/by-hash/SHA256/{}", "03".repeat(32)),
            format!("tmp/dists/s/main/binary-amd64/by-hash/MD5Sum/{}", "01".repeat(16)),
        ]
    );
    let bare = FilePath::new("Packages");
    let (_, primary, links) = entry(true, false, false, false).into_paths(&bare, true).unwrap();
    assert_eq!(primary.as_str(), format!("by-hash/MD5Sum/{}", "01".repeat(16)));
    assert_eq!(links, vec![FilePath::new("Packages")]);
}

#[test]
fn with_by_hash_an_entry_without_digest_has_no_place() {
    let path = FilePath::new("a/Packages");
    assert!(matches!(
        entry(false, false, false, false).into_paths(&path, true),
        Err(MirsError::NoReleaseFile)
    ));
}

#[test]
fn what_lies_in_the_mirror_is_held_against_the_entry() {
    let e = entry(true, false, true, false);
    assert!(!valid_file(&e, &LocalFile::Missing));
    assert!(valid_file(&e, &LocalFile::File { checksum: Some(Checksum::Sha256([3; 32])) }));
    assert!(!valid_file(&e, &LocalFile::File { checksum: Some(Checksum::Sha256([9; 32])) }));
    assert!(!valid_file(&e, &LocalFile::File { checksum: Some(Checksum::Md5([1; 16])) }));
    assert!(!valid_file(&e, &LocalFile::File { checksum: None }));
    assert!(valid_file(&e, &LocalFile::Link { target_name: Some("03".repeat(32)) }));
    assert!(valid_file(&e, &LocalFile::Link { target_name: Some("01".repeat(16)) }));
    assert!(!valid_file(&e, &LocalFile::Link { target_name: Some("02".repeat(20)) }));
    assert!(!valid_file(&e, &LocalFile::Link { target_name: Some("Packages".to_string()) }));
    assert!(!valid_file(&e, &LocalFile::Link { target_name: None }));
}

#[test]
fn the_canonical_text_of_a_manifest() {
    let o = opts("deb http://x stable main contrib");
    let release = Release::parse(&sample(), &o).unwrap();
    let text = release.canonical_text();
    let expected = format!(
        "Acquire-By-Hash: yes\nComponents: main contrib\nLabel: Debian\nOrigin: Debian\nSuite: stable\nSHA512:\nSHA256:\n {sa} 1234 main/binary-amd64/Packages\n {sb} 567 main/binary-amd64/Packages.gz\nSHA1:\nMD5Sum:\n {a} 11 contrib/binary-amd64/Packages\n {a} 1234 main/binary-amd64/Packages\n {b} 567 main/binary-amd64/Packages.gz\n",
        a = MD5_A,
        b = MD5_B,
        sa = SHA256_A,
        sb = SHA256_B
    );
    assert_eq!(text, expected);
}

#[test]
fn the_canonical_text_reads_back_as_the_manifest() {
    let o = opts("deb http://x stable main contrib");
    let first = Release::parse(&sample(), &o).unwrap();
    let text = first.canonical_text();
    let second = Release::parse(&text, &o).unwrap();
    assert_eq!(second.canonical_text(), text);
    assert_eq!(keys(&second), keys(&first));
    for i in 0..first.len() {
        assert_eq!(second.files.value_at(i), first.files.value_at(i));
    }
    assert_eq!(second.header_count(), first.header_count());
    for i in 0..first.header_count() {
        assert_eq!(second.header_at(i), first.header_at(i));
    }
    let empty = Release::parse("", &o).unwrap();
    assert_eq!(empty.canonical_text(), "SHA512:\nSHA256:\nSHA1:\nMD5Sum:\n");
    assert_eq!(Release::parse(&empty.canonical_text(), &o).unwrap().len(), 0);
}
