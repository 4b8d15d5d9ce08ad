use aptmirs::checksum::Checksum;
use aptmirs::codec::create_reader;
use aptmirs::diff_index::DiffIndexFile;
use aptmirs::error::MirsError;
use aptmirs::index::IndexFileEntry;
use aptmirs::index::Package;
use aptmirs::index::PackagesFile;
use aptmirs::metadata_file::FileKind;
use aptmirs::metadata_file::MetadataFile;
use aptmirs::path::FilePath;
use aptmirs::reader::IndexFileEntryIterator;
use aptmirs::reader::IndexReader;
use aptmirs::reader::TrackingReader;
use aptmirs::sources::SourcesFile;
use aptmirs::sum_file::SumFile;
use aptmirs::text::string_of;
use std::io::Write;

const MD5_A: &str = "0123456789abcdef0123456789abcdef";
const SHA1_A: &str = "0123456789abcdef0123456789abcdef01234567";
const SHA256_A: &str = "00112233445566778899aabbccddeeff00112233445566778899aabbccddeeff";
const SHA256_B: &str = "ffeeddccbbaa99887766554433221100ffeeddccbbaa99887766554433221100";
const SHA512_A: &str = "00112233445566778899aabbccddeeff00112233445566778899aabbccddeeff00112233445566778899aabbccddeeff00112233445566778899aabbccddeeff";

fn packages_text() -> String {
    format!(
        "Package: a\nVersion: 1.0\nFilename: pool/main/a/a_1.0_amd64.deb\nSize: 1234\nMD5sum: {md5}\nSHA256: {sha}\n\nPackage: b\nFilename: pool/main/b/b_2.0_amd64.deb\nSize: 99\nSHA256: {sha}\nSHA1: {sha1}\nDescription: two\n lines\n\n",
        md5 = MD5_A,
        sha = SHA256_A,
        sha1 = SHA1_A
    )
}

fn all(mut next: impl FnMut() -> Option<Result<IndexFileEntry, MirsError>>) -> Vec<IndexFileEntry> {
    let mut out = Vec::new();
    while let Some(entry) = next() {
        out.push(entry.unwrap());
    }
    out
}

fn packages_file(text: &str) -> PackagesFile {
    PackagesFile::from_text(MetadataFile::Packages(FilePath::new("tmp/Packages")), text, 7)
}

#[test]
fn a_package_index_lists_one_file_for_each_record() {
    let mut reader = packages_file(&packages_text());
    assert_eq!(reader.size(), 7);
    assert_eq!(reader.counter(), 0);
    assert_eq!(reader.file().path().as_str(), "tmp/Packages");
    let entries = all(|| reader.next());
    assert_eq!(entries.len(), 2);
    assert_eq!(entries[0].path, "pool/main/a/a_1.0_amd64.deb");
    assert_eq!(entries[0].size, Some(1234));
    assert_eq!(entries[0].checksum, Some(Checksum::try_from(SHA256_A).unwrap()));
    assert_eq!(entries[1].path, "pool/main/b/b_2.0_amd64.deb");
    assert_eq!(entries[1].size, Some(99));
    assert_eq!(entries[1].checksum, Some(Checksum::try_from(SHA256_A).unwrap()));
    assert!(reader.next().is_none());
}

#[test]
fn the_strongest_digest_of_a_record_is_kept() {
    let text = format!(
        "Filename: f\nSize: 1\nSHA512: {}\nMD5Sum: {}\nSHA256: {}\n\n",
        SHA512_A, MD5_A, SHA256_A
    );
    let mut reader = packages_file(&text);
    let entry = reader.next().unwrap().unwrap();
    assert_eq!(entry.checksum, Some(Checksum::try_from(SHA512_A).unwrap()));
    let text = format!("Filename: f\nSize: 1\nMD5Sum: {}\n\n", MD5_A);
    let entry = packages_file(&text).next().unwrap().unwrap();
    assert_eq!(entry.checksum, Some(Checksum::try_from(MD5_A).unwrap()));
    let entry = packages_file("Filename: f\nSize: 1\n\n").next().unwrap().unwrap();
    assert_eq!(entry.checksum, None);
}

#[test]
fn a_record_without_its_end_is_not_given() {
    let text = "Filename: f\nSize: 1\n\nFilename: g\nSize: 2\n";
    let mut reader = packages_file(text);
    assert_eq!(reader.next().unwrap().unwrap().path, "f");
    assert!(reader.next().is_none());
    assert!(packages_file("").next().is_none());
}

#[test]
fn a_record_without_path_or_size_ends_the_walk() {
    let text = "Package: x\n\nFilename: g\nSize: 2\n\n";
    let mut reader = packages_file(text);
    assert!(reader.next().is_none());
    assert_eq!(reader.next().unwrap().unwrap().path, "g");
    assert!(reader.next().is_none());
}

#[test]
fn lines_of_a_record_may_end_in_carriage_return() {
    let text = "Filename: f\r\nSize: 5\r\n\n";
    let entry = packages_file(text).next().unwrap().unwrap();
    assert_eq!(entry.path, "f");
    assert_eq!(entry.size, Some(5));
}

#[test]
fn faults_of_a_package_record() {
    match packages_file("Filename: f\nSize: big\n\n").next() {
        Some(Err(MirsError::ParsingPackages { path })) => assert_eq!(path, "tmp/Packages"),
        other => panic!("unexpected: {:?}", other),
    }
    let text = format!("Filename: f\nSize: 1\nSHA256: {}\n\n", MD5_A);
    assert!(matches!(packages_file(&text).next(), Some(Err(MirsError::Hex { .. }))));
    let text = format!("Filename: f\nSize: 1\nSHA256: {}\nMD5Sum: nothex\n\n", SHA256_A);
    assert!(matches!(packages_file(&text).next(), Some(Ok(_))));
}

#[test]
fn a_package_gives_path_size_and_checksum() {
    let mut p = Package::build(&FilePath::new("x/Packages"), packages_text().into_bytes()).unwrap();
    assert_eq!(p.size(), packages_text().len() as u64);
    assert_eq!(p.counter(), 0);
    let (path, size, checksum) = p.next().unwrap().unwrap();
    assert_eq!(p.counter(), packages_text().find("Package: b").unwrap() as u64);
    assert_eq!(path, "pool/main/a/a_1.0_amd64.deb");
    assert_eq!(size, 1234);
    assert_eq!(checksum, Some(Checksum::try_from(SHA256_A).unwrap()));
    assert!(p.next().is_some());
    assert_eq!(p.counter(), packages_text().len() as u64);
    assert!(p.next().is_none());
    assert_eq!(p.counter(), p.size());
}

fn sources_text() -> String {
    format!(
        "Package: hello\nDirectory: pool/main/h/hello\nFiles:\n {md5} 100 hello_1.dsc\n {md5} 2000 hello_1.orig.tar.gz\nChecksums-Sha256:\n {sa} 100 hello_1.dsc\n {sb} 2000 hello_1.orig.tar.gz\nHomepage: http://x\n\nPackage: bye\nDirectory: pool/main/b/bye\nChecksums-Sha1:\n {sha1} 5 bye_2.dsc\n\n",
        md5 = MD5_A,
        sa = SHA256_A,
        sb = SHA256_B,
        sha1 = SHA1_A
    )
}

fn sources_file(text: &str) -> SourcesFile {
    SourcesFile::from_text(MetadataFile::Sources(FilePath::new("tmp/Sources")), text, 3)
}

#[test]
fn a_source_index_lists_the_files_of_each_record() {
    let mut reader = sources_file(&sources_text());
    assert_eq!(reader.size(), 3);
    assert_eq!(reader.counter(), 0);
    assert_eq!(reader.file().path().as_str(), "tmp/Sources");
    let entries = all(|| reader.next());
    assert_eq!(entries.len(), 3);
    assert_eq!(entries[0].path, "pool/main/h/hello/hello_1.dsc");
    assert_eq!(entries[0].size, Some(100));
    assert_eq!(entries[0].checksum, Some(Checksum::try_from(SHA256_A).unwrap()));
    assert_eq!(entries[1].path, "pool/main/h/hello/hello_1.orig.tar.gz");
    assert_eq!(entries[1].size, Some(2000));
    assert_eq!(entries[1].checksum, Some(Checksum::try_from(SHA256_B).unwrap()));
    assert_eq!(entries[2].path, "pool/main/b/bye/bye_2.dsc");
    assert_eq!(entries[2].size, Some(5));
    assert_eq!(entries[2].checksum, Some(Checksum::try_from(SHA1_A).unwrap()));
}

#[test]
fn a_weaker_checksum_does_not_displace_a_stronger_one() {
    let text = format!(
        "Directory: d\nChecksums-Sha256:\n {sa} 1 f\nFiles:\n {md5} 2 f\n\n",
        sa = SHA256_A,
        md5 = MD5_A
    );
    let entry = sources_file(&text).next().unwrap().unwrap();
    assert_eq!(entry.path, "d/f");
    assert_eq!(entry.size, Some(1));
    assert_eq!(entry.checksum, Some(Checksum::try_from(SHA256_A).unwrap()));
}

#[test]
fn faults_of_a_source_record() {
    let text = format!("Files:\n {} 1 f\n\n", MD5_A);
    match sources_file(&text).next() {
        Some(Err(MirsError::ParsingSources { path })) => assert_eq!(path, "tmp/Sources"),
        other => panic!("unexpected: {:?}", other),
    }
    match sources_file("Directory: d\nFiles:\n nothex 1 f\n\n").next() {
        Some(Err(MirsError::IntoChecksum { value })) => assert_eq!(value, "nothex"),
        other => panic!("unexpected: {:?}", other),
    }
    let text = format!("Directory: d\nFiles:\n {} x f\n\n", MD5_A);
    match sources_file(&text).next() {
        Some(Err(MirsError::ParseInt { value })) => assert_eq!(value, "x"),
        other => panic!("unexpected: {:?}", other),
    }
    let text = format!("Directory: d\nFiles:\n {} 1\n\n", MD5_A);
    assert!(matches!(sources_file(&text).next(), Some(Err(MirsError::ParsingSources { .. }))));
    assert!(matches!(
        sources_file("Directory: d\nFiles:\n\n").next(),
        Some(Err(MirsError::ParsingSources { .. }))
    ));
    let text = format!("Directory: d\nFiles:\n {}\n\n", "zz".repeat(16));
    assert!(matches!(sources_file(&text).next(), Some(Err(MirsError::Hex { .. }))));
}

#[test]
fn a_source_record_without_files_ends_the_walk() {
    let mut reader = sources_file("Directory: d\n\n");
    assert!(reader.next().is_none());
    assert!(reader.next().is_none());
    assert!(sources_file("Directory: d\n").next().is_none());
}

fn diff_text() -> String {
    format!(
        "SHA1-Current: {sha1} 9\nSHA256-History:\n {sa} 11 old\nSHA256-Download:\n {sa} 21 b.gz\n {sb} 22 a.gz\nSHA1-Download:\n {sha1} 22 a.gz\nX-Patch-Precedence: merged\n {sa} 23 not-listed\n",
        sha1 = SHA1_A,
        sa = SHA256_A,
        sb = SHA256_B
    )
}

fn diff_file(text: &str) -> DiffIndexFile {
    DiffIndexFile::from_text(MetadataFile::DiffIndex(FilePath::new("tmp/Index")), text, 5)
}

#[test]
fn a_diff_index_lists_the_files_to_download() {
    let mut reader = diff_file(&diff_text());
    assert_eq!(reader.size(), 5);
    assert_eq!(reader.counter(), 0);
    assert_eq!(reader.file().path().as_str(), "tmp/Index");
    let entries = all(|| reader.next());
    assert_eq!(entries.len(), 2);
    assert_eq!(entries[0].path, "a.gz");
    assert_eq!(entries[0].size, Some(22));
    assert_eq!(entries[0].checksum, Some(Checksum::try_from(SHA256_B).unwrap()));
    assert_eq!(entries[1].path, "b.gz");
    assert_eq!(entries[1].size, Some(21));
    assert_eq!(entries[1].checksum, Some(Checksum::try_from(SHA256_A).unwrap()));
    assert!(reader.next().is_none());
    assert!(diff_file("").next().is_none());
}

#[test]
fn faults_of_a_diff_index() {
    for text in [
        "SHA256-Download:\n abc 1\n".to_string(),
        format!("SHA256-Download:\n {} x f\n", SHA256_A),
        "SHA256-Download:\n nothex 1 f\n".to_string(),
    ] {
        let mut reader = diff_file(&text);
        match reader.next() {
            Some(Err(MirsError::ParsingDiffIndex { path })) => assert_eq!(path, "tmp/Index"),
            other => panic!("unexpected: {:?}", other),
        }
        assert!(reader.next().is_none());
    }
}

#[test]
fn a_sum_file_lists_a_checksum_and_a_path_on_each_line() {
    let text = format!("{}  ./netboot/mini.iso\n{} netboot/boot.img\n", SHA256_A, SHA256_B);
    let mut reader = SumFile::from_text(&FilePath::new("tmp/SHA256SUMS"), &text, 4);
    assert_eq!(reader.size(), 4);
    assert_eq!(reader.counter(), 0);
    assert_eq!(reader.path().as_str(), "tmp/SHA256SUMS");
    let entries = all(|| reader.next());
    assert_eq!(entries.len(), 2);
    assert_eq!(entries[0].path, "./netboot/mini.iso");
    assert_eq!(entries[0].size, None);
    assert_eq!(entries[0].checksum, Some(Checksum::try_from(SHA256_A).unwrap()));
    assert_eq!(entries[1].path, "netboot/boot.img");
    assert!(reader.next().is_none());
}

#[test]
fn faults_of_a_sum_file() {
    for text in ["\n", "abc  path\n", "0123456789abcdef0123456789abcdef\n"] {
        let mut reader = SumFile::from_text(&FilePath::new("tmp/MD5SUMS"), text, 0);
        match reader.next() {
            Some(Err(MirsError::InvalidSumEntry { line })) => assert_eq!(line, text),
            other => panic!("unexpected: {:?}", other),
        }
    }
}

fn gz(data: &[u8]) -> Vec<u8> {
    let mut e = flate2::write::GzEncoder::new(Vec::new(), flate2::Compression::default());
    e.write_all(data).unwrap();
    e.finish().unwrap()
}

fn xz(data: &[u8]) -> Vec<u8> {
    let mut e = xz2::write::XzEncoder::new(Vec::new(), 6);
    e.write_all(data).unwrap();
    e.finish().unwrap()
}

fn bz2(data: &[u8]) -> Vec<u8> {
    let mut e = bzip2::write::BzEncoder::new(Vec::new(), bzip2::Compression::default());
    e.write_all(data).unwrap();
    e.finish().unwrap()
}

#[test]
fn the_extension_names_the_encoding() {
    let text = "Filename: f\nSize: 1\n\n";
    for (path, data) in [
        ("d/Packages", text.as_bytes().to_vec()),
        ("d/Packages.gz", gz(text.as_bytes())),
        ("d/Packages.xz", xz(text.as_bytes())),
        ("d/Packages.bz2", bz2(text.as_bytes())),
    ] {
        let len = data.len() as u64;
        let (chars, read) = create_reader(data, &FilePath::new(path)).unwrap();
        assert_eq!(string_of(&chars), text, "{}", path);
        assert_eq!(read, len);
    }
}

#[test]
fn several_xz_streams_are_read_in_a_row() {
    let mut data = xz(b"Filename: f\n");
    data.extend(xz(b"Size: 1\n\n"));
    let (chars, _) = create_reader(data, &FilePath::new("Packages.xz")).unwrap();
    assert_eq!(string_of(&chars), "Filename: f\nSize: 1\n\n");
}

#[test]
fn bytes_that_cannot_be_read_are_an_error() {
    match create_reader(b"x".to_vec(), &FilePath::new("d/Packages.zst")) {
        Err(MirsError::ParsingPackages { path }) => assert_eq!(path, "d/Packages.zst"),
        other => panic!("unexpected: {:?}", other),
    }
    for path in ["d/Packages.gz", "d/Packages.xz", "d/Packages.bz2"] {
        match create_reader(b"this is not compressed".to_vec(), &FilePath::new(path)) {
            Err(MirsError::ReadingPackage { path: p, .. }) => assert_eq!(p, path),
            other => panic!("unexpected: {:?}", other),
        }
    }
    assert!(matches!(
        create_reader(vec![0xff, 0xfe, b'a'], &FilePath::new("d/Packages")),
        Err(MirsError::ReadingPackage { .. })
    ));
    assert!(matches!(
        create_reader(gz(&[0xc3, 0x28]), &FilePath::new("d/Packages.gz")),
        Err(MirsError::ReadingPackage { .. })
    ));
}

#[test]
fn text_in_utf8_is_decoded() {
    let text = "Filename: pool/\u{e4}\u{20ac}\u{1f600}.deb\nSize: 1\n\n";
    let (chars, _) = create_reader(text.as_bytes().to_vec(), &FilePath::new("Packages")).unwrap();
    assert_eq!(string_of(&chars), text);
}

#[test]
fn a_reader_is_built_by_the_kind_of_the_index() {
    let data = gz(packages_text().as_bytes());
    let size = data.len() as u64;
    let mut reader = MetadataFile::from("d/Packages.gz".to_string()).into_reader(data).unwrap();
    assert!(matches!(reader, IndexReader::Packages(_)));
    assert_eq!(IndexFileEntryIterator::size(&reader), size);
    assert_eq!(IndexFileEntryIterator::counter(&reader), 0);
    assert_eq!(reader.next_entry().unwrap().unwrap().path, "pool/main/a/a_1.0_amd64.deb");
    let part = IndexFileEntryIterator::counter(&reader);
    assert!(0 < part && part < size);
    assert!(reader.next_entry().is_some());
    assert_eq!(IndexFileEntryIterator::counter(&reader), size);
    let reader = MetadataFile::from("d/Sources".to_string()).into_reader(sources_text().into_bytes());
    assert!(matches!(reader, Ok(IndexReader::Sources(_))));
    let reader = MetadataFile::from("d/Index".to_string()).into_reader(diff_text().into_bytes());
    assert!(matches!(reader, Ok(IndexReader::DiffIndex(_))));
    let reader = MetadataFile::from("installer-x/MD5SUMS".to_string()).into_reader(Vec::new());
    assert!(matches!(reader, Ok(IndexReader::SumFile(_))));
    match MetadataFile::from("d/Release".to_string()).into_reader(Vec::new()) {
        Err(MirsError::NonIndexFileBuild { path }) => assert_eq!(path, "d/Release"),
        other => panic!("unexpected: {:?}", other.map(|_| ())),
    }
    assert_eq!(MetadataFile::from("d/Index".to_string()).kind(), FileKind::DiffIndex);
}

#[test]
fn a_tracking_reader_counts_what_is_read() {
    let mut reader = TrackingReader::new(b"hello world".to_vec());
    assert_eq!(reader.counter(), 0);
    assert_eq!(reader.read(5), b"hello");
    assert_eq!(reader.counter(), 5);
    assert_eq!(reader.read(0), b"");
    assert_eq!(reader.read(100), b" world");
    assert_eq!(reader.counter(), 11);
    assert_eq!(reader.read(3), b"");
    assert_eq!(reader.counter(), 11);
}

#[test]
fn the_count_of_bytes_read_follows_the_reading() {
    let text = packages_text();
    let size = text.len() as u64;
    let file = MetadataFile::Packages(FilePath::new("tmp/Packages"));
    let mut reader = PackagesFile::from_text(file, &text, size);
    assert_eq!(reader.counter(), 0);
    assert!(reader.next().is_some());
    assert_eq!(reader.counter(), text.find("Package: b").unwrap() as u64);
    assert!(reader.counter() < size);
    assert!(reader.next().is_some());
    assert_eq!(reader.counter(), size);
    assert!(reader.next().is_none());
    assert_eq!(reader.counter(), size);

    let text = format!("{}  a\n{}  b\n", SHA256_A, SHA256_B);
    let mut sums = SumFile::from_text(&FilePath::new("tmp/SHA256SUMS"), &text, text.len() as u64);
    assert_eq!(sums.counter(), 0);
    assert!(sums.next().is_some());
    assert_eq!(sums.counter(), 68);
    assert!(sums.next().is_some());
    assert_eq!(sums.counter(), 136);

    let text = sources_text();
    let mut sources = SourcesFile::from_text(
        MetadataFile::Sources(FilePath::new("tmp/Sources")),
        &text,
        text.len() as u64,
    );
    let mut last = sources.counter();
    assert_eq!(last, 0);
    while sources.next().is_some() {
        assert!(sources.counter() >= last);
        last = sources.counter();
    }
    assert_eq!(sources.counter(), text.len() as u64);

    let mut diff = diff_file(&diff_text());
    assert_eq!(diff.counter(), 0);
    assert!(diff.next().is_some());
    assert_eq!(diff.counter(), 5);
}

#[test]
fn the_count_of_a_compressed_file_is_its_share_of_the_size() {
    let text = format!("{}  a\n{}  b\n{}  c\n{}  d\n", SHA256_A, SHA256_B, SHA256_A, SHA256_B);
    let mut sums = SumFile::from_text(&FilePath::new("tmp/SHA256SUMS.gz"), &text, 100);
    let mut seen = vec![sums.counter()];
    while sums.next().is_some() {
        seen.push(sums.counter());
    }
    assert_eq!(seen, vec![0, 25, 50, 75, 100]);
    let mut empty = SumFile::from_text(&FilePath::new("tmp/SHA256SUMS"), "", 9);
    assert_eq!(empty.counter(), 9);
    assert!(empty.next().is_none());
}

#[test]
fn an_index_read_to_its_end_gives_every_entry_in_order() {
    let mut packages = MetadataFile::from("d/Packages".to_string())
        .into_reader(packages_text().into_bytes())
        .unwrap();
    let entries = packages.read_to_end().unwrap();
    let paths: Vec<&str> = entries.iter().map(|e| e.path.as_str()).collect();
    assert_eq!(paths, vec!["pool/main/a/a_1.0_amd64.deb", "pool/main/b/b_2.0_amd64.deb"]);
    assert_eq!(IndexFileEntryIterator::counter(&packages), packages_text().len() as u64);
    assert!(packages.read_to_end().unwrap().is_empty());

    let mut sources = MetadataFile::from("d/Sources".to_string())
        .into_reader(sources_text().into_bytes())
        .unwrap();
    let entries = sources.read_to_end().unwrap();
    let paths: Vec<&str> = entries.iter().map(|e| e.path.as_str()).collect();
    assert_eq!(
        paths,
        vec![
            "pool/main/h/hello/hello_1.dsc",
            "pool/main/h/hello/hello_1.orig.tar.gz",
            "pool/main/b/bye/bye_2.dsc"
        ]
    );

    let mut diffs = MetadataFile::from("d/Index".to_string()).into_reader(diff_text().into_bytes()).unwrap();
    assert_eq!(diffs.read_to_end().unwrap().len(), 2);

    let text = format!("{}  a\nnot a line\n{}  b\n", SHA256_A, SHA256_B);
    let mut sums = MetadataFile::from("installer-x/SHA256SUMS".to_string()).into_reader(text.into_bytes()).unwrap();
    assert!(matches!(sums.read_to_end(), Err(MirsError::InvalidSumEntry { .. })));
    assert_eq!(sums.read_to_end().unwrap().len(), 1);
}
