use aptmirs::checksum::Checksum;
use aptmirs::checksum::ChecksumType;
use aptmirs::checksum::Hasher;
use aptmirs::checksum::Md5Hasher;
use aptmirs::checksum::Sha1Hasher;
use aptmirs::checksum::Sha256Hasher;
use aptmirs::checksum::Sha512Hasher;
use aptmirs::error::MirsError;
use aptmirs::hexcode::HexError;

const MD5_EMPTY: &str = "d41d8cd98f00b204e9800998ecf8427e";
const MD5_ABC: &str = "900150983cd24fb0d6963f7d28e17f72";
const SHA1_ABC: &str = "a9993e364706816aba3e25717850c26c9cd0d89d";
const SHA256_ABC: &str = "ba7816bf8f01cfea414140de5dae2223b00361a396177a9cb410ff61f20015ad";
const SHA512_ABC: &str = "ddaf35a193617abacc417349ae20413112e6fa4e89a97ea20a9eeee64b55d39a2192992a274fc1a836ba3c23a3feebbd454d4423643ce80e2a9ac94fa54ca49f";

#[test]
fn checksum_text_round_trip() {
    for text in [MD5_EMPTY, SHA1_ABC, SHA256_ABC, SHA512_ABC] {
        let c = Checksum::try_from(text).unwrap();
        assert_eq!(c.to_string(), text);
    }
}

#[test]
fn the_length_of_the_text_gives_the_kind() {
    assert!(matches!(Checksum::try_from(MD5_EMPTY), Ok(Checksum::Md5(_))));
    assert!(matches!(Checksum::try_from(SHA1_ABC), Ok(Checksum::Sha1(_))));
    assert!(matches!(Checksum::try_from(SHA256_ABC), Ok(Checksum::Sha256(_))));
    assert!(matches!(Checksum::try_from(SHA512_ABC), Ok(Checksum::Sha512(_))));
}

#[test]
fn hexadecimal_digits_are_decoded() {
    let c = Checksum::try_from("000102030405060708090a0b0c0d0e0f").unwrap();
    assert_eq!(c, Checksum::Md5([0, 1, 2, 3, 4, 5, 6, 7, 8, 9, 10, 11, 12, 13, 14, 15]));
    let c = Checksum::try_from("ff00ff00ff00ff00ff00ff00ff00ff10").unwrap();
    assert_eq!(
        c,
        Checksum::Md5([255, 0, 255, 0, 255, 0, 255, 0, 255, 0, 255, 0, 255, 0, 255, 16])
    );
}

#[test]
fn upper_case_is_read_and_lower_case_is_written() {
    let c = Checksum::try_from("D41D8CD98F00B204E9800998ECF8427E").unwrap();
    assert_eq!(c, Checksum::try_from(MD5_EMPTY).unwrap());
    assert_eq!(c.to_string(), MD5_EMPTY);
}

#[test]
fn a_text_of_another_length_is_no_checksum() {
    for text in ["", "abc", "d41d8cd98f00b204e9800998ecf8427", "d41d8cd98f00b204e9800998ecf8427e0"] {
        match Checksum::try_from(text) {
            Err(MirsError::IntoChecksum { value }) => assert_eq!(value, text),
            other => panic!("unexpected: {:?}", other),
        }
    }
}

#[test]
fn a_text_that_is_not_hexadecimal_is_refused() {
    let text = "g41d8cd98f00b204e9800998ecf8427e";
    match Checksum::try_from(text) {
        Err(MirsError::Hex { cause }) => {
            assert_eq!(cause, HexError::InvalidHexCharacter { c: 'g', index: 0 })
        }
        other => panic!("unexpected: {:?}", other),
    }
    let two_bytes_each = "\u{e4}".repeat(16);
    assert!(matches!(Checksum::try_from(&two_bytes_each), Err(MirsError::Hex { .. })));
}

#[test]
fn bits_is_the_length_of_the_digest() {
    assert_eq!(Checksum::Md5([0; 16]).bits(), 16);
    assert_eq!(Checksum::Sha1([0; 20]).bits(), 20);
    assert_eq!(Checksum::Sha256([0; 32]).bits(), 32);
    assert_eq!(Checksum::Sha512([0; 64]).bits(), 64);
}

#[test]
fn a_stronger_checksum_replaces_a_weaker_one() {
    let mut held = Checksum::Md5([1; 16]);
    held.replace_if_stronger(Checksum::Sha256([2; 32]));
    assert_eq!(held, Checksum::Sha256([2; 32]));
    held.replace_if_stronger(Checksum::Sha1([3; 20]));
    assert_eq!(held, Checksum::Sha256([2; 32]));
    held.replace_if_stronger(Checksum::Sha256([4; 32]));
    assert_eq!(held, Checksum::Sha256([2; 32]));
    held.replace_if_stronger(Checksum::Sha512([5; 64]));
    assert_eq!(held, Checksum::Sha512([5; 64]));
}

#[test]
fn strength_goes_from_md5_up_to_sha512() {
    let kinds = [ChecksumType::Md5, ChecksumType::Sha1, ChecksumType::Sha256, ChecksumType::Sha512];
    let held = [
        Checksum::Md5([0; 16]),
        Checksum::Sha1([0; 20]),
        Checksum::Sha256([0; 32]),
        Checksum::Sha512([0; 64]),
    ];
    for (i, h) in held.iter().enumerate() {
        for (k, kind) in kinds.iter().enumerate() {
            assert_eq!(ChecksumType::is_stronger(&Some(*h), *kind), i < k);
        }
    }
    for kind in kinds {
        assert!(ChecksumType::is_stronger(&None, kind));
    }
}

#[test]
fn the_by_hash_path_names_kind_and_digest() {
    assert_eq!(
        Checksum::try_from(MD5_EMPTY).unwrap().relative_path(),
        format!("by-hash/MD5Sum/{}", MD5_EMPTY)
    );
    assert_eq!(
        Checksum::try_from(SHA1_ABC).unwrap().relative_path(),
        format!("by-hash/SHA1/{}", SHA1_ABC)
    );
    assert_eq!(
        Checksum::try_from(SHA256_ABC).unwrap().relative_path(),
        format!("by-hash/SHA256/{}", SHA256_ABC)
    );
    assert_eq!(
        Checksum::try_from(SHA512_ABC).unwrap().relative_path(),
        format!("by-hash/SHA512/{}", SHA512_ABC)
    );
}

#[test]
fn the_digests_of_known_data() {
    let mut h = Md5Hasher::new();
    h.consume(b"abc");
    assert_eq!(h.compute().to_string(), MD5_ABC);
    let h = Md5Hasher::new();
    assert_eq!(h.compute().to_string(), MD5_EMPTY);
    let mut h = Sha1Hasher::new();
    h.consume(b"abc");
    assert_eq!(h.compute().to_string(), SHA1_ABC);
    let mut h = Sha256Hasher::new();
    h.consume(b"abc");
    assert_eq!(h.compute().to_string(), SHA256_ABC);
    let mut h = Sha512Hasher::new();
    h.consume(b"abc");
    assert_eq!(h.compute().to_string(), SHA512_ABC);
}

#[test]
fn pieces_give_the_digest_of_the_whole() {
    for expected in [MD5_ABC, SHA1_ABC, SHA256_ABC, SHA512_ABC] {
        let checksum = Checksum::try_from(expected).unwrap();
        let mut h = checksum.create_hasher();
        h.consume(b"a");
        h.consume(b"");
        h.consume(b"bc");
        assert_eq!(h.compute(), checksum);
    }
}

#[test]
fn the_hasher_is_of_the_kind_of_the_checksum() {
    let checksum = Checksum::try_from(SHA256_ABC).unwrap();
    let h = checksum.create_hasher();
    assert!(matches!(h.compute(), Checksum::Sha256(_)));
    assert!(checksum.matches_data(b"abc"));
    assert!(!checksum.matches_data(b"abd"));
    assert!(!Checksum::try_from(MD5_EMPTY).unwrap().matches_data(b"abc"));
    assert!(Checksum::try_from(MD5_EMPTY).unwrap().matches_data(b""));
}

#[test]
fn same_compares_kind_and_digest() {
    let a = Checksum::Md5([7; 16]);
    assert!(a.same(&Checksum::Md5([7; 16])));
    assert!(!a.same(&Checksum::Md5([8; 16])));
    assert!(!Checksum::Sha256([0; 32]).same(&Checksum::Sha512([0; 64])));
}
