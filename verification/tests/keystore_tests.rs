use aptmirs::error::MirsError;
use aptmirs::keystore::is_key_file;
use aptmirs::keystore::repository_candidates;
use aptmirs::keystore::trial_of;
use aptmirs::keystore::verdict;
use aptmirs::keystore::KeyRef;
use aptmirs::keystore::PgpKeyStore;
use aptmirs::keystore::Trial;
use aptmirs::path::FilePath;

fn store() -> PgpKeyStore {
    let mut s = PgpKeyStore::new();
    s.add_primary("ffaa", "bb01", 0);
    s.add_sub("ee11", "aa02", 0);
    s.add_sub("ee22", "aa03", 1);
    s.add_primary("0011", "cc04", 1);
    s
}

fn names(v: &[&str]) -> Vec<String> {
    v.iter().map(|s| s.to_string()).collect()
}

#[test]
fn a_signature_without_issuer_is_tried_against_every_key() {
    assert_eq!(
        store().candidates(&Vec::new(), &Vec::new()),
        vec![KeyRef::Primary(0), KeyRef::Primary(1), KeyRef::Sub(0), KeyRef::Sub(1)]
    );
    assert!(PgpKeyStore::new().candidates(&Vec::new(), &Vec::new()).is_empty());
}

#[test]
fn fingerprints_come_before_key_ids() {
    let s = store();
    assert_eq!(
        s.candidates(&names(&["ee22", "ffaa"]), &names(&["cc04", "aa02"])),
        vec![KeyRef::Sub(1), KeyRef::Primary(0), KeyRef::Primary(1), KeyRef::Sub(0)]
    );
    assert_eq!(s.candidates(&names(&["ffaa"]), &Vec::new()), vec![KeyRef::Primary(0)]);
    assert_eq!(s.candidates(&Vec::new(), &names(&["aa03"])), vec![KeyRef::Sub(1)]);
    assert!(s.candidates(&names(&["9999"]), &names(&["8888"])).is_empty());
}

#[test]
fn the_key_of_a_target_is_tried_before_its_subkeys() {
    assert_eq!(repository_candidates(0), vec![KeyRef::Primary(0)]);
    assert_eq!(
        repository_candidates(2),
        vec![KeyRef::Primary(0), KeyRef::Sub(0), KeyRef::Sub(1)]
    );
}

#[test]
fn one_signature_that_one_key_validates_is_enough() {
    let t = |had_key, verified| Trial { had_key, verified };
    assert!(verdict(&vec![t(true, false), t(true, true)]).is_ok());
    assert!(verdict(&vec![t(true, true)]).is_ok());
    assert!(matches!(verdict(&vec![t(true, false), t(false, false)]), Err(MirsError::PgpNotVerified)));
    assert!(matches!(verdict(&vec![t(false, false)]), Err(MirsError::PgpKeyVerification { .. })));
    assert!(matches!(verdict(&Vec::new()), Err(MirsError::PgpKeyVerification { .. })));
}

#[test]
fn key_files_are_known_by_their_extension() {
    assert!(is_key_file(&FilePath::new("keys/debian.asc")));
    assert!(is_key_file(&FilePath::new("keys/debian.gpg")));
    assert!(is_key_file(&FilePath::new("keys/debian.pgp")));
    assert!(is_key_file(&FilePath::new("keys/debian")));
    assert!(!is_key_file(&FilePath::new("keys/README.txt")));
    assert!(!is_key_file(&FilePath::new("keys/debian.asc.bak")));
}

#[test]
fn one_good_key_among_the_candidates_is_enough() {
    assert_eq!(trial_of(&Vec::new()), Trial { had_key: false, verified: false });
    assert_eq!(trial_of(&vec![false, false]), Trial { had_key: true, verified: false });
    assert_eq!(trial_of(&vec![false, true]), Trial { had_key: true, verified: true });
    assert_eq!(trial_of(&vec![true]), Trial { had_key: true, verified: true });
}
