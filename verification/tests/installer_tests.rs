use aptmirs::checksum::Checksum;
use aptmirs::config::MirrorOpts;
use aptmirs::index::IndexFileEntry;
use aptmirs::installer::plan_installer;
use aptmirs::path::FilePath;
use aptmirs::repository::Repository;

fn repo() -> Repository {
    Repository::build_with_tmp(
        &MirrorOpts::try_from("deb [di_arch=amd64] http://h.org/debian bookworm main").unwrap(),
        &FilePath::new("/out"),
    )
    .unwrap()
}

fn image(path: &str, digit: u8) -> IndexFileEntry {
    IndexFileEntry { path: path.to_string(), size: None, checksum: Some(Checksum::Sha256([digit; 32])) }
}

const SUMS: &str = "/out/.tmp/h.org_debian_bookworm/dists/bookworm/main/installer-amd64/current/images/SHA256SUMS";

#[test]
fn new_and_changed_images_are_fetched_and_stale_ones_go() {
    let old = vec![image("./a.img", 1), image("./b.img", 2), image("./gone.img", 3)];
    let new = vec![image("./a.img", 1), image("./b.img", 9), image("./new.img", 4)];
    let plan = plan_installer(&repo(), &FilePath::new(SUMS), &old, &new).unwrap();
    assert_eq!(plan.downloads.len(), 2);
    let d = &plan.downloads[0];
    assert_eq!(
        d.url,
        "http://h.org/debian/dists/bookworm/main/installer-amd64/current/images/b.img"
    );
    assert_eq!(
        d.primary_target_path.as_str(),
        "/out/.tmp/h.org_debian_bookworm/dists/bookworm/main/installer-amd64/current/images/b.img"
    );
    assert_eq!(d.checksum, Some(Checksum::Sha256([9; 32])));
    assert_eq!(d.size, None);
    assert!(d.always_download);
    assert!(d.symlink_paths.is_empty());
    assert_eq!(
        plan.downloads[1].url,
        "http://h.org/debian/dists/bookworm/main/installer-amd64/current/images/new.img"
    );
    assert_eq!(
        plan.delete_paths,
        vec![FilePath::new("/out/h.org/debian/dists/bookworm/main/installer-amd64/current/images/gone.img")]
    );
}

#[test]
fn without_an_old_sum_file_every_image_is_fetched() {
    let new = vec![image("a.img", 1), image("b.img", 2)];
    let plan = plan_installer(&repo(), &FilePath::new(SUMS), &Vec::new(), &new).unwrap();
    assert_eq!(plan.downloads.len(), 2);
    assert!(plan.delete_paths.is_empty());
    let plan = plan_installer(&repo(), &FilePath::new(SUMS), &new, &new).unwrap();
    assert!(plan.downloads.is_empty());
    assert!(plan.delete_paths.is_empty());
}

#[test]
fn an_image_named_twice_is_fetched_the_second_time() {
    let old = vec![image("a.img", 1)];
    let new = vec![image("a.img", 1), image("a.img", 1)];
    let plan = plan_installer(&repo(), &FilePath::new(SUMS), &old, &new).unwrap();
    assert_eq!(plan.downloads.len(), 1);
    assert!(plan.delete_paths.is_empty());
}

#[test]
fn a_sum_file_outside_the_staging_directory_has_no_plan() {
    assert!(plan_installer(&repo(), &FilePath::new("/elsewhere/SHA256SUMS"), &Vec::new(), &Vec::new()).is_none());
    assert!(plan_installer(&repo(), &FilePath::new("SHA256SUMS"), &Vec::new(), &Vec::new()).is_none());
}
