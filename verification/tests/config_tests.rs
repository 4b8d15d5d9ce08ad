use aptmirs::config::merge_similar;
use aptmirs::config::read_config;
use aptmirs::config::MirrorOpts;
use aptmirs::error::MirsError;

fn message(r: Result<MirrorOpts, MirsError>) -> String {
    match r {
        Err(MirsError::Config { msg }) => msg,
        other => panic!("unexpected: {:?}", other),
    }
}

#[test]
fn a_line_with_a_bracket_of_options() {
    let t = MirrorOpts::try_from("deb [ arch=amd64,arm64 udeb=true ] http://example/ bookworm main contrib")
        .unwrap();
    assert_eq!(t.arch, vec!["amd64", "arm64"]);
    assert!(t.udeb);
    assert_eq!(t.components, vec!["main", "contrib"]);
    assert!(t.packages);
    assert!(!t.source);
    assert_eq!(t.url, "http://example");
    assert_eq!(t.suite, "bookworm");
    assert!(t.debian_installer_arch.is_empty());
    assert!(!t.pgp_verify);
    assert_eq!(t.pgp_pub_key, None);
}

#[test]
fn two_lines_for_one_slice_merge() {
    let a = MirrorOpts::try_from("deb-src http://x/ bookworm main").unwrap();
    let b = MirrorOpts::try_from("deb-src http://x/ bookworm contrib").unwrap();
    let merged = merge_similar(vec![a, b]);
    assert_eq!(merged.len(), 1);
    assert_eq!(merged[0].components, vec!["main", "contrib"]);
    assert!(merged[0].source);
    assert!(!merged[0].packages);
    let merged = read_config("deb-src http://x/ bookworm main\ndeb-src http://x/ bookworm contrib\n")
        .unwrap();
    assert_eq!(merged.len(), 1);
    assert_eq!(merged[0].components, vec!["main", "contrib"]);
}

#[test]
fn what_is_missing_gets_its_default() {
    let t = MirrorOpts::try_from("deb http://ftp.debian.org/debian bookworm").unwrap();
    assert_eq!(t.arch, vec!["amd64"]);
    assert_eq!(t.components, vec!["main"]);
    assert_eq!(t.url, "http://ftp.debian.org/debian");
}

#[test]
fn a_component_loses_the_path_before_it() {
    let t = MirrorOpts::try_from("deb http://x bookworm-security updates/main updates/contrib non-free")
        .unwrap();
    assert_eq!(t.components, vec!["main", "contrib", "non-free"]);
}

#[test]
fn the_options_of_the_bracket() {
    let t = MirrorOpts::try_from(
        "deb [arch=i386 di_arch=amd64,arm64 pgp_pub_key=/etc/key.asc udeb=TRUE unknown=1] http://x s c",
    )
    .unwrap();
    assert_eq!(t.arch, vec!["i386"]);
    assert_eq!(t.debian_installer_arch, vec!["amd64", "arm64"]);
    assert_eq!(t.pgp_pub_key, Some("/etc/key.asc".to_string()));
    assert!(t.pgp_verify);
    assert!(t.udeb);
    assert!(t.debian_installer());
}

#[test]
fn options_are_read_in_order() {
    let t = MirrorOpts::try_from("deb [pgp_pub_key=k pgp_verify=false] http://x s c").unwrap();
    assert!(!t.pgp_verify);
    assert_eq!(t.pgp_pub_key, Some("k".to_string()));
    let t = MirrorOpts::try_from("deb [pgp_verify=false pgp_pub_key=k] http://x s c").unwrap();
    assert!(t.pgp_verify);
    let t = MirrorOpts::try_from("deb [arch=a arch=b,c] http://x s c").unwrap();
    assert_eq!(t.arch, vec!["a", "b", "c"]);
    let t = MirrorOpts::try_from("deb [udeb=yes pgp_verify=True] http://x s c").unwrap();
    assert!(!t.udeb);
    assert!(t.pgp_verify);
    let t = MirrorOpts::try_from("deb [arch=] http://x s c").unwrap();
    assert_eq!(t.arch, vec![""]);
}

#[test]
fn each_fault_of_a_line_has_its_message() {
    assert_eq!(
        message(MirrorOpts::try_from("rpm http://x s c")),
        "mirror config must start with either 'deb' or 'deb-src'"
    );
    assert_eq!(
        message(MirrorOpts::try_from("deb [arch=amd64 http://x s c")),
        "options bracket is not closed"
    );
    assert_eq!(
        message(MirrorOpts::try_from("deb [arch] http://x s c")),
        "invalid format of options bracket"
    );
    assert_eq!(message(MirrorOpts::try_from("deb")), "no url specified");
    assert_eq!(message(MirrorOpts::try_from("deb [arch=a]  ")), "no url specified");
    assert_eq!(message(MirrorOpts::try_from("deb http://x")), "no suite specified");
}

#[test]
fn a_flat_repository_has_no_dist_part() {
    let t = MirrorOpts::try_from("deb http://x/flat /").unwrap();
    assert!(t.flat());
    assert_eq!(t.dist_part(), "");
    let t = MirrorOpts::try_from("deb http://x bookworm").unwrap();
    assert!(!t.flat());
    assert_eq!(t.dist_part(), "dists/bookworm");
}

#[test]
fn comments_and_empty_lines_are_passed_over() {
    let content = "# a comment\n\n  deb http://b s main # trailing\n   \n  # indented\ndeb http://a s main\n";
    let targets = read_config(content).unwrap();
    assert_eq!(targets.len(), 2);
    assert_eq!(targets[0].url, "http://a");
    assert_eq!(targets[1].url, "http://b");
    assert_eq!(targets[1].components, vec!["main"]);
}

#[test]
fn a_malformed_line_is_fatal() {
    let config = |content: &str| match read_config(content) {
        Err(MirsError::Config { msg }) => msg,
        other => panic!("unexpected: {:?}", other),
    };
    assert_eq!(
        config("deb http://a s main\nnonsense here\ndeb http://b s main\n"),
        "failed parsing config on line 2: mirror config must start with either 'deb' or 'deb-src'"
    );
    assert_eq!(
        config("# c\n\ndeb [arch http://a s\nrpm x\n"),
        "failed parsing config on line 3: options bracket is not closed"
    );
    assert_eq!(config("deb http://a\n"), "failed parsing config on line 1: no suite specified");
    assert_eq!(config("rpm x y"), "failed parsing config on line 1: mirror config must start with either 'deb' or 'deb-src'");
}

#[test]
fn a_file_without_targets_is_an_error() {
    for content in ["", "# only a comment\n", "\n   \n"] {
        match read_config(content) {
            Err(MirsError::Config { msg }) => assert_eq!(msg, "no valid repositories in config"),
            other => panic!("unexpected: {:?}", other),
        }
    }
}

#[test]
fn merging_unites_names_and_flags() {
    let lines = [
        "deb [arch=amd64 udeb=true] http://x s main",
        "deb http://y s main",
        "deb-src [arch=arm64,amd64 di_arch=amd64 pgp_pub_key=k] http://x s contrib main",
        "deb http://x t main",
    ];
    let targets = merge_similar(lines.iter().map(|l| MirrorOpts::try_from(l).unwrap()).collect());
    assert_eq!(targets.len(), 3);
    assert_eq!((targets[0].url.as_str(), targets[0].suite.as_str()), ("http://x", "s"));
    assert_eq!((targets[1].url.as_str(), targets[1].suite.as_str()), ("http://x", "t"));
    assert_eq!((targets[2].url.as_str(), targets[2].suite.as_str()), ("http://y", "s"));
    let t = &targets[0];
    assert_eq!(t.components, vec!["main", "contrib"]);
    assert_eq!(t.arch, vec!["amd64", "arm64"]);
    assert_eq!(t.debian_installer_arch, vec!["amd64"]);
    assert!(t.packages && t.source && t.udeb && t.pgp_verify);
    assert_eq!(t.pgp_pub_key, Some("k".to_string()));
}

#[test]
fn a_target_is_shown_with_its_parts() {
    let t = MirrorOpts::try_from("deb [arch=amd64,arm64] http://x/debian bookworm main contrib").unwrap();
    assert_eq!(t.describe(), "deb http://x/debian bookworm[amd64, arm64] main contrib");
    let t = MirrorOpts::try_from("deb-src http://x/debian bookworm").unwrap();
    assert_eq!(t.describe(), "deb-src http://x/debian bookworm[amd64] main");
    let t = MirrorOpts::try_from("deb http://x/flat /").unwrap();
    assert_eq!(t.describe(), "deb http://x/flat (flat)");
    let a = MirrorOpts::try_from("deb http://x s main").unwrap();
    let b = MirrorOpts::try_from("deb-src http://x s main").unwrap();
    assert_eq!(merge_similar(vec![a, b])[0].describe(), "deb+deb-src http://x s[amd64] main");
}
