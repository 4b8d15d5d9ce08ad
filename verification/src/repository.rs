//! A repository: where a target lies upstream, where its mirror lies, and
//! where a run stages what it fetches.

use crate::checksum::Checksum;
use crate::config::dist_part_of;
use crate::config::MirrorOpts;
use crate::download::Download;
use crate::download::DownloadModel;
use crate::error::MirsError;
use crate::index::IndexEntryModel;
use crate::index::IndexFileEntry;
use crate::path::join_chars;
use crate::path::join_paths;
use crate::path::FilePath;
use crate::release::entry_paths;
use crate::release::EntryModel;
use crate::release::FileEntry;
use crate::text::append_chars;
use crate::text::chars_of;
use crate::text::lit;
use crate::text::starts_with;
use crate::text::string_of;
use crate::text::strip_prefix;
use crate::text::strip_prefix_exec;
use crate::text::to_vec;
use crate::text::without_leading;
use crate::text::without_leading_exec;
use vstd::prelude::*;

verus! {

/// The host of a URL, as it is written, and its path; `None` for a text that
/// is no URL or a URL without host.
pub uninterp spec fn url_location(url: Seq<char>) -> Option<(Seq<char>, Seq<char>)>;

/// `reqwest::Url::parse`, then `Url::host` as it is displayed and
/// `Url::path`: the host and the path of the URL.
#[verifier::external_body]
fn locate_url(url: &str) -> (r: Option<(String, String)>)
    ensures
        match r {
            Some((host, path)) => url_location(url@) == Some((host@, path@)),
            None => url_location(url@) is None,
        },
{
    match reqwest::Url::parse(url) {
        Ok(parsed) => match parsed.host() {
            Some(host) => Some((host.to_string(), parsed.path().to_string())),
            None => None,
        },
        Err(_) => None,
    }
}

/// A repository of one target.
#[derive(Debug, Default)]
pub struct Repository {
    pub root_url: String,
    pub root_dir: FilePath,
    pub dist_url: String,
    pub tmp_dir: FilePath,
    pub has_pgp_key: bool,
}

/// A `Repository` as plain values.
pub struct RepositoryModel {
    pub root_url: Seq<char>,
    pub root_dir: Seq<char>,
    pub dist_url: Seq<char>,
    pub tmp_dir: Seq<char>,
    pub has_pgp_key: bool,
}

impl View for Repository {
    type V = RepositoryModel;

    open spec fn view(&self) -> RepositoryModel {
        RepositoryModel {
            root_url: self.root_url@,
            root_dir: self.root_dir@,
            dist_url: self.dist_url@,
            tmp_dir: self.tmp_dir@,
            has_pgp_key: self.has_pgp_key,
        }
    }
}

/// `part` with an underscore in place of each slash.
pub open spec fn sanitized(part: Seq<char>) -> Seq<char> {
    Seq::new(
        part.len(),
        |i: int|
            if part[i] == '/' {
                '_'
            } else {
                part[i]
            },
    )
}

/// The URL under which the indices of a suite lie: the root for a flat
/// repository, else `dists/` and the suite under the root.
pub open spec fn dist_url_of(root_url: Seq<char>, suite: Seq<char>) -> Seq<char> {
    if suite == seq!['/'] {
        root_url
    } else {
        root_url + seq!['/'] + dist_part_of(suite)
    }
}

/// The directory of the mirror: the host under the output directory, and
/// the path of the URL under that.
pub open spec fn root_dir_of(output: Seq<char>, host: Seq<char>, path: Seq<char>) -> Seq<char> {
    if path.len() > 0 && path[0] == '/' {
        join_paths(join_paths(output, host), path.subrange(1, path.len() as int))
    } else {
        join_paths(output, host)
    }
}

/// The staging directory of a run: under `.tmp` in the output directory, by
/// host, path and suite.
pub open spec fn tmp_dir_of(
    output: Seq<char>,
    host: Seq<char>,
    path: Seq<char>,
    suite: Seq<char>,
) -> Seq<char> {
    join_paths(
        output,
        ".tmp/"@ + host + (if path == seq!['/'] {
            Seq::empty()
        } else {
            sanitized(path)
        }) + seq!['_'] + suite,
    )
}

/// The repository of a target whose URL has the given host and path, under
/// the output directory; `staged` says whether a run stages into it.
pub open spec fn laid_out(
    t: crate::config::MirrorTarget,
    output: Seq<char>,
    staged: bool,
    host: Seq<char>,
    path: Seq<char>,
) -> RepositoryModel {
    RepositoryModel {
        root_url: without_leading(t.url, '/'),
        root_dir: root_dir_of(output, host, path),
        dist_url: dist_url_of(without_leading(t.url, '/'), t.suite),
        tmp_dir: if staged {
            tmp_dir_of(output, host, path, t.suite)
        } else {
            Seq::empty()
        },
        has_pgp_key: t.pgp_pub_key is Some,
    }
}

/// The repository of a target under the output directory; `staged` says
/// whether a run stages into it. A target whose URL has no host has none.
pub open spec fn repository_of(
    t: crate::config::MirrorTarget,
    output: Seq<char>,
    staged: bool,
) -> Option<RepositoryModel> {
    match url_location(without_leading(t.url, '/')) {
        None => None,
        Some((host, path)) => Some(laid_out(t, output, staged, host, path)),
    }
}

pub fn sanitize_path_part(part: &[char]) -> (r: Vec<char>)
    ensures
        r@ == sanitized(part@),
{
    let mut out: Vec<char> = Vec::new();
    let mut i: usize = 0;
    while i < part.len()
        invariant
            i <= part.len(),
            out@ == sanitized(part@).take(i as int),
        decreases part.len() - i,
    {
        let c = part[i];
        if c == '/' {
            out.push('_');
        } else {
            out.push(c);
        }
        assert(out@ =~= sanitized(part@).take(i + 1));
        i += 1;
    }
    assert(sanitized(part@).take(part@.len() as int) =~= sanitized(part@));
    out
}

/// What was found where the staging directory is to stand.
#[derive(Debug)]
pub enum Probe {
    /// Nothing is there.
    Missing,
    /// Something is there.
    Present,
    /// The place could not be looked at.
    Failed(String),
}

/// Whether a run may create its staging directory: only where nothing is
/// there. A directory that is there belongs to another run.
pub fn check_staging(tmp_dir: &FilePath, probe: Probe) -> (r: Result<(), MirsError>)
    ensures
        match probe {
            Probe::Missing => r is Ok,
            Probe::Present => r matches Err(MirsError::Tmp { msg }) && msg@
                == "tmp folder already exists for this repository. aptmirs is probably currently running. if it is not, delete "@
                + tmp_dir@,
            Probe::Failed(m) => r matches Err(MirsError::Tmp { msg }) && msg@ == m@,
        },
{
    match probe {
        Probe::Missing => Ok(()),
        Probe::Present => {
            let mut msg = lit(
                "tmp folder already exists for this repository. aptmirs is probably currently running. if it is not, delete ",
            );
            let dir = chars_of(tmp_dir.as_str());
            append_chars(&mut msg, dir.as_slice());
            Err(MirsError::Tmp { msg: string_of(msg.as_slice()) })
        },
        Probe::Failed(m) => Err(MirsError::Tmp { msg: m }),
    }
}

fn build_repository(mirror_opts: &MirrorOpts, output: &FilePath, staged: bool) -> (r: Result<
    Repository,
    MirsError,
>)
    ensures
        match r {
            Ok(repo) => repository_of(mirror_opts@, output@, staged) == Some(repo@) && repo@.wf(),
            Err(e) => repository_of(mirror_opts@, output@, staged) is None && (
            e matches MirsError::UrlParsing { url } && url@ == without_leading(
                mirror_opts@.url,
                '/',
            )),
        },
{
    let url = chars_of(mirror_opts.url.as_str());
    let root_url = string_of(without_leading_exec(url.as_slice(), '/'));
    match locate_url(root_url.as_str()) {
        Some((host, path)) => Ok(
            Repository::from_location(mirror_opts, output, staged, host.as_str(), path.as_str()),
        ),
        None => Err(MirsError::UrlParsing { url: root_url }),
    }
}

impl Repository {
    /// The repository of a target whose URL has the given host and path:
    /// its mirror lies under the host and the path in the output directory,
    /// its indices under the URL of its suite, and, where a run stages into
    /// it, its staging directory under `.tmp`.
    pub fn from_location(
        mirror_opts: &MirrorOpts,
        output: &FilePath,
        staged: bool,
        host: &str,
        path: &str,
    ) -> (repo: Repository)
        ensures
            repo@ == laid_out(mirror_opts@, output@, staged, host@, path@),
            repo@.wf(),
    {
        let url = chars_of(mirror_opts.url.as_str());
        let root = without_leading_exec(url.as_slice(), '/');
        let root_url = string_of(root);
        let dist_url = if mirror_opts.flat() {
            string_of(root)
        } else {
            let mut d = to_vec(root);
            d.push('/');
            let part = chars_of(mirror_opts.dist_part().as_str());
            append_chars(&mut d, part.as_slice());
            assert(d@ =~= root@ + seq!['/'] + dist_part_of(mirror_opts@.suite));
            string_of(d.as_slice())
        };
        assert(dist_url@ == dist_url_of(root@, mirror_opts@.suite));
        let host_chars = chars_of(host);
        let path_chars = chars_of(path);
        let out_chars = chars_of(output.as_str());
        let with_host = join_chars(out_chars.as_slice(), host_chars.as_slice());
        let root_dir = if path_chars.len() > 0 && path_chars[0] == '/' {
            let rest = vstd::slice::slice_subrange(path_chars.as_slice(), 1, path_chars.len());
            join_chars(with_host.as_slice(), rest)
        } else {
            with_host
        };
        let tmp_dir = if staged {
            let mut name = lit(".tmp/");
            append_chars(&mut name, host_chars.as_slice());
            if !(path_chars.len() == 1 && path_chars[0] == '/') {
                let part = sanitize_path_part(path_chars.as_slice());
                append_chars(&mut name, part.as_slice());
                assert(path_chars@ != seq!['/']) by {
                    if path_chars@ == seq!['/'] {
                        assert(path_chars@.len() == 1 && path_chars@[0] == '/');
                    }
                }
            } else {
                assert(path_chars@ =~= seq!['/']);
                assert(name@ =~= ".tmp/"@ + host@ + Seq::<char>::empty());
            }
            let ghost head = name@;
            name.push('_');
            let suite = chars_of(mirror_opts.suite.as_str());
            append_chars(&mut name, suite.as_slice());
            assert(name@ =~= head + seq!['_'] + suite@);
            join_chars(out_chars.as_slice(), name.as_slice())
        } else {
            Vec::new()
        };
        assert(root_dir@ == root_dir_of(output@, host@, path@));
        assert(staged ==> tmp_dir@ == tmp_dir_of(output@, host@, path@, mirror_opts@.suite));
        let repo = Repository {
            root_url,
            root_dir: FilePath(string_of(root_dir.as_slice())),
            dist_url,
            tmp_dir: FilePath(string_of(tmp_dir.as_slice())),
            has_pgp_key: mirror_opts.pgp_pub_key.is_some(),
        };
        assert(repo@.dist_url.subrange(0, repo@.root_url.len() as int) =~= repo@.root_url);
        repo
    }
}

impl Repository {
    /// The repository of a target under the output directory, without a
    /// staging directory.
    pub fn build(mirror_opts: &MirrorOpts, output: &FilePath) -> (r: Result<Repository, MirsError>)
        ensures
            match r {
                Ok(repo) => repository_of(mirror_opts@, output@, false) == Some(repo@)
                    && repo@.wf(),
                Err(e) => repository_of(mirror_opts@, output@, false) is None && (
                e matches MirsError::UrlParsing { url } && url@ == without_leading(
                    mirror_opts@.url,
                    '/',
                )),
            },
    {
        build_repository(mirror_opts, output, false)
    }

    /// The repository of a target under the output directory, with the
    /// staging directory of a run.
    pub fn build_with_tmp(mirror_opts: &MirrorOpts, output: &FilePath) -> (r: Result<
        Repository,
        MirsError,
    >)
        ensures
            match r {
                Ok(repo) => repository_of(mirror_opts@, output@, true) == Some(repo@)
                    && repo@.wf(),
                Err(e) => repository_of(mirror_opts@, output@, true) is None && (
                e matches MirsError::UrlParsing { url } && url@ == without_leading(
                    mirror_opts@.url,
                    '/',
                )),
            },
    {
        build_repository(mirror_opts, output, true)
    }

    /// The URLs of the three release files: `InRelease`, `Release` and
    /// `Release.gpg` under the URL of the suite.
    pub fn release_urls(&self) -> (r: [String; 3])
        ensures
            r@[0]@ == self@.dist_url + "/InRelease"@,
            r@[1]@ == self@.dist_url + "/Release"@,
            r@[2]@ == self@.dist_url + "/Release.gpg"@,
    {
        let base = chars_of(self.dist_url.as_str());
        let mut a = to_vec(base.as_slice());
        append_chars(&mut a, lit("/InRelease").as_slice());
        let mut b = to_vec(base.as_slice());
        append_chars(&mut b, lit("/Release").as_slice());
        let mut c = to_vec(base.as_slice());
        append_chars(&mut c, lit("/Release.gpg").as_slice());
        [string_of(a.as_slice()), string_of(b.as_slice()), string_of(c.as_slice())]
    }

    pub fn has_specified_pgp_key(&self) -> (r: bool)
        ensures
            r == self@.has_pgp_key,
    {
        self.has_pgp_key
    }

    /// `path` without the directory of the mirror before it, and without the
    /// slash after that; `path` itself where it does not lie there.
    pub fn strip_root(&self, path: &str) -> (r: String)
        ensures
            r@ == rel_to(self@.root_dir, path@),
    {
        let p = chars_of(path);
        let root = chars_of(self.root_dir.as_str());
        match strip_prefix_exec(p.as_slice(), root.as_slice()) {
            Some(rest) => string_of(without_leading_exec(rest, '/')),
            None => string_of(p.as_slice()),
        }
    }

    /// What follows the staging directory in `path`, a path under it.
    pub fn rel_from_tmp(&self, path: &str) -> (r: String)
        requires
            starts_with(path@, self@.tmp_dir),
        ensures
            Some(r@) == strip_prefix(path@, self@.tmp_dir),
    {
        let p = chars_of(path);
        let tmp = chars_of(self.tmp_dir.as_str());
        match strip_prefix_exec(p.as_slice(), tmp.as_slice()) {
            Some(rest) => string_of(rest),
            None => String::new(),
        }
    }

    /// Where the file of `url`, a URL under the root, lies under `base`.
    fn to_path_in_local_dir(&self, base: &FilePath, url: &str) -> (r: FilePath)
        requires
            starts_with(url@, self@.root_url),
        ensures
            r@ == local_path(self@.root_url, base@, url@),
    {
        let u = chars_of(url);
        let root = chars_of(self.root_url.as_str());
        let b = chars_of(base.as_str());
        match strip_prefix_exec(u.as_slice(), root.as_slice()) {
            Some(rest) => {
                let rel = without_leading_exec(rest, '/');
                FilePath(string_of(join_chars(b.as_slice(), rel).as_slice()))
            },
            None => FilePath(String::new()),
        }
    }

    /// Where the file of `url` lies in the staging directory.
    pub fn to_path_in_tmp(&self, url: &str) -> (r: FilePath)
        requires
            starts_with(url@, self@.root_url),
        ensures
            r@ == local_path(self@.root_url, self@.tmp_dir, url@),
    {
        self.to_path_in_local_dir(&self.tmp_dir, url)
    }

    /// Where the file of `url` lies in the mirror.
    pub fn to_path_in_root(&self, url: &str) -> (r: FilePath)
        requires
            starts_with(url@, self@.root_url),
        ensures
            r@ == local_path(self@.root_url, self@.root_dir, url@),
    {
        self.to_path_in_local_dir(&self.root_dir, url)
    }

    /// The URL of a path of the manifest.
    pub fn to_url_in_dist(&self, path: &str) -> (r: String)
        ensures
            r@ == self@.dist_url + seq!['/'] + path@,
    {
        let mut out = chars_of(self.dist_url.as_str());
        out.push('/');
        append_chars(&mut out, chars_of(path).as_slice());
        string_of(out.as_slice())
    }

    /// The URL of a path under the root.
    pub fn to_url_in_root(&self, path: &str) -> (r: String)
        ensures
            r@ == self@.root_url + seq!['/'] + path@,
    {
        let mut out = chars_of(self.root_url.as_str());
        out.push('/');
        append_chars(&mut out, chars_of(path).as_slice());
        string_of(out.as_slice())
    }

    /// The path in the mirror of a path under the root.
    pub fn rebase_rel_to_root(&self, path: &str) -> (r: FilePath)
        ensures
            r@ == self@.root_dir + seq!['/'] + path@,
    {
        let mut out = chars_of(self.root_dir.as_str());
        out.push('/');
        append_chars(&mut out, chars_of(path).as_slice());
        FilePath(string_of(out.as_slice()))
    }

    /// Where a file of the staging directory goes in the mirror; `None` for
    /// a path that does not lie in the staging directory.
    pub fn tmp_to_root(&self, path: &str) -> (r: Option<FilePath>)
        ensures
            match r {
                Some(p) => strip_prefix(path@, self@.tmp_dir) is Some && p@ == join_paths(
                    self@.root_dir,
                    strip_prefix(path@, self@.tmp_dir)->0,
                ),
                None => strip_prefix(path@, self@.tmp_dir) is None,
            },
    {
        let p = chars_of(path);
        let tmp = chars_of(self.tmp_dir.as_str());
        let root = chars_of(self.root_dir.as_str());
        match strip_prefix_exec(p.as_slice(), tmp.as_slice()) {
            Some(rest) => Some(FilePath(string_of(join_chars(root.as_slice(), rest).as_slice()))),
            None => None,
        }
    }

    /// What follows the staging directory and its slash in `path`; `None`
    /// for a path that does not lie under the staging directory.
    pub fn strip_tmp_base(&self, path: &str) -> (r: Option<FilePath>)
        ensures
            match r {
                Some(p) => under(self@.tmp_dir, path@) == Some(p@),
                None => under(self@.tmp_dir, path@) is None,
            },
    {
        let p = chars_of(path);
        let tmp = chars_of(self.tmp_dir.as_str());
        match strip_prefix_exec(p.as_slice(), tmp.as_slice()) {
            Some(rest) => {
                if rest.len() > 0 && rest[0] == '/' {
                    Some(FilePath(string_of(vstd::slice::slice_subrange(rest, 1, rest.len()))))
                } else {
                    None
                }
            },
            None => None,
        }
    }

    /// The request for a file that an index lists: it goes to its place in
    /// the mirror, and is fetched unless it is in place.
    pub fn create_file_download(&self, package: IndexFileEntry) -> (r: Download)
        ensures
            r@ == file_download(self@, package@),
    {
        let url = self.to_url_in_root(package.path.as_str());
        proof {
            assert(url@.subrange(0, self@.root_url.len() as int) =~= self@.root_url);
        }
        let primary_target_path = self.to_path_in_root(url.as_str());
        let r = Download {
            url,
            size: package.size,
            checksum: package.checksum,
            primary_target_path,
            symlink_paths: Vec::new(),
            always_download: false,
        };
        assert(r@.symlink_paths =~= Seq::<Seq<char>>::empty());
        r
    }

    /// The request for a file that is fetched whatever is in place.
    pub fn create_raw_download(
        &self,
        target_path: FilePath,
        url: String,
        checksum: Option<Checksum>,
    ) -> (r: Download)
        ensures
            r@ == (DownloadModel {
                url: url@,
                size: None,
                checksum: match checksum {
                    Some(c) => Some(c@),
                    None => None,
                },
                primary_target_path: target_path@,
                symlink_paths: Seq::empty(),
                always_download: true,
            }),
    {
        let r = Download {
            url,
            size: None,
            checksum,
            primary_target_path: target_path,
            symlink_paths: Vec::new(),
            always_download: true,
        };
        assert(r@.symlink_paths =~= Seq::<Seq<char>>::empty());
        r
    }

    /// The request for a file of the manifest. With by-hash the file goes
    /// under its strongest digest, and its name and the places of its weaker
    /// digests lead to it; an entry without a digest is then an error.
    pub fn create_metadata_download(
        &self,
        url: String,
        file_path: FilePath,
        file_entry: FileEntry,
        by_hash: bool,
    ) -> (r: Result<Download, MirsError>)
        ensures
            match r {
                Ok(d) => metadata_download(url@, file_path@, file_entry@, by_hash) == Some(d@),
                Err(e) => metadata_download(url@, file_path@, file_entry@, by_hash) is None && e
                    == MirsError::NoReleaseFile,
            },
    {
        let size = file_entry.size;
        match file_entry.into_paths(&file_path, by_hash) {
            Ok((checksum, primary_target_path, symlink_paths)) => Ok(
                Download {
                    url,
                    size: Some(size),
                    checksum,
                    primary_target_path,
                    symlink_paths,
                    always_download: false,
                },
            ),
            Err(e) => Err(e),
        }
    }
}

/// `path` without `dir` before it and the slash after that; `path` itself
/// where it does not start with `dir`.
pub open spec fn rel_to(dir: Seq<char>, path: Seq<char>) -> Seq<char> {
    match strip_prefix(path, dir) {
        Some(rest) => without_leading(rest, '/'),
        None => path,
    }
}

/// What follows `dir` and a slash in `path`.
pub open spec fn under(dir: Seq<char>, path: Seq<char>) -> Option<Seq<char>> {
    match strip_prefix(path, dir) {
        Some(rest) => if rest.len() > 0 && rest[0] == '/' {
            Some(rest.subrange(1, rest.len() as int))
        } else {
            None
        },
        None => None,
    }
}

/// Where the file of `url`, a URL under `root_url`, lies under `base`.
pub open spec fn local_path(root_url: Seq<char>, base: Seq<char>, url: Seq<char>) -> Seq<char> {
    join_paths(base, without_leading(url.subrange(root_url.len() as int, url.len() as int), '/'))
}

/// The request for a file that an index lists.
pub open spec fn file_download(repo: RepositoryModel, entry: IndexEntryModel) -> DownloadModel {
    DownloadModel {
        url: repo.root_url + seq!['/'] + entry.path,
        size: entry.size,
        checksum: entry.checksum,
        primary_target_path: local_path(
            repo.root_url,
            repo.root_dir,
            repo.root_url + seq!['/'] + entry.path,
        ),
        symlink_paths: Seq::empty(),
        always_download: false,
    }
}

/// The request for a file of the manifest.
pub open spec fn metadata_download(
    url: Seq<char>,
    path: Seq<char>,
    e: EntryModel,
    by_hash: bool,
) -> Option<DownloadModel> {
    match entry_paths(e, path, by_hash) {
        Some((primary, links)) => Some(
            DownloadModel {
                url,
                size: Some(e.size),
                checksum: e.strongest(),
                primary_target_path: primary,
                symlink_paths: links,
                always_download: false,
            },
        ),
        None => None,
    }
}

/// With by-hash every digest of a file has its place among the names of the
/// request: the strongest is where the file lies, each weaker one leads to
/// it, and so does the name of the file itself.
pub proof fn law_by_hash_names_cover_digests(e: EntryModel, path: Seq<char>, k: int)
    requires
        0 <= k < e.digests().len(),
    ensures
        entry_paths(e, path, true) matches Some((primary, links)) && links.contains(path) && (
        join_paths(crate::release::hash_base(path), crate::release::hash_path(e.digests()[k]))
            == primary || links.contains(
            join_paths(crate::release::hash_base(path), crate::release::hash_path(e.digests()[k])),
        )),
{
    let links = crate::release::hash_links(e, path);
    assert(links[0] == path);
    if k > 0 {
        assert(links[k] == join_paths(
            crate::release::hash_base(path),
            crate::release::hash_path(e.digests()[k]),
        ));
    }
}


impl RepositoryModel {
    /// Whether the URL of the suite lies under the root URL.
    pub open spec fn wf(self) -> bool {
        starts_with(self.dist_url, self.root_url)
    }
}

} // verus!
