//! The installer images of a suite: which to fetch anew and which to remove,
//! by the sum file of the mirror and the sum file that was fetched.

use crate::checksum::Checksum;
use crate::download::Download;
use crate::download::DownloadModel;
use crate::index::IndexEntryModel;
use crate::index::IndexFileEntry;
use crate::path::join_chars;
use crate::path::join_paths;
use crate::path::parent_of;
use crate::path::FilePath;
use crate::release::paths;
use crate::release::Digest;
use crate::repository::under;
use crate::repository::Repository;
use crate::repository::RepositoryModel;
use crate::text::chars_of;
use crate::text::string_of;
use crate::textmap::lookup;
use crate::textmap::upsert;
use crate::textmap::without_key;
use crate::textmap::TextMap;
use vstd::prelude::*;

verus! {

/// The checksum that a sum file lists for an image.
#[derive(Clone, Copy, Debug)]
pub struct ImageSum {
    pub checksum: Option<Checksum>,
}

impl View for ImageSum {
    type V = Option<Digest>;

    open spec fn view(&self) -> Option<Digest> {
        match self.checksum {
            Some(c) => Some(c@),
            None => None,
        }
    }
}

/// The views of a list of entries.
pub open spec fn entry_models(v: Seq<IndexFileEntry>) -> Seq<IndexEntryModel> {
    v.map_values(|e: IndexFileEntry| e@)
}

/// The views of a list of requests.
pub open spec fn download_models(v: Seq<Download>) -> Seq<DownloadModel> {
    v.map_values(|d: Download| d@)
}

/// The images that the first `n` entries of the old sum file list, by path.
pub open spec fn old_images(old: Seq<IndexEntryModel>, n: int) -> Seq<(Seq<char>, Option<Digest>)>
    decreases n,
{
    if n <= 0 || n > old.len() {
        Seq::empty()
    } else {
        upsert(old_images(old, n - 1), old[n - 1].path, old[n - 1].checksum)
    }
}

/// The run through the new sum file: the old images that no entry has
/// named yet, and the requests so far.
pub struct InstallerState {
    pub old: Seq<(Seq<char>, Option<Digest>)>,
    pub downloads: Seq<DownloadModel>,
}

/// The request for an image: it lies beside the sum file in the staging
/// directory, is fetched whatever is in place, and must have the checksum
/// that the sum file lists.
pub open spec fn image_request(repo: RepositoryModel, base: Seq<char>, e: IndexEntryModel) -> Option<
    DownloadModel,
> {
    let new_path = join_paths(base, e.path);
    match under(repo.tmp_dir, new_path) {
        None => None,
        Some(rel) => Some(
            DownloadModel {
                url: repo.root_url + seq!['/'] + rel,
                size: None,
                checksum: e.checksum,
                primary_target_path: new_path,
                symlink_paths: Seq::empty(),
                always_download: true,
            },
        ),
    }
}

/// The state after one more entry of the new sum file. An image that the
/// old sum file lists with the same checksum is in place. Any other image
/// is fetched. Either way the old sum file has no part in it any more.
pub open spec fn image_applied(
    st: InstallerState,
    repo: RepositoryModel,
    base: Seq<char>,
    e: IndexEntryModel,
) -> Option<InstallerState> {
    let rest = without_key(st.old, e.path);
    if lookup(st.old, e.path) == Some(e.checksum) {
        Some(InstallerState { old: rest, downloads: st.downloads })
    } else {
        match image_request(repo, base, e) {
            Some(d) => Some(InstallerState { old: rest, downloads: st.downloads.push(d) }),
            None => None,
        }
    }
}

/// The state after the first `n` entries of the new sum file; `None` where
/// an image does not lie in the staging directory.
pub open spec fn images_after(
    old: Seq<IndexEntryModel>,
    new: Seq<IndexEntryModel>,
    repo: RepositoryModel,
    base: Seq<char>,
    n: int,
) -> Option<InstallerState>
    decreases n,
{
    if n <= 0 || n > new.len() {
        Some(InstallerState { old: old_images(old, old.len() as int), downloads: Seq::empty() })
    } else {
        match images_after(old, new, repo, base, n - 1) {
            Some(st) => image_applied(st, repo, base, new[n - 1]),
            None => None,
        }
    }
}

/// What the installer step does for one sum file.
#[derive(Debug)]
pub struct InstallerPlan {
    /// The images to fetch.
    pub downloads: Vec<Download>,
    /// The images of the mirror that the new sum file does not list.
    pub delete_paths: Vec<FilePath>,
}

/// Where the old images lie that are to go: under the directory of the sum
/// file in the mirror.
pub open spec fn stale_paths(old_base: Seq<char>, rest: Seq<(Seq<char>, Option<Digest>)>) -> Seq<
    Seq<char>,
> {
    Seq::new(rest.len(), |i: int| join_paths(old_base, rest[i].0))
}

/// The directory of the sum file in the mirror, by its place in the staging
/// directory.
pub open spec fn old_base_of(repo: RepositoryModel, sum_path: Seq<char>) -> Option<Seq<char>> {
    match under(repo.tmp_dir, sum_path) {
        None => None,
        Some(rel) => parent_of(repo.root_dir + seq!['/'] + rel),
    }
}

pub proof fn lemma_images_none_stays(
    old: Seq<IndexEntryModel>,
    new: Seq<IndexEntryModel>,
    repo: RepositoryModel,
    base: Seq<char>,
    m: int,
    n: int,
)
    requires
        0 <= m <= n <= new.len(),
        images_after(old, new, repo, base, m) is None,
    ensures
        images_after(old, new, repo, base, n) is None,
    decreases n - m,
{
    if m < n {
        lemma_images_none_stays(old, new, repo, base, m, n - 1);
    }
}

fn same_sum(a: &Option<Checksum>, b: &Option<Checksum>) -> (r: bool)
    ensures
        r == ((ImageSum { checksum: *a })@ == (ImageSum { checksum: *b })@),
{
    match (a, b) {
        (Some(x), Some(y)) => x.same(y),
        (None, None) => true,
        _ => false,
    }
}

/// What the installer step does for the sum file at `sum_path` in the
/// staging directory: `old` are the entries of the sum file of the mirror,
/// `new` those of the sum file that was fetched. `None` where the sum file
/// does not lie in a directory of the staging directory.
pub fn plan_installer(
    repo: &Repository,
    sum_path: &FilePath,
    old: &Vec<IndexFileEntry>,
    new: &Vec<IndexFileEntry>,
) -> (r: Option<InstallerPlan>)
    ensures
        match r {
            Some(plan) => parent_of(sum_path@) is Some && old_base_of(repo@, sum_path@) is Some
                && (images_after(
                entry_models(old@),
                entry_models(new@),
                repo@,
                parent_of(sum_path@)->0,
                new@.len() as int,
            ) matches Some(st) && download_models(plan.downloads@) == st.downloads && paths(
                plan.delete_paths@,
            ) == stale_paths(old_base_of(repo@, sum_path@)->0, st.old)),
            None => parent_of(sum_path@) is None || old_base_of(repo@, sum_path@) is None
                || images_after(
                entry_models(old@),
                entry_models(new@),
                repo@,
                parent_of(sum_path@)->0,
                new@.len() as int,
            ) is None,
        },
{
    let base: Vec<char> = match sum_path.parent() {
        Some(p) => chars_of(p),
        None => {
            return None;
        },
    };
    let rel = match repo.strip_tmp_base(sum_path.as_str()) {
        Some(rel) => rel,
        None => {
            return None;
        },
    };
    let old_path = repo.rebase_rel_to_root(rel.as_str());
    let old_base: Vec<char> = match old_path.parent() {
        Some(p) => chars_of(p),
        None => {
            return None;
        },
    };
    let mut old_map: TextMap<ImageSum> = TextMap::new();
    let mut i: usize = 0;
    while i < old.len()
        invariant
            i <= old.len(),
            old_map@ == old_images(entry_models(old@), i as int),
        decreases old.len() - i,
    {
        old_map.insert(
            chars_of(old[i].path.as_str()),
            ImageSum { checksum: old[i].checksum },
        );
        i += 1;
    }
    let mut downloads: Vec<Download> = Vec::new();
    let mut k: usize = 0;
    assert(download_models(downloads@) =~= Seq::<DownloadModel>::empty());
    while k < new.len()
        invariant
            k <= new.len(),
            base@ == parent_of(sum_path@)->0,
            images_after(entry_models(old@), entry_models(new@), repo@, base@, k as int) == Some(
                InstallerState { old: old_map@, downloads: download_models(downloads@) },
            ),
        decreases new.len() - k,
    {
        let key = chars_of(new[k].path.as_str());
        let held = old_map.remove(key.as_slice());
        let in_place = match held {
            Some(sum) => same_sum(&sum.checksum, &new[k].checksum),
            None => false,
        };
        if !in_place {
            let new_path = join_chars(base.as_slice(), key.as_slice());
            let new_path = FilePath(string_of(new_path.as_slice()));
            let rel = match repo.strip_tmp_base(new_path.as_str()) {
                Some(rel) => rel,
                None => {
                    proof {
                        lemma_images_none_stays(
                            entry_models(old@),
                            entry_models(new@),
                            repo@,
                            base@,
                            k + 1,
                            new@.len() as int,
                        );
                    }
                    return None;
                },
            };
            let url = repo.to_url_in_root(rel.as_str());
            let ghost before = download_models(downloads@);
            let dl = repo.create_raw_download(new_path, url, new[k].checksum);
            downloads.push(dl);
            assert(download_models(downloads@) =~= before.push(dl@));
        }
        k += 1;
    }
    let mut delete_paths: Vec<FilePath> = Vec::new();
    let mut j: usize = 0;
    assert(paths(delete_paths@) =~= stale_paths(old_base@, old_map@).take(0));
    while j < old_map.len()
        invariant
            j <= old_map@.len(),
            paths(delete_paths@) == stale_paths(old_base@, old_map@).take(j as int),
        decreases old_map@.len() - j,
    {
        let ghost before = paths(delete_paths@);
        let p = join_chars(old_base.as_slice(), old_map.key_at(j).as_slice());
        delete_paths.push(FilePath(string_of(p.as_slice())));
        assert(paths(delete_paths@) =~= before.push(p@));
        assert(stale_paths(old_base@, old_map@).take(j + 1) =~= stale_paths(
            old_base@,
            old_map@,
        ).take(j as int).push(p@));
        j += 1;
    }
    assert(stale_paths(old_base@, old_map@).take(old_map@.len() as int) =~= stale_paths(
        old_base@,
        old_map@,
    ));
    Some(InstallerPlan { downloads, delete_paths })
}

} // verus!
