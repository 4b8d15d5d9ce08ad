//! One file to fetch: what is asked for, whether it must be fetched, whether
//! what came is what was asked for, and how it is counted.

use crate::checksum::digest_of;
use crate::checksum::AnyHasher;
use crate::checksum::Checksum;
use crate::checksum::Hasher;
use crate::error::MirsError;
use crate::path::parent_of;
use crate::path::FilePath;
use crate::progress::Outcome;
use crate::progress::Progress;
use crate::progress::ProgressPart;
use crate::release::paths;
use crate::release::Digest;
use vstd::prelude::*;

verus! {

/// A file to fetch.
#[derive(Debug)]
pub struct Download {
    pub url: String,
    pub size: Option<u64>,
    pub checksum: Option<Checksum>,
    pub primary_target_path: FilePath,
    pub symlink_paths: Vec<FilePath>,
    pub always_download: bool,
}

/// A `Download` as plain values.
pub struct DownloadModel {
    pub url: Seq<char>,
    pub size: Option<u64>,
    pub checksum: Option<Digest>,
    pub primary_target_path: Seq<char>,
    pub symlink_paths: Seq<Seq<char>>,
    pub always_download: bool,
}

impl View for Download {
    type V = DownloadModel;

    open spec fn view(&self) -> DownloadModel {
        DownloadModel {
            url: self.url@,
            size: self.size,
            checksum: match self.checksum {
                Some(c) => Some(c@),
                None => None,
            },
            primary_target_path: self.primary_target_path@,
            symlink_paths: paths(self.symlink_paths@),
            always_download: self.always_download,
        }
    }
}

/// What is to be done for the file of a download.
#[derive(Clone, Copy, Debug, PartialEq, Eq, Structural)]
pub enum FetchAction {
    /// The file is in place: nothing is fetched.
    Keep,
    /// The file is empty: it is created, and nothing is fetched.
    CreateEmpty,
    /// The file is created and its content fetched.
    Fetch,
}

/// Whether the file must be written: always where the request says so;
/// else where nothing is in place, or what is in place is not of the size
/// that is asked for.
pub open spec fn must_write(d: DownloadModel, existing: Option<u64>) -> bool {
    d.always_download || match existing {
        Some(len) => match d.size {
            Some(size) => size != len,
            None => false,
        },
        None => true,
    }
}

/// What is to be done for the file, given the size of what is in place.
pub open spec fn fetch_action(d: DownloadModel, existing: Option<u64>) -> FetchAction {
    if !must_write(d, existing) {
        FetchAction::Keep
    } else if d.size == Some(0u64) {
        FetchAction::CreateEmpty
    } else {
        FetchAction::Fetch
    }
}

/// Whether the file must be written, given the size of what is in place.
pub fn needs_downloading(dl: &Download, existing: Option<u64>) -> (r: bool)
    ensures
        r == must_write(dl@, existing),
{
    if dl.always_download {
        return true;
    }
    match existing {
        Some(len) => match dl.size {
            Some(size) => size != len,
            None => false,
        },
        None => true,
    }
}

/// What is to be done for the file, given the size of what is in place.
pub fn plan_fetch(dl: &Download, existing: Option<u64>) -> (r: FetchAction)
    ensures
        r == fetch_action(dl@, existing),
{
    if !needs_downloading(dl, existing) {
        FetchAction::Keep
    } else {
        match dl.size {
            Some(0) => FetchAction::CreateEmpty,
            _ => FetchAction::Fetch,
        }
    }
}

/// Whether the answer of the server says that the file is not there.
pub fn is_absent(status_code: u16) -> (r: bool)
    ensures
        r == (status_code == 404),
{
    status_code == 404
}

/// The error for a file that the server does not have.
pub fn absent_error(dl: &Download, status_code: u16) -> (e: MirsError)
    ensures
        e matches MirsError::Download { url, status_code: s } && url@ == dl@.url && s
            == status_code,
{
    MirsError::Download { url: dl.url.clone(), status_code }
}

/// The body of a file as it comes in: its digest is computed along the way
/// where a checksum is expected.
pub struct Transfer {
    expected: Option<Checksum>,
    hasher: Option<AnyHasher>,
    count: u64,
    data: Ghost<Seq<u8>>,
}

impl Transfer {
    /// The checksum that the body must have.
    pub closed spec fn expected(&self) -> Option<Digest> {
        match self.expected {
            Some(c) => Some(c@),
            None => None,
        }
    }

    /// The bytes that have come in, in order.
    pub closed spec fn received(&self) -> Seq<u8> {
        self.data@
    }

    /// How many bytes have come in, counted as a wrapping counter counts.
    pub closed spec fn counted(&self) -> u64 {
        self.count
    }

    pub closed spec fn wf(&self) -> bool {
        match (self.expected, self.hasher) {
            (Some(c), Some(h)) => h.kind() == c.kind() && h.absorbed() == self.data@,
            (None, None) => true,
            _ => false,
        }
    }

    /// The start of the body of `dl`.
    pub fn begin(dl: &Download) -> (r: Transfer)
        ensures
            r.wf(),
            r.expected() == dl@.checksum,
            r.received() == Seq::<u8>::empty(),
            r.counted() == 0,
    {
        match dl.checksum {
            Some(c) => Transfer {
                expected: Some(c),
                hasher: Some(c.create_hasher()),
                count: 0,
                data: Ghost(Seq::empty()),
            },
            None => Transfer { expected: None, hasher: None, count: 0, data: Ghost(Seq::empty()) },
        }
    }

    /// Takes in the next piece of the body.
    pub fn chunk(&mut self, piece: &[u8])
        requires
            old(self).wf(),
        ensures
            final(self).wf(),
            final(self).expected() == old(self).expected(),
            final(self).received() == old(self).received() + piece@,
            final(self).counted() == old(self).counted().wrapping_add(piece@.len() as u64),
    {
        match &mut self.hasher {
            Some(h) => {
                h.consume(piece);
            },
            None => {},
        }
        self.count = self.count.wrapping_add(piece.len() as u64);
        self.data = Ghost(self.data@ + piece@);
    }

    /// How many bytes have come in.
    pub fn bytes(&self) -> (r: u64)
        ensures
            r == self.counted(),
    {
        self.count
    }

    /// Closes the body: it is accepted where no checksum is expected, or
    /// where its digest is the one expected. A body of another digest is a
    /// checksum error that names the URL and both digests.
    pub fn finish(self, url: &str) -> (r: Result<(), MirsError>)
        requires
            self.wf(),
        ensures
            match r {
                Ok(()) => match self.expected() {
                    Some(d) => d.bytes == digest_of(d.kind, self.received()),
                    None => true,
                },
                Err(e) => match self.expected() {
                    Some(d) => d.bytes != digest_of(d.kind, self.received()) && (
                    e matches MirsError::Checksum { url: u, expected, hash } && u@ == url@
                        && expected@ == crate::hexcode::hex_encoded(d.bytes) && hash@
                        == crate::hexcode::hex_encoded(digest_of(d.kind, self.received()))),
                    None => false,
                },
            },
    {
        match (self.expected, self.hasher) {
            (Some(expected), Some(hasher)) => {
                let computed = hasher.compute();
                if expected.same(&computed) {
                    Ok(())
                } else {
                    Err(
                        MirsError::Checksum {
                            url: url.to_owned(),
                            expected: expected.to_string(),
                            hash: computed.to_string(),
                        },
                    )
                }
            },
            _ => Ok(()),
        }
    }
}

/// How a download that ended is counted: a file that was fetched is a
/// success, one that was in place or empty is skipped, and an error is a
/// failure.
pub open spec fn outcome_of(fetched: Option<bool>) -> Outcome {
    match fetched {
        Some(true) => Outcome::Success,
        Some(false) => Outcome::Skipped,
        None => Outcome::Failed,
    }
}

/// The progress after a file is taken on: one more file, and its bytes
/// where its size is known. No outcome counter changes.
pub open spec fn queued(p: Progress, size: Option<u64>) -> Progress {
    Progress {
        files: p.files.after(crate::progress::FileEvent::Queued),
        bytes: ProgressPart {
            total: match size {
                Some(n) => p.bytes.total.wrapping_add(n),
                None => p.bytes.total,
            },
            ..p.bytes
        },
        ..p
    }
}

/// The progress after a piece of `count` bytes came in.
pub open spec fn received(p: Progress, count: u64) -> Progress {
    Progress { bytes: ProgressPart { success: p.bytes.success.wrapping_add(count), ..p.bytes }, ..p }
}

/// The progress after a download ended: exactly one of the three outcome
/// counters of the files goes up by one. `fetched` is `None` for an error;
/// an error of a file that the server does not have moves the bytes of the
/// file, where its size is known, to the skipped bytes.
pub open spec fn ended(p: Progress, size: Option<u64>, fetched: Option<bool>, absent: bool) -> Progress {
    Progress {
        files: p.files.after(crate::progress::FileEvent::Done(outcome_of(fetched))),
        bytes: ProgressPart {
            skipped: if fetched is None && absent && size is Some {
                p.bytes.skipped.wrapping_add(size->0)
            } else {
                p.bytes.skipped
            },
            ..p.bytes
        },
        ..p
    }
}

/// Counts a file that is taken on.
pub fn record_queued(progress: &mut Progress, size: Option<u64>)
    ensures
        *final(progress) == queued(*old(progress), size),
{
    match size {
        Some(n) => progress.bytes.inc_total(n),
        None => {},
    }
    progress.files.inc_total(1);
}

/// Counts the bytes of a piece that came in.
pub fn record_bytes(progress: &mut Progress, count: u64)
    ensures
        *final(progress) == received(*old(progress), count),
{
    progress.bytes.inc_success(count);
}

/// Counts a download that ended.
pub fn record_outcome(progress: &mut Progress, size: Option<u64>, fetched: Option<bool>, absent: bool)
    ensures
        *final(progress) == ended(*old(progress), size, fetched, absent),
{
    match fetched {
        Some(true) => progress.files.inc_success(1),
        Some(false) => progress.files.inc_skipped(1),
        None => {
            if absent {
                match size {
                    Some(n) => progress.bytes.inc_skipped(n),
                    None => {},
                }
            }
            progress.files.inc_failed(1);
        },
    }
}

/// Whether the file was fetched, where the download went well.
pub open spec fn fetched_of(result: Result<bool, MirsError>) -> Option<bool> {
    match result {
        Ok(fetched) => Some(fetched),
        Err(_) => None,
    }
}

/// Whether the download ended because the server does not have the file.
pub open spec fn absent_of(result: Result<bool, MirsError>) -> bool {
    result matches Err(e) && e is Download
}

/// Counts how the download of a file of the given size ended: `Ok` says
/// whether the file was fetched, an error counts as a failure, and the
/// error of a file that the server does not have moves its bytes to the
/// skipped bytes.
pub fn record_result(progress: &mut Progress, size: Option<u64>, result: &Result<bool, MirsError>)
    ensures
        *final(progress) == ended(*old(progress), size, fetched_of(*result), absent_of(*result)),
{
    match result {
        Ok(fetched) => record_outcome(progress, size, Some(*fetched), false),
        Err(MirsError::Download { .. }) => record_outcome(progress, size, None, true),
        Err(_) => record_outcome(progress, size, None, false),
    }
}

/// The path from the directory `base` to `path`, as `pathdiff::diff_paths`
/// finds it; `None` where it finds none.
pub uninterp spec fn relative_from(path: Seq<char>, base: Seq<char>) -> Option<Seq<char>>;

/// `pathdiff::diff_paths`: the relative path that leads from the directory
/// `base` to `path`.
#[verifier::external_body]
fn diff_paths(path: &str, base: &str) -> (r: Option<String>)
    ensures
        match r {
            Some(p) => relative_from(path@, base@) == Some(p@),
            None => relative_from(path@, base@) is None,
        },
{
    match pathdiff::diff_paths(path, base) {
        Some(relative) => relative.into_os_string().into_string().ok(),
        None => None,
    }
}

/// What a name that leads to `primary` must point at: the path from the
/// directory of the name to `primary`.
pub open spec fn link_target(primary: Seq<char>, link: Seq<char>) -> Option<Seq<char>> {
    match parent_of(link) {
        Some(dir) => relative_from(primary, dir),
        None => None,
    }
}

/// What the symbolic link at `link` must point at to lead to `primary`.
pub fn symlink_target(primary: &FilePath, link: &FilePath) -> (r: Option<String>)
    ensures
        match r {
            Some(t) => link_target(primary@, link@) == Some(t@),
            None => link_target(primary@, link@) is None,
        },
{
    match link.parent() {
        Some(dir) => diff_paths(primary.as_str(), dir),
        None => None,
    }
}

/// A symbolic link to make: where it stands and what it points at.
#[derive(Debug)]
pub struct Link {
    pub path: FilePath,
    pub target: String,
}

/// A `Link` as plain values.
pub struct LinkModel {
    pub path: Seq<char>,
    pub target: Seq<char>,
}

impl View for Link {
    type V = LinkModel;

    open spec fn view(&self) -> LinkModel {
        LinkModel { path: self.path@, target: self.target@ }
    }
}

/// The views of a list of links.
pub open spec fn link_models(v: Seq<Link>) -> Seq<LinkModel> {
    v.map_values(|l: Link| l@)
}

/// The links to make for the first `n` names of a request: one for each
/// name where nothing stands yet. `None` where no path leads from such a
/// name to the file.
pub open spec fn links_after(d: DownloadModel, present: Seq<bool>, n: int) -> Option<Seq<LinkModel>>
    decreases n,
{
    if n <= 0 || n > d.symlink_paths.len() || n > present.len() {
        Some(Seq::empty())
    } else {
        match links_after(d, present, n - 1) {
            None => None,
            Some(before) => if present[n - 1] {
                Some(before)
            } else {
                match link_target(d.primary_target_path, d.symlink_paths[n - 1]) {
                    Some(target) => Some(
                        before.push(LinkModel { path: d.symlink_paths[n - 1], target }),
                    ),
                    None => None,
                }
            },
        }
    }
}

pub proof fn lemma_links_none_stays(d: DownloadModel, present: Seq<bool>, m: int, n: int)
    requires
        0 <= m <= n <= d.symlink_paths.len(),
        n <= present.len(),
        links_after(d, present, m) is None,
    ensures
        links_after(d, present, n) is None,
    decreases n - m,
{
    if m < n {
        lemma_links_none_stays(d, present, m, n - 1);
    }
}

/// The symbolic links to make once the file of a request is in place:
/// `present` says of each name of the request, in order, whether something
/// stands there already. `None` where no path leads from a name to the
/// file.
pub fn plan_links(dl: &Download, present: &Vec<bool>) -> (r: Option<Vec<Link>>)
    requires
        present@.len() == dl@.symlink_paths.len(),
    ensures
        match r {
            Some(links) => links_after(dl@, present@, present@.len() as int) == Some(
                link_models(links@),
            ),
            None => links_after(dl@, present@, present@.len() as int) is None,
        },
{
    let mut out: Vec<Link> = Vec::new();
    let mut i: usize = 0;
    assert(link_models(out@) =~= Seq::<LinkModel>::empty());
    while i < dl.symlink_paths.len()
        invariant
            i <= dl.symlink_paths@.len(),
            present@.len() == dl@.symlink_paths.len(),
            links_after(dl@, present@, i as int) == Some(link_models(out@)),
        decreases dl.symlink_paths@.len() - i,
    {
        if !present[i] {
            match symlink_target(&dl.primary_target_path, &dl.symlink_paths[i]) {
                Some(target) => {
                    let ghost before = link_models(out@);
                    let link = Link { path: FilePath(dl.symlink_paths[i].0.clone()), target };
                    out.push(link);
                    assert(link_models(out@) =~= before.push(link@));
                },
                None => {
                    proof {
                        lemma_links_none_stays(dl@, present@, i + 1, present@.len() as int);
                    }
                    return None;
                },
            }
        }
        i += 1;
    }
    Some(out)
}

} // verus!
