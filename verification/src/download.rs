//! The decisions taken while downloading a submission: waiting out rate
//! limits, naming the file, and treating a file that is already there.

use vstd::prelude::*;
use crate::text::{parse_u64, chars_of, u64_from_text};
use crate::patterns::capture;

verus! {

// ---------------------------------------------------------------------------
// Rate limiting
// ---------------------------------------------------------------------------

/// The status the site answers with when asked too often.
pub const TOO_MANY_REQUESTS: u16 = 429;

/// The time given by the HTTP date `text`, in whole seconds since the Unix
/// epoch (`httpdate::parse_http_date`, then `SystemTime::duration_since`
/// the epoch); `None` when `text` is not an HTTP date or the time comes
/// before the epoch.
pub uninterp spec fn http_date_unix_seconds(text: Seq<char>) -> Option<u64>;

/// Reads an HTTP date with `httpdate::parse_http_date` and measures it from
/// the Unix epoch. Trusted: the result is the value of
/// [`http_date_unix_seconds`] on the same text.
#[verifier::external_body]
fn http_date_seconds(text: &str) -> (res: Option<u64>)
    ensures
        res == http_date_unix_seconds(text@),
{
    let time = httpdate::parse_http_date(text).ok()?;
    time.duration_since(std::time::UNIX_EPOCH).ok().map(|d| d.as_secs())
}

/// The wait that a `Retry-After` value asks for, in seconds: the value itself
/// when it is a number, else the time of the HTTP date it gives (measured from
/// the Unix epoch, as the value is handed on unchanged).
pub open spec fn retry_after_value(text: Seq<char>) -> Option<u64> {
    match u64_from_text(text) {
        Some(n) => Some(n),
        None => http_date_unix_seconds(text),
    }
}

/// Reads a `Retry-After` value.
pub fn retry_after_seconds(text: &str) -> (res: Option<u64>)
    ensures
        res == retry_after_value(text@),
{
    match parse_u64(&chars_of(text)) {
        Some(n) => Some(n),
        None => http_date_seconds(text),
    }
}

/// What to do with an answer to a download request.
#[derive(Clone, Copy, Debug, PartialEq, Eq, Structural)]
pub enum FetchOutcome {
    /// Take the answer.
    Ready,
    /// Ask again later, after the given number of seconds if the site said.
    RateLimited(Option<u64>),
}

/// Judges an answer by its status and its `Retry-After` header (when the
/// header is there and readable as text).
pub fn fetch_outcome(status: u16, retry_after: Option<&str>) -> (res: FetchOutcome)
    ensures
        status != TOO_MANY_REQUESTS ==> res == FetchOutcome::Ready,
        status == TOO_MANY_REQUESTS ==> res == FetchOutcome::RateLimited(
            match retry_after {
                Some(t) => retry_after_value(t@),
                None => None,
            },
        ),
{
    if status != TOO_MANY_REQUESTS {
        return FetchOutcome::Ready;
    }
    match retry_after {
        Some(t) => FetchOutcome::RateLimited(retry_after_seconds(t)),
        None => FetchOutcome::RateLimited(None),
    }
}

// ---------------------------------------------------------------------------
// The file
// ---------------------------------------------------------------------------

/// The file name that a `Content-Disposition` header gives.
pub open spec fn attachment_name(header: Seq<char>) -> Option<Seq<char>> {
    match crate::patterns::regex_capture(
        crate::patterns::file_name_pattern(),
        header,
        "file_name"@,
    ) {
        Some(Some(name)) => Some(name),
        _ => None,
    }
}

/// Reads the file name out of a `Content-Disposition` header.
pub fn attachment_file_name(header: &str) -> (res: Option<String>)
    ensures
        res.deep_view() == attachment_name(header@),
{
    match capture(crate::patterns::file_name_pattern_text(), header, "file_name") {
        Some(Some(name)) => Some(name),
        _ => None,
    }
}

/// The SeaHash of `bytes` (`seahash::hash`).
pub uninterp spec fn seahash_of(bytes: Seq<u8>) -> u64;

/// Hashes with `seahash::hash`. Trusted: the result is the value of
/// [`seahash_of`] on the same bytes.
#[verifier::external_body]
fn seahash(bytes: &[u8]) -> (res: u64)
    ensures
        res == seahash_of(bytes@),
{
    seahash::hash(bytes)
}

/// A file already on disk is taken to be the download when both have the
/// same length and the same SeaHash.
pub open spec fn same_download(existing: Seq<u8>, downloaded: Seq<u8>) -> bool {
    existing.len() == downloaded.len() && seahash_of(existing) == seahash_of(downloaded)
}

/// Compares a file already on disk with a fresh download.
pub fn is_same_download(existing: &[u8], downloaded: &[u8]) -> (res: bool)
    ensures
        res == same_download(existing@, downloaded@),
{
    existing.len() == downloaded.len() && seahash(existing) == seahash(downloaded)
}

/// What was found at the file's path.
#[derive(Clone, Copy, Debug, PartialEq, Eq, Structural)]
pub enum PathStatus {
    /// Something is there (`Path::try_exists` answered `Ok(true)`).
    Present,
    /// Nothing is there: `try_exists` answered `Ok(false)` and the path is
    /// not a symbolic link, or it failed with an error of kind `NotFound`.
    Missing,
    /// The path is a symbolic link whose target is missing (`try_exists`
    /// answered `Ok(false)` while `symlink_metadata` finds the link).
    BrokenLink,
    /// `try_exists` failed with any other error.
    OtherError,
}

/// What to do with the file's path.
#[derive(Clone, Copy, Debug, PartialEq, Eq, Structural)]
pub enum FileAction {
    /// Read the file there and compare it with the download.
    CompareWithExisting,
    /// Stop: the path is a broken symbolic link.
    BrokenLink,
    /// Write the download there.
    Write,
    /// Stop on the error.
    Fail,
}

/// Decides what to do with the file's path: a file that is there is compared
/// with the download, a path with nothing there is written.
pub fn file_action(status: PathStatus) -> (res: FileAction)
    ensures
        res == match status {
            PathStatus::Present => FileAction::CompareWithExisting,
            PathStatus::Missing => FileAction::Write,
            PathStatus::BrokenLink => FileAction::BrokenLink,
            PathStatus::OtherError => FileAction::Fail,
        },
{
    match status {
        PathStatus::Present => FileAction::CompareWithExisting,
        PathStatus::Missing => FileAction::Write,
        PathStatus::BrokenLink => FileAction::BrokenLink,
        PathStatus::OtherError => FileAction::Fail,
    }
}

// ---------------------------------------------------------------------------
// Paths
// ---------------------------------------------------------------------------

/// `base` with `part` adjoined (`std::path::Path::join`, which is what
/// `PathBuf::push` does in place), written out as text.
pub uninterp spec fn path_joined(base: Seq<char>, part: Seq<char>) -> Seq<char>;

/// The path without its last component (`std::path::Path::parent`), written
/// out as text; `None` when `path` has no parent.
pub uninterp spec fn path_parent(path: Seq<char>) -> Option<Seq<char>>;

/// Adjoins `part` to `base` with `std::path::Path::join`. Trusted: the result
/// is the value of [`path_joined`] on the same arguments.
#[verifier::external_body]
fn join_path(base: &str, part: &str) -> (res: String)
    ensures
        res@ == path_joined(base@, part@),
{
    std::path::Path::new(base).join(part).to_string_lossy().into_owned()
}

/// Takes the parent of `path` with `std::path::Path::parent`. Trusted: the
/// result is the value of [`path_parent`] on the same argument.
#[verifier::external_body]
fn parent_path(path: &str) -> (res: Option<String>)
    ensures
        res.deep_view() == path_parent(path@),
{
    std::path::Path::new(path).parent().map(|p| p.to_string_lossy().into_owned())
}

/// The file a download is written to: the planned path `file` with its last
/// component replaced by the name `file_name` that the site gives
/// (`PathBuf::pop`, then `PathBuf::push`; `pop` leaves a path without parent
/// as it is).
pub open spec fn download_target(file: Seq<char>, file_name: Seq<char>) -> Seq<char> {
    match path_parent(file) {
        Some(dir) => path_joined(dir, file_name),
        None => path_joined(file, file_name),
    }
}

/// Builds [`download_target`].
pub fn download_target_for(file: &str, file_name: &str) -> (res: String)
    ensures
        res@ == download_target(file@, file_name@),
{
    match parent_path(file) {
        Some(dir) => join_path(dir.as_str(), file_name),
        None => join_path(file, file_name),
    }
}

/// Where a submission is first planned to go: `dir` joined with its id.
pub open spec fn planned_file(dir: Seq<char>, id: Seq<char>) -> Seq<char> {
    path_joined(dir, id)
}

/// The downloads planned for the submissions an artist's list links to.
#[derive(Debug)]
pub struct DownloadPlan {
    /// The submission ids, in the order of the listing matches.
    pub ids: Vec<String>,
    /// `urls[k]` is the download address of `ids[k]`.
    pub urls: Vec<String>,
    /// `files[k]` is the path `ids[k]` is first planned to go to.
    pub files: Vec<String>,
}

pub struct PlanView {
    pub ids: Seq<Seq<char>>,
    pub urls: Seq<Seq<char>>,
    pub files: Seq<Seq<char>>,
}

impl View for DownloadPlan {
    type V = PlanView;

    open spec fn view(&self) -> PlanView {
        PlanView {
            ids: self.ids.deep_view(),
            urls: self.urls.deep_view(),
            files: self.files.deep_view(),
        }
    }
}

/// `plan` holds, for each listing match in order, its submission id, the
/// id's download address and the path under `dir` it is planned to go to.
pub open spec fn plans_downloads(dir: Seq<char>, matches: Seq<Seq<char>>, plan: PlanView) -> bool {
    &&& plan.ids.len() == matches.len()
    &&& plan.urls.len() == matches.len()
    &&& plan.files.len() == matches.len()
    &&& forall|k: int|
        0 <= k < matches.len() ==> {
            &&& crate::crawl::song_id_of(#[trigger] matches[k]) == Some(plan.ids[k])
            &&& plan.urls[k] == crate::crawl::download_url(plan.ids[k])
            &&& plan.files[k] == planned_file(dir, plan.ids[k])
        }
}

/// Plans the downloads of the submissions that the listing matches link to;
/// `None` when a match links to no listen page.
pub fn plan_downloads(dir: &str, matches: &Vec<String>) -> (res: Option<DownloadPlan>)
    ensures
        match res {
            Some(plan) => plans_downloads(dir@, matches.deep_view(), plan@),
            None => exists|k: int|
                0 <= k < matches.len() && (#[trigger] crate::crawl::song_id_of(matches@[k]@)) is None,
        },
{
    let ids = match crate::crawl::song_ids(matches) {
        Some(ids) => ids,
        None => {
            return None;
        },
    };
    let mut urls: Vec<String> = Vec::new();
    let mut files: Vec<String> = Vec::new();
    let mut k: usize = 0;
    while k < ids.len()
        invariant
            ids.len() == matches.len(),
            k <= ids.len(),
            urls.len() == k,
            files.len() == k,
            forall|j: int|
                0 <= j < k ==> {
                    &&& #[trigger] urls@[j]@ == crate::crawl::download_url(ids@[j]@)
                    &&& files@[j]@ == planned_file(dir@, ids@[j]@)
                },
        decreases ids.len() - k,
    {
        urls.push(crate::crawl::download_url_for(ids[k].as_str()));
        files.push(join_path(dir, ids[k].as_str()));
        k += 1;
    }
    let plan = DownloadPlan { ids, urls, files };
    assert forall|k: int| 0 <= k < matches.len() implies {
        &&& crate::crawl::song_id_of(#[trigger] matches.deep_view()[k]) == Some(plan@.ids[k])
        &&& plan@.urls[k] == crate::crawl::download_url(plan@.ids[k])
        &&& plan@.files[k] == planned_file(dir@, plan@.ids[k])
    } by {
        assert(matches.deep_view()[k] == matches@[k]@);
        assert(plan@.urls[k] == plan.urls@[k]@);
    }
    Some(plan)
}

} // verus!
