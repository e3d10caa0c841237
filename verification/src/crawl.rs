//! Walking the pages of an artist's list of submissions, judging the
//! redirections the site answers with, and turning the listing matches into
//! submission ids and download addresses.
//!
//! The pages are fetched by the caller; [`PageCrawl`] decides, from what each
//! fetch gave, which page to fetch next and when the list is done.

use vstd::prelude::*;
use crate::text::{chars_of, decimal, decimal_of, string_of};
use crate::patterns::{capture, find_all, listing_pattern, listing_pattern_for};

verus! {

// ---------------------------------------------------------------------------
// Page addresses
// ---------------------------------------------------------------------------

/// `https://{username}.newgrounds.com/{dl_type}/page/`
pub open spec fn page_prefix(username: Seq<char>, dl_type: Seq<char>) -> Seq<char> {
    "https://"@ + username + ".newgrounds.com/"@ + dl_type + "/page/"@
}

/// The address of page `page` of the list of `dl_type` submissions of `username`.
pub open spec fn page_url(username: Seq<char>, dl_type: Seq<char>, page: nat) -> Seq<char> {
    page_prefix(username, dl_type) + decimal(page)
}

/// Builds [`page_url`].
pub fn page_url_for(username: &str, dl_type: &str, page: u64) -> (res: String)
    ensures
        res@ == page_url(username@, dl_type@, page as nat),
{
    let mut url = chars_of("https://");
    let mut part = chars_of(username);
    url.append(&mut part);
    let mut part = chars_of(".newgrounds.com/");
    url.append(&mut part);
    let mut part = chars_of(dl_type);
    url.append(&mut part);
    let mut part = chars_of("/page/");
    url.append(&mut part);
    let mut part = decimal_of(page);
    url.append(&mut part);
    string_of(&url)
}

// ---------------------------------------------------------------------------
// The crawl
// ---------------------------------------------------------------------------

/// What fetching the current page gave.
#[derive(Debug)]
pub enum PageEvent {
    /// The page's HTML.
    Fetched(String),
    /// The site answered with a redirection that was refused: there is no
    /// such page, the list is over.
    Redirected,
}

/// Why the crawl stopped early.
#[derive(Clone, Copy, Debug, PartialEq, Eq, Structural)]
pub enum CrawlError {
    /// The listing pattern does not compile.
    InvalidPattern,
    /// The page counter reached its largest value.
    PageLimit,
}

/// What to do next.
#[derive(Debug)]
pub enum CrawlAction {
    /// Fetch this address.
    Fetch(String),
    /// The list is done.
    Finished,
    /// Stop with an error.
    Failed(CrawlError),
}

/// The state of a crawl over the pages of one artist's list.
pub struct PageCrawl {
    username: String,
    dl_type: String,
    page: u64,
    matches: Vec<String>,
}

pub struct CrawlView {
    pub username: Seq<char>,
    pub dl_type: Seq<char>,
    /// The page to fetch next (counted from 1).
    pub page: nat,
    /// The listing matches of the pages fetched so far, in order.
    pub matches: Seq<Seq<char>>,
}

/// `after` is `before` moved on to the next page, with the listing matches
/// `found` on the page just fetched added at the end.
pub open spec fn advanced(before: CrawlView, found: Seq<Seq<char>>, after: CrawlView) -> bool {
    &&& after.username == before.username
    &&& after.dl_type == before.dl_type
    &&& after.page == before.page + 1
    &&& after.matches == before.matches + found
}

impl View for PageCrawl {
    type V = CrawlView;

    closed spec fn view(&self) -> CrawlView {
        CrawlView {
            username: self.username@,
            dl_type: self.dl_type@,
            page: self.page as nat,
            matches: self.matches.deep_view(),
        }
    }
}

impl PageCrawl {
    #[verifier::type_invariant]
    closed spec fn wf(self) -> bool {
        self.page >= 1
    }

    /// Starts at page 1 with nothing found.
    pub fn new(username: &str, dl_type: &str) -> (res: PageCrawl)
        ensures
            res@.username == username@,
            res@.dl_type == dl_type@,
            res@.page == 1,
            res@.matches == Seq::<Seq<char>>::empty(),
    {
        let res = PageCrawl {
            username: string_of(&chars_of(username)),
            dl_type: string_of(&chars_of(dl_type)),
            page: 1,
            matches: Vec::new(),
        };
        assert(res.matches.deep_view() =~= Seq::<Seq<char>>::empty());
        res
    }

    /// The page to fetch next.
    pub fn page(&self) -> (res: u64)
        ensures
            res == self@.page,
            res >= 1,
    {
        proof {
            use_type_invariant(self);
        }
        self.page
    }

    /// The address of the page to fetch next.
    pub fn current_url(&self) -> (res: String)
        ensures
            res@ == page_url(self@.username, self@.dl_type, self@.page),
    {
        page_url_for(self.username.as_str(), self.dl_type.as_str(), self.page)
    }

    /// The listing matches found so far.
    pub fn matches(&self) -> (res: &Vec<String>)
        ensures
            res.deep_view() == self@.matches,
    {
        &self.matches
    }

    /// Ends the crawl, handing out the matches.
    pub fn into_matches(self) -> (res: Vec<String>)
        ensures
            res.deep_view() == self@.matches,
    {
        self.matches
    }

    /// Records the listing matches `found` on the current page and moves to the
    /// next page, whose address is returned; fails, changing nothing, when the
    /// page counter is at its largest value.
    pub fn record_page_matches(&mut self, found: Vec<String>) -> (action: CrawlAction)
        ensures
            old(self)@.page == u64::MAX ==> {
                &&& action matches CrawlAction::Failed(e) && e == CrawlError::PageLimit
                &&& final(self)@ == old(self)@
            },
            old(self)@.page < u64::MAX ==> {
                &&& advanced(old(self)@, found.deep_view(), final(self)@)
                &&& action matches CrawlAction::Fetch(url) && url@ == page_url(
                    final(self)@.username,
                    final(self)@.dl_type,
                    final(self)@.page,
                )
            },
    {
        proof {
            use_type_invariant(&*self);
        }
        if self.page == u64::MAX {
            return CrawlAction::Failed(CrawlError::PageLimit);
        }
        let ghost before = self.matches.deep_view();
        let mut found = found;
        let ghost added = found.deep_view();
        let mut matches: Vec<String> = Vec::new();
        std::mem::swap(&mut matches, &mut self.matches);
        matches.append(&mut found);
        std::mem::swap(&mut matches, &mut self.matches);
        assert(self.matches.deep_view() =~= before + added);
        self.page = self.page + 1;
        CrawlAction::Fetch(self.current_url())
    }

    /// Takes in what fetching the current page gave. A fetched page has its
    /// listing matches recorded (see [`PageCrawl::record_page_matches`]) and
    /// the next page is asked for; a redirection ends the list.
    pub fn step(&mut self, event: PageEvent) -> (action: CrawlAction)
        ensures
            match event {
                PageEvent::Redirected => {
                    &&& action is Finished
                    &&& final(self)@ == old(self)@
                },
                PageEvent::Fetched(content) => match crate::patterns::regex_find_all(
                    listing_pattern(old(self)@.dl_type),
                    content@,
                ) {
                    None => {
                        &&& action matches CrawlAction::Failed(e) && e == CrawlError::InvalidPattern
                        &&& final(self)@ == old(self)@
                    },
                    Some(found) => if old(self)@.page == u64::MAX {
                        &&& action matches CrawlAction::Failed(e) && e == CrawlError::PageLimit
                        &&& final(self)@ == old(self)@
                    } else {
                        &&& advanced(old(self)@, found, final(self)@)
                        &&& action matches CrawlAction::Fetch(url) && url@ == page_url(
                            final(self)@.username,
                            final(self)@.dl_type,
                            final(self)@.page,
                        )
                    },
                },
            },
    {
        match event {
            PageEvent::Redirected => CrawlAction::Finished,
            PageEvent::Fetched(content) => {
                let pattern = listing_pattern_for(self.dl_type.as_str());
                match find_all(pattern.as_str(), content.as_str()) {
                    None => CrawlAction::Failed(CrawlError::InvalidPattern),
                    Some(found) => self.record_page_matches(found),
                }
            },
        }
    }
}

// ---------------------------------------------------------------------------
// Submission ids and addresses
// ---------------------------------------------------------------------------

/// The id that a listing match links to, if it links to a listen page.
pub open spec fn song_id_of(item: Seq<char>) -> Option<Seq<char>> {
    match crate::patterns::regex_capture(crate::patterns::song_id_pattern(), item, "id"@) {
        Some(Some(id)) => Some(id),
        _ => None,
    }
}

/// Reads the submission id out of a listing match.
pub fn song_id(item: &str) -> (res: Option<String>)
    ensures
        res.deep_view() == song_id_of(item@),
{
    match capture(crate::patterns::song_id_pattern_text(), item, "id") {
        Some(Some(id)) => Some(id),
        _ => None,
    }
}

/// The ids of all listing matches, in order; `None` as soon as one match
/// holds no id.
pub fn song_ids(items: &Vec<String>) -> (res: Option<Vec<String>>)
    ensures
        match res {
            Some(ids) => {
                &&& ids.len() == items.len()
                &&& forall|i: int|
                    0 <= i < items.len() ==> song_id_of(#[trigger] items@[i]@) == Some(
                        ids@[i]@,
                    )
            },
            None => exists|i: int| 0 <= i < items.len() && (#[trigger] song_id_of(items@[i]@)) is None,
        },
{
    let mut ids: Vec<String> = Vec::new();
    let mut i: usize = 0;
    while i < items.len()
        invariant
            i <= items.len(),
            ids.len() == i,
            forall|j: int| 0 <= j < i ==> song_id_of(#[trigger] items@[j]@) == Some(ids@[j]@),
        decreases items.len() - i,
    {
        match song_id(items[i].as_str()) {
            Some(id) => {
                ids.push(id);
            },
            None => {
                assert(song_id_of(items@[i as int]@) is None);
                return None;
            },
        }
        i += 1;
    }
    Some(ids)
}

/// `http://www.newgrounds.com/audio/download/{id}`
pub open spec fn download_url(id: Seq<char>) -> Seq<char> {
    "http://www.newgrounds.com/audio/download/"@ + id
}

/// Builds [`download_url`].
pub fn download_url_for(id: &str) -> (res: String)
    ensures
        res@ == download_url(id@),
{
    let mut url = chars_of("http://www.newgrounds.com/audio/download/");
    let mut part = chars_of(id);
    url.append(&mut part);
    string_of(&url)
}


/// The address that `reference` leads to from the address `base`
/// (`reqwest::Url::parse(base)`, then `Url::join(reference)`, written out);
/// `None` when either step fails.
pub uninterp spec fn url_joined(base: Seq<char>, reference: Seq<char>) -> Option<Seq<char>>;

/// Parses `base` with `reqwest::Url::parse` and resolves `reference` against
/// it with `Url::join`. Trusted: the result is the value of [`url_joined`] on
/// the same arguments.
#[verifier::external_body]
fn join_url(base: &str, reference: &str) -> (res: Option<String>)
    ensures
        res.deep_view() == url_joined(base@, reference@),
{
    let base = reqwest::Url::parse(base).ok()?;
    base.join(reference).ok().map(String::from)
}

/// The address of the listen page of submission `id`, the page its metadata
/// is read from.
pub open spec fn listen_page_url(id: Seq<char>) -> Option<Seq<char>> {
    url_joined("https://www.newgrounds.com/audio/listen/"@, id)
}

/// Builds [`listen_page_url`].
pub fn listen_page_url_for(id: &str) -> (res: Option<String>)
    ensures
        res.deep_view() == listen_page_url(id@),
{
    join_url("https://www.newgrounds.com/audio/listen/", id)
}

// ---------------------------------------------------------------------------
// Redirections
// ---------------------------------------------------------------------------

/// Whether a redirection is taken.
#[derive(Clone, Copy, Debug, PartialEq, Eq, Structural)]
pub enum RedirectVerdict {
    Follow,
    Refuse,
}

/// Why a redirection could not be judged.
#[derive(Clone, Copy, Debug, PartialEq, Eq, Structural)]
pub enum RedirectError {
    /// There is no address it was redirected from.
    NoPreviousUrl,
    /// It was redirected more than once already.
    SeveralPreviousUrls,
    /// The address it is redirected to has no query.
    MissingQuery,
    /// A page-number pattern does not compile.
    InvalidPattern,
    /// The query is not `page=` followed by a number.
    QueryWithoutPage,
    /// The address it was redirected from does not end in a page number.
    PathWithoutPage,
}

/// `a` comes before `b` in the order of `str` (lexicographic by code point,
/// which is the byte order of their UTF-8 forms).
pub open spec fn text_precedes(a: Seq<char>, b: Seq<char>) -> bool
    decreases a.len(),
{
    if a.len() == 0 {
        b.len() > 0
    } else if b.len() == 0 {
        false
    } else if a[0] != b[0] {
        a[0] < b[0]
    } else {
        text_precedes(a.drop_first(), b.drop_first())
    }
}

/// Of two different texts, one comes before the other: the order of `str` is
/// total.
pub proof fn law_text_order_total(a: Seq<char>, b: Seq<char>)
    requires
        a != b,
    ensures
        text_precedes(a, b) || text_precedes(b, a),
    decreases a.len(),
{
    if a.len() == 0 && b.len() == 0 {
        assert(a =~= b);
    } else if a.len() == 0 || b.len() == 0 {
    } else if a[0] != b[0] {
        let x = a[0];
        let y = b[0];
        assert(x as int != y as int);
        assert(x < y || y < x);
    } else if a.drop_first() =~= b.drop_first() {
        assert(a =~= b) by {
            assert forall|i: int| 0 <= i < a.len() implies a[i] == b[i] by {
                if i > 0 {
                    assert(a[i] == a.drop_first()[i - 1]);
                    assert(b[i] == b.drop_first()[i - 1]);
                }
            }
        }
    } else {
        law_text_order_total(a.drop_first(), b.drop_first());
    }
}

/// A common beginning does not change which of two texts comes first: the
/// order is decided by the first place where the texts differ.
pub proof fn law_text_order_ignores_common_prefix(p: Seq<char>, x: Seq<char>, y: Seq<char>)
    ensures
        text_precedes(p + x, p + y) == text_precedes(x, y),
    decreases p.len(),
{
    if p.len() == 0 {
        assert(p + x =~= x);
        assert(p + y =~= y);
    } else {
        assert((p + x).drop_first() =~= p.drop_first() + x);
        assert((p + y).drop_first() =~= p.drop_first() + y);
        law_text_order_ignores_common_prefix(p.drop_first(), x, y);
    }
}

/// A text comes before every longer text that begins with it.
pub proof fn law_text_order_prefix_first(a: Seq<char>, x: Seq<char>)
    requires
        x.len() > 0,
    ensures
        text_precedes(a, a + x),
{
    law_text_order_ignores_common_prefix(a, Seq::empty(), x);
    assert(a + Seq::<char>::empty() =~= a);
}

/// The order of texts is transitive.
pub proof fn law_text_order_transitive(a: Seq<char>, b: Seq<char>, c: Seq<char>)
    requires
        text_precedes(a, b),
        text_precedes(b, c),
    ensures
        text_precedes(a, c),
    decreases a.len(),
{
    if a.len() > 0 && b.len() > 0 && c.len() > 0 && a[0] == b[0] && b[0] == c[0] {
        law_text_order_transitive(a.drop_first(), b.drop_first(), c.drop_first());
    }
}

/// Whether `a` comes before `b` in the order of `str`.
pub fn precedes(a: &[char], b: &[char]) -> (res: bool)
    ensures
        res == text_precedes(a@, b@),
{
    let mut i: usize = 0;
    assert(a@.skip(0) =~= a@);
    assert(b@.skip(0) =~= b@);
    while i < a.len() && i < b.len() && a[i] == b[i]
        invariant
            i <= a.len(),
            i <= b.len(),
            text_precedes(a@, b@) == text_precedes(a@.skip(i as int), b@.skip(i as int)),
        decreases a.len() - i,
    {
        assert(a@.skip(i as int).drop_first() =~= a@.skip(i + 1));
        assert(b@.skip(i as int).drop_first() =~= b@.skip(i + 1));
        i += 1;
    }
    if i == a.len() {
        i < b.len()
    } else if i == b.len() {
        false
    } else {
        a[i] < b[i]
    }
}

/// The verdict on a redirection, from the page number captured in its query
/// and the one captured in the path it comes from: it is refused when the
/// query's number comes before the path's, compared as text.
pub open spec fn redirect_judgement(
    query_page: Option<Option<Seq<char>>>,
    path_page: Option<Option<Seq<char>>>,
) -> Result<RedirectVerdict, RedirectError> {
    match query_page {
        None => Err(RedirectError::InvalidPattern),
        Some(None) => Err(RedirectError::QueryWithoutPage),
        Some(Some(q)) => match path_page {
            None => Err(RedirectError::InvalidPattern),
            Some(None) => Err(RedirectError::PathWithoutPage),
            Some(Some(p)) => Ok(
                if text_precedes(q, p) {
                    RedirectVerdict::Refuse
                } else {
                    RedirectVerdict::Follow
                },
            ),
        },
    }
}

/// Judges a redirection from the two captured page numbers.
pub fn judge_redirect(query_page: Option<Option<String>>, path_page: Option<Option<String>>) -> (res:
    Result<RedirectVerdict, RedirectError>)
    ensures
        res == redirect_judgement(query_page.deep_view(), path_page.deep_view()),
{
    match query_page {
        None => Err(RedirectError::InvalidPattern),
        Some(None) => Err(RedirectError::QueryWithoutPage),
        Some(Some(q)) => match path_page {
            None => Err(RedirectError::InvalidPattern),
            Some(None) => Err(RedirectError::PathWithoutPage),
            Some(Some(p)) => {
                if precedes(&chars_of(q.as_str()), &chars_of(p.as_str())) {
                    Ok(RedirectVerdict::Refuse)
                } else {
                    Ok(RedirectVerdict::Follow)
                }
            },
        },
    }
}

pub open spec fn optional_text(o: Option<&str>) -> Option<Seq<char>> {
    match o {
        Some(s) => Some(s@),
        None => None,
    }
}

/// The verdict on a redirection from `original_path` (the path of the page
/// asked for, after `previous` addresses in all) to an address with query
/// `query`.
pub open spec fn redirect_decision(previous: nat, original_path: Seq<char>, query: Option<Seq<char>>) -> Result<
    RedirectVerdict,
    RedirectError,
> {
    if previous == 0 {
        Err(RedirectError::NoPreviousUrl)
    } else if previous != 1 {
        Err(RedirectError::SeveralPreviousUrls)
    } else {
        match query {
            None => Err(RedirectError::MissingQuery),
            Some(q) => redirect_judgement(
                crate::patterns::regex_capture(
                    crate::patterns::query_page_pattern(),
                    q,
                    "page_number"@,
                ),
                crate::patterns::regex_capture(
                    crate::patterns::path_page_pattern(),
                    original_path,
                    "page_number"@,
                ),
            ),
        }
    }
}

/// Judges a redirection: it is refused when the page number in its query comes
/// before the page number of the path it comes from, the two compared as text
/// (so `10` comes before `9`), and followed otherwise.
pub fn redirect_verdict(previous: usize, original_path: &str, redirected_query: Option<&str>) -> (res:
    Result<RedirectVerdict, RedirectError>)
    ensures
        res == redirect_decision(previous as nat, original_path@, optional_text(redirected_query)),
{
    if previous == 0 {
        return Err(RedirectError::NoPreviousUrl);
    }
    if previous != 1 {
        return Err(RedirectError::SeveralPreviousUrls);
    }
    let query = match redirected_query {
        None => {
            return Err(RedirectError::MissingQuery);
        },
        Some(q) => q,
    };
    let query_page = capture(crate::patterns::query_page_pattern_text(), query, "page_number");
    let path_page = capture(crate::patterns::path_page_pattern_text(), original_path, "page_number");
    judge_redirect(query_page, path_page)
}

} // verus!
