//! The regular expressions that pages and headers are read with, and the
//! calls into the `regex` crate that apply them.
//!
//! What a regular expression matches is the `regex` crate's business and is
//! not restated here: each call's result is given a name
//! ([`regex_find_all`], [`regex_capture`], [`regex_is_match`]) that depends on
//! the pattern and the haystack alone, and the functions of the library are
//! specified over those names.

use vstd::prelude::*;
use crate::text::{chars_of, string_of};

verus! {

/// All non-overlapping matches, left to right, of `pattern` in `haystack` as
/// `regex::Regex::find_iter` reports them; `None` when `pattern` does not
/// compile.
pub uninterp spec fn regex_find_all(pattern: Seq<char>, haystack: Seq<char>) -> Option<
    Seq<Seq<char>>,
>;

/// The text of the capture group named `group` in the first match of
/// `pattern` in `haystack` (`regex::Regex::captures`, then
/// `regex::Captures::name`): `None` when `pattern` does not compile,
/// `Some(None)` when there is no match or the group did not take part in it.
pub uninterp spec fn regex_capture(pattern: Seq<char>, haystack: Seq<char>, group: Seq<char>) -> Option<
    Option<Seq<char>>,
>;

/// Whether `pattern` matches somewhere in `haystack` (`regex::Regex::is_match`);
/// `None` when `pattern` does not compile.
pub uninterp spec fn regex_is_match(pattern: Seq<char>, haystack: Seq<char>) -> Option<bool>;

/// Compiles `pattern` with `regex::Regex::new` and collects the text of every
/// match from `regex::Regex::find_iter`. Trusted: the result is the value of
/// [`regex_find_all`] on the same pattern and haystack.
#[verifier::external_body]
pub(crate) fn find_all(pattern: &str, haystack: &str) -> (res: Option<Vec<String>>)
    ensures
        res.deep_view() == regex_find_all(pattern@, haystack@),
{
    let re = regex::Regex::new(pattern).ok()?;
    Some(re.find_iter(haystack).map(|m| m.as_str().to_owned()).collect())
}

/// Compiles `pattern` with `regex::Regex::new`, takes the first match with
/// `regex::Regex::captures` and the named group with `regex::Captures::name`.
/// Trusted: the result is the value of [`regex_capture`] on the same arguments.
#[verifier::external_body]
pub(crate) fn capture(pattern: &str, haystack: &str, group: &str) -> (res: Option<Option<String>>)
    ensures
        res.deep_view() == regex_capture(pattern@, haystack@, group@),
{
    let re = regex::Regex::new(pattern).ok()?;
    Some(re.captures(haystack).and_then(|c| c.name(group)).map(|m| m.as_str().to_owned()))
}

/// Compiles `pattern` with `regex::Regex::new` and tests it with
/// `regex::Regex::is_match`. Trusted: the result is the value of
/// [`regex_is_match`] on the same arguments.
#[verifier::external_body]
pub(crate) fn is_match(pattern: &str, haystack: &str) -> (res: Option<bool>)
    ensures
        res == regex_is_match(pattern@, haystack@),
{
    let re = regex::Regex::new(pattern).ok()?;
    Some(re.is_match(haystack))
}

// ---------------------------------------------------------------------------
// The patterns
// ---------------------------------------------------------------------------

/// Start of the pattern that finds the submissions listed on an artist page.
pub open spec fn listing_pattern_head() -> Seq<char> {
    "<a href=.*?newgrounds\\.com.*?"@
}

/// End of the pattern that finds the submissions listed on an artist page.
pub open spec fn listing_pattern_tail() -> Seq<char> {
    ".*?listen.*?([0-9]+)\" class=\"item-audiosubmission \">"@
}

/// The pattern that finds, on an artist page, the links to the listen pages of
/// the submissions of kind `dl_type` (inserted as it is, not escaped).
pub open spec fn listing_pattern(dl_type: Seq<char>) -> Seq<char> {
    listing_pattern_head() + dl_type + listing_pattern_tail()
}

/// Builds [`listing_pattern`] for `dl_type`.
pub fn listing_pattern_for(dl_type: &str) -> (res: String)
    ensures
        res@ == listing_pattern(dl_type@),
{
    let mut chars = chars_of("<a href=.*?newgrounds\\.com.*?");
    let mut kind = chars_of(dl_type);
    let mut tail = chars_of(".*?listen.*?([0-9]+)\" class=\"item-audiosubmission \">");
    chars.append(&mut kind);
    chars.append(&mut tail);
    string_of(&chars)
}

/// Reads the submission id out of a listing match (group `id`).
pub open spec fn song_id_pattern() -> Seq<char> {
    "^<a href=\"https://www.newgrounds.com/audio/listen/(?P<id>\\d+)"@
}

/// Reads the page number out of the query of a redirection (group `page_number`).
pub open spec fn query_page_pattern() -> Seq<char> {
    "^page=(?P<page_number>\\d+)$"@
}

/// Reads the page number out of the path of the requested page (group `page_number`).
pub open spec fn path_page_pattern() -> Seq<char> {
    "page/(?P<page_number>\\d+)/?$"@
}

/// Reads the file name out of a `Content-Disposition` header (group `file_name`).
pub open spec fn file_name_pattern() -> Seq<char> {
    "^attachment; filename=\"(?P<file_name>.+)\"$"@
}

/// A text made of whitespace only.
pub open spec fn blank_pattern() -> Seq<char> {
    "^\\s+$"@
}

/// The text shown in place of a score that does not have enough votes yet.
pub open spec fn pending_score_pattern() -> Seq<char> {
    "^\\s*Waiting for \\d+ more votes?\\s*$"@
}

/// The text of [`song_id_pattern`].
pub fn song_id_pattern_text() -> (res: &'static str)
    ensures
        res@ == song_id_pattern(),
{
    "^<a href=\"https://www.newgrounds.com/audio/listen/(?P<id>\\d+)"
}

/// The text of [`query_page_pattern`].
pub fn query_page_pattern_text() -> (res: &'static str)
    ensures
        res@ == query_page_pattern(),
{
    "^page=(?P<page_number>\\d+)$"
}

/// The text of [`path_page_pattern`].
pub fn path_page_pattern_text() -> (res: &'static str)
    ensures
        res@ == path_page_pattern(),
{
    "page/(?P<page_number>\\d+)/?$"
}

/// The text of [`file_name_pattern`].
pub fn file_name_pattern_text() -> (res: &'static str)
    ensures
        res@ == file_name_pattern(),
{
    "^attachment; filename=\"(?P<file_name>.+)\"$"
}

/// The text of [`blank_pattern`].
pub fn blank_pattern_text() -> (res: &'static str)
    ensures
        res@ == blank_pattern(),
{
    "^\\s+$"
}

/// The text of [`pending_score_pattern`].
pub fn pending_score_pattern_text() -> (res: &'static str)
    ensures
        res@ == pending_score_pattern(),
{
    "^\\s*Waiting for \\d+ more votes?\\s*$"
}

} // verus!
