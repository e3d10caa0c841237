//! Properties of the library that span its functions, proved over the
//! specifications that their contracts use.

use vstd::prelude::*;
use crate::text::{
    all_digits, decimal, digit_char, digit_value, digits_value, is_float_literal, is_white_space,
    trim_end, trim_start, trimmed, u64_from_text,
};
use crate::crawl::{advanced, page_prefix, page_url, redirect_judgement, text_precedes, CrawlView, RedirectVerdict};
use crate::download::{plans_downloads, same_download, PlanView};
use crate::sidestats::{
    complete, is_element_named, no_fields, read_from, read_panel, read_step, scan_score,
    lemma_read_step_advances, skip_from, text_of, MetadataError, MetadataField, NodeView, Partial,
    ScoreView, TokenView,
};
use crate::text::without_commas;

verus! {

// ---------------------------------------------------------------------------
// Decimal numbers
// ---------------------------------------------------------------------------

/// The decimal spelling of a number is made of digits and spells that number.
pub proof fn lemma_decimal_digits(n: nat)
    ensures
        decimal(n).len() > 0,
        all_digits(decimal(n)),
        digits_value(decimal(n)) == n,
    decreases n,
{
    if n >= 10 {
        lemma_decimal_digits(n / 10);
        let d = decimal(n);
        assert(d.drop_last() =~= decimal(n / 10));
        assert(digit_value(digit_char((n % 10) as nat)) == n % 10);
        assert((n / 10) * 10 + n % 10 == n) by (nonlinear_arith);
        assert(d.last() == digit_char((n % 10) as nat));
        assert(digits_value(d) == digits_value(d.drop_last()) * 10 + digit_value(d.last()));
        assert(digits_value(d) == (n / 10) * 10 + n % 10);
        assert forall|i: int| 0 <= i < d.len() implies crate::text::is_ascii_digit(#[trigger] d[i]) by {
            if i < d.len() - 1 {
                assert(d[i] == decimal(n / 10)[i]);
            }
        }
    } else {
        assert(digit_value(digit_char(n)) == n);
        assert(decimal(n).drop_last() =~= Seq::<char>::empty());
        assert(digits_value(decimal(n)) == digits_value(Seq::<char>::empty()) * 10 + digit_value(digit_char(n)));
    }
}

/// Reading back the decimal spelling of a `u64` gives the number.
pub proof fn law_decimal_round_trip(n: u64)
    ensures
        u64_from_text(decimal(n as nat)) == Some(n),
{
    lemma_decimal_digits(n as nat);
}

/// Different page numbers give different page addresses: a crawl never asks
/// for the same page twice.
pub proof fn law_page_urls_distinct(username: Seq<char>, dl_type: Seq<char>, n: nat, m: nat)
    requires
        n != m,
    ensures
        page_url(username, dl_type, n) != page_url(username, dl_type, m),
{
    let p = page_prefix(username, dl_type);
    if page_url(username, dl_type, n) == page_url(username, dl_type, m) {
        assert(page_url(username, dl_type, n).skip(p.len() as int) =~= decimal(n));
        assert(page_url(username, dl_type, m).skip(p.len() as int) =~= decimal(m));
        lemma_decimal_digits(n);
        lemma_decimal_digits(m);
    }
}

// ---------------------------------------------------------------------------
// The crawl
// ---------------------------------------------------------------------------

/// The lists of matches of consecutive pages, joined in page order.
pub open spec fn joined(founds: Seq<Seq<Seq<char>>>) -> Seq<Seq<char>>
    decreases founds.len(),
{
    if founds.len() == 0 {
        Seq::empty()
    } else {
        joined(founds.drop_last()) + founds.last()
    }
}

/// A crawl taken page by page, `founds[i]` being the matches found on the
/// `i`-th page fetched, holds after its last page the matches it started with
/// followed by all those found, in page order, and has moved on by as many
/// pages as were fetched.
pub proof fn law_crawl_collects_in_page_order(states: Seq<CrawlView>, founds: Seq<Seq<Seq<char>>>)
    requires
        states.len() == founds.len() + 1,
        forall|i: int| 0 <= i < founds.len() ==> advanced(#[trigger] states[i], founds[i], states[i + 1]),
    ensures
        states.last().matches == states[0].matches + joined(founds),
        states.last().page == states[0].page + founds.len(),
        states.last().username == states[0].username,
        states.last().dl_type == states[0].dl_type,
    decreases founds.len(),
{
    if founds.len() > 0 {
        let n = founds.len() as int;
        let earlier = states.take(n);
        assert forall|i: int| 0 <= i < founds.drop_last().len() implies advanced(
            #[trigger] earlier[i],
            founds.drop_last()[i],
            earlier[i + 1],
        ) by {
            assert(advanced(states[i], founds[i], states[i + 1]));
        }
        law_crawl_collects_in_page_order(earlier, founds.drop_last());
        assert(advanced(states[n - 1], founds[n - 1], states[n]));
        assert(earlier.last() == states[n - 1]);
        assert(states[0].matches + joined(founds) =~= states[0].matches + joined(founds.drop_last())
            + founds.last());
    }
}

// ---------------------------------------------------------------------------
// Redirections
// ---------------------------------------------------------------------------

/// No text comes before itself.
pub proof fn law_text_order_irreflexive(a: Seq<char>)
    ensures
        !text_precedes(a, a),
    decreases a.len(),
{
    if a.len() > 0 {
        law_text_order_irreflexive(a.drop_first());
    }
}

/// Of two texts, at most one comes before the other.
pub proof fn law_text_order_asymmetric(a: Seq<char>, b: Seq<char>)
    ensures
        !(text_precedes(a, b) && text_precedes(b, a)),
    decreases a.len(),
{
    if a.len() > 0 && b.len() > 0 && a[0] == b[0] {
        law_text_order_asymmetric(a.drop_first(), b.drop_first());
    }
}

/// A redirection to the page number that was asked for is followed.
pub proof fn law_redirect_to_same_page_followed(page: Seq<char>)
    ensures
        redirect_judgement(Some(Some(page)), Some(Some(page))) == Ok::<
            RedirectVerdict,
            crate::crawl::RedirectError,
        >(RedirectVerdict::Follow),
{
    law_text_order_irreflexive(page);
}

/// A redirection is refused exactly when the page it leads to comes before
/// the page asked for; so of two pages, a redirection from either one to the
/// other is followed at least one way.
pub proof fn law_redirect_followed_one_way(p: Seq<char>, q: Seq<char>)
    ensures
        redirect_judgement(Some(Some(q)), Some(Some(p))) == Ok::<
            RedirectVerdict,
            crate::crawl::RedirectError,
        >(RedirectVerdict::Follow) || redirect_judgement(Some(Some(p)), Some(Some(q))) == Ok::<
            RedirectVerdict,
            crate::crawl::RedirectError,
        >(RedirectVerdict::Follow),
{
    law_text_order_asymmetric(p, q);
}

/// `10` to the power `n`.
pub open spec fn pow10(n: nat) -> nat
    decreases n,
{
    if n == 0 {
        1
    } else {
        10 * pow10((n - 1) as nat)
    }
}

proof fn lemma_digits_value_below_power(d: Seq<char>)
    requires
        all_digits(d),
    ensures
        digits_value(d) < pow10(d.len()),
    decreases d.len(),
{
    if d.len() > 0 {
        let r = d.drop_last();
        assert(all_digits(r)) by {
            assert forall|i: int| 0 <= i < r.len() implies crate::text::is_ascii_digit(#[trigger] r[i]) by {
                assert(r[i] == d[i]);
            }
        }
        lemma_digits_value_below_power(r);
        assert(crate::text::is_ascii_digit(d[d.len() - 1]));
        let v = digits_value(r);
        let p = pow10(r.len());
        let x = digit_value(d.last());
        assert(x <= 9);
        assert(v * 10 + x < 10 * p) by (nonlinear_arith)
            requires
                v < p,
                x <= 9,
        ;
    }
}

proof fn lemma_digits_value_front(x: char, r: Seq<char>)
    ensures
        digits_value(seq![x] + r) == digit_value(x) * pow10(r.len()) + digits_value(r),
    decreases r.len(),
{
    let d = seq![x] + r;
    if r.len() == 0 {
        assert(d.drop_last() =~= Seq::<char>::empty());
        assert(d.last() == x);
        assert(r =~= Seq::<char>::empty());
        assert(digits_value(d) == digits_value(d.drop_last()) * 10 + digit_value(d.last()));
        assert(digits_value(d) == digit_value(x));
        assert(pow10(0) == 1);
        assert(digit_value(x) * pow10(r.len()) == digit_value(x));
    } else {
        let r2 = r.drop_last();
        assert(d.drop_last() =~= seq![x] + r2);
        lemma_digits_value_front(x, r2);
        let a = digit_value(x);
        let p = pow10(r2.len());
        let v = digits_value(r2);
        let l = digit_value(r.last());
        assert(d.last() == r.last());
        assert(digits_value(d) == digits_value(d.drop_last()) * 10 + digit_value(d.last()));
        assert(digits_value(r) == digits_value(r.drop_last()) * 10 + digit_value(r.last()));
        assert(pow10(r.len()) == 10 * pow10(r2.len()));
        assert((a * p + v) * 10 + l == a * (10 * p) + (v * 10 + l)) by (nonlinear_arith);
        assert(digits_value(d) == a * pow10(r.len()) + digits_value(r));
    }
}

proof fn lemma_equal_length_digits_order(d: Seq<char>, e: Seq<char>)
    requires
        all_digits(d),
        all_digits(e),
        d.len() == e.len(),
    ensures
        text_precedes(d, e) <==> digits_value(d) < digits_value(e),
    decreases d.len(),
{
    if d.len() > 0 {
        let x = d[0];
        let y = e[0];
        let dr = d.drop_first();
        let er = e.drop_first();
        assert(d =~= seq![x] + dr);
        assert(e =~= seq![y] + er);
        assert(all_digits(dr)) by {
            assert forall|i: int| 0 <= i < dr.len() implies crate::text::is_ascii_digit(#[trigger] dr[i]) by {
                assert(dr[i] == d[i + 1]);
            }
        }
        assert(all_digits(er)) by {
            assert forall|i: int| 0 <= i < er.len() implies crate::text::is_ascii_digit(#[trigger] er[i]) by {
                assert(er[i] == e[i + 1]);
            }
        }
        lemma_digits_value_front(x, dr);
        lemma_digits_value_front(y, er);
        lemma_digits_value_below_power(dr);
        lemma_digits_value_below_power(er);
        lemma_equal_length_digits_order(dr, er);
        assert(crate::text::is_ascii_digit(d[0]));
        assert(crate::text::is_ascii_digit(e[0]));
        let a = digit_value(x);
        let b = digit_value(y);
        let p = pow10(dr.len());
        let u = digits_value(dr);
        let v = digits_value(er);
        if x != y {
            assert(x as int != y as int);
            if x < y {
                assert(a < b);
                assert(a * p + u < b * p + v) by (nonlinear_arith)
                    requires
                        a < b,
                        u < p,
                ;
            } else {
                assert(b < a);
                assert(b * p + v < a * p + u) by (nonlinear_arith)
                    requires
                        b < a,
                        v < p,
                ;
            }
        } else {
            assert(a == b);
        }
    }
}

/// Two page numbers written with the same number of digits come in text order
/// exactly as they come in number order (so `11` comes before `12`).
pub proof fn law_text_order_of_equal_length_numbers(n: u64, m: u64)
    requires
        decimal(n as nat).len() == decimal(m as nat).len(),
    ensures
        text_precedes(decimal(n as nat), decimal(m as nat)) <==> n < m,
{
    lemma_decimal_digits(n as nat);
    lemma_decimal_digits(m as nat);
    lemma_equal_length_digits_order(decimal(n as nat), decimal(m as nat));
}

/// A redirection between two pages whose numbers have the same number of
/// digits is refused exactly when it leads to a lower page (from page 12 to
/// page 11, say).
pub proof fn law_redirect_to_lower_page_refused(asked: u64, given: u64)
    requires
        decimal(asked as nat).len() == decimal(given as nat).len(),
    ensures
        redirect_judgement(Some(Some(decimal(given as nat))), Some(Some(decimal(asked as nat))))
            == Ok::<RedirectVerdict, crate::crawl::RedirectError>(
            if given < asked {
                RedirectVerdict::Refuse
            } else {
                RedirectVerdict::Follow
            },
        ),
{
    law_text_order_of_equal_length_numbers(given, asked);
}

// ---------------------------------------------------------------------------
// Whitespace
// ---------------------------------------------------------------------------

proof fn lemma_trim_start_first(s: Seq<char>)
    ensures
        trim_start(s).len() > 0 ==> !is_white_space(trim_start(s)[0]),
        trim_start(s) == s.skip(s.len() - trim_start(s).len()),
        trim_start(s).len() <= s.len(),
    decreases s.len(),
{
    if s.len() > 0 && is_white_space(s[0]) {
        lemma_trim_start_first(s.drop_first());
        assert(s.drop_first().skip(s.drop_first().len() - trim_start(s).len()) =~= s.skip(
            s.len() - trim_start(s).len(),
        ));
    } else {
        assert(s.skip(0) =~= s);
    }
}

proof fn lemma_trim_end_last(s: Seq<char>)
    ensures
        trim_end(s).len() > 0 ==> !is_white_space(trim_end(s).last()),
        trim_end(s) == s.take(trim_end(s).len() as int),
        trim_end(s).len() <= s.len(),
    decreases s.len(),
{
    if s.len() > 0 && is_white_space(s.last()) {
        lemma_trim_end_last(s.drop_last());
        assert(s.drop_last().take(trim_end(s).len() as int) =~= s.take(trim_end(s).len() as int));
    } else {
        assert(s.take(s.len() as int) =~= s);
    }
}

/// A trimmed text neither starts nor ends with whitespace.
pub proof fn law_trimmed_edges(s: Seq<char>)
    ensures
        trimmed(s).len() > 0 ==> !is_white_space(trimmed(s)[0]) && !is_white_space(trimmed(s).last()),
{
    lemma_trim_start_first(s);
    lemma_trim_end_last(trim_start(s));
    let t = trim_start(s);
    if trimmed(s).len() > 0 {
        assert(trimmed(s)[0] == t.take(trimmed(s).len() as int)[0]);
    }
}

/// Trimming twice is trimming once.
pub proof fn law_trim_idempotent(s: Seq<char>)
    ensures
        trimmed(trimmed(s)) == trimmed(s),
{
    let t = trimmed(s);
    law_trimmed_edges(s);
    if t.len() > 0 {
        assert(trim_start(t) == t);
        assert(trim_end(t) == t);
    } else {
        assert(trim_start(t) == t);
        assert(trim_end(t) == t);
    }
}

// ---------------------------------------------------------------------------
// Downloads
// ---------------------------------------------------------------------------

/// A file is always taken to be the same download as itself.
pub proof fn law_same_download_reflexive(bytes: Seq<u8>)
    ensures
        same_download(bytes, bytes),
{
}

/// Files of different lengths are never taken to be the same download.
pub proof fn law_same_download_needs_same_length(existing: Seq<u8>, downloaded: Seq<u8>)
    requires
        existing.len() != downloaded.len(),
    ensures
        !same_download(existing, downloaded),
{
}

// ---------------------------------------------------------------------------
// The statistics panel
// ---------------------------------------------------------------------------

/// A score found so far is a floating-point literal, or a trimmed notice.
pub open spec fn score_well_formed(f: Partial) -> bool {
    match f.score {
        Some(ScoreView::Score(s)) => is_float_literal(s),
        Some(ScoreView::Waiting(w)) => trimmed(w) == w,
        None => true,
    }
}

proof fn lemma_scan_score_well_formed(toks: Seq<TokenView>, j: int)
    ensures
        match scan_score(toks, j) {
            Some((ScoreView::Score(s), k)) => is_float_literal(s),
            Some((ScoreView::Waiting(w), k)) => trimmed(w) == w,
            None => true,
        },
    decreases toks.len() - j,
{
    if 0 <= j < toks.len() {
        lemma_scan_score_well_formed(toks, j + 1);
        match crate::sidestats::text_of(toks[j].node) {
            Some(t) => law_trim_idempotent(crate::text::without_commas(t)),
            None => {},
        }
    }
}

proof fn lemma_read_from_score(toks: Seq<TokenView>, i: int, f: Partial)
    requires
        score_well_formed(f),
    ensures
        read_from(toks, i, f) matches Ok(g) ==> score_well_formed(g),
    decreases toks.len() - i,
{
    if 0 <= i < toks.len() {
        lemma_read_step_advances(toks, i, f);
        let p = i + 2;
        lemma_scan_score_well_formed(
            toks,
            crate::sidestats::skip_from(p, 2, toks.len() as int),
        );
        match read_step(toks, i, f) {
            Ok((k, g)) => {
                lemma_read_from_score(toks, k, g);
            },
            Err(_) => {},
        }
    }
}

/// The score of a submission read from its panel is text that
/// `str::parse::<f64>` accepts, or a notice that is already trimmed.
pub proof fn law_panel_score_well_formed(toks: Seq<TokenView>)
    ensures
        read_panel(toks) matches Ok(m) ==> match m.score {
            ScoreView::Score(s) => is_float_literal(s),
            ScoreView::Waiting(w) => trimmed(w) == w,
        },
{
    lemma_read_from_score(toks, 0, no_fields());
}

proof fn lemma_read_from_unlabelled(toks: Seq<TokenView>, i: int)
    requires
        forall|j: int| 0 <= j < toks.len() ==> !is_element_named(#[trigger] toks[j].node, "dt"@),
    ensures
        read_from(toks, i, no_fields()) == Ok::<Partial, MetadataError>(no_fields()),
    decreases toks.len() - i,
{
    if 0 <= i < toks.len() {
        lemma_read_from_unlabelled(toks, i + 1);
    }
}

/// A panel without any `dt` label gives no metadata: the first field,
/// `listens`, is missing.
pub proof fn law_unlabelled_panel_misses_listens(toks: Seq<TokenView>)
    requires
        forall|j: int| 0 <= j < toks.len() ==> !is_element_named(#[trigger] toks[j].node, "dt"@),
    ensures
        read_panel(toks) == Err::<crate::sidestats::MetadataView, MetadataError>(
            MetadataError::Missing(MetadataField::Listens),
        ),
{
    lemma_read_from_unlabelled(toks, 0);
}


// ---------------------------------------------------------------------------
// From the crawl to the downloads
// ---------------------------------------------------------------------------

proof fn lemma_crawl_pages(states: Seq<CrawlView>, founds: Seq<Seq<Seq<char>>>)
    requires
        states.len() == founds.len() + 1,
        forall|i: int| 0 <= i < founds.len() ==> advanced(#[trigger] states[i], founds[i], states[i + 1]),
    ensures
        forall|i: int|
            0 <= i < states.len() ==> {
                &&& (#[trigger] states[i]).page == states[0].page + i
                &&& states[i].username == states[0].username
                &&& states[i].dl_type == states[0].dl_type
            },
    decreases founds.len(),
{
    if founds.len() > 0 {
        let n = founds.len() as int;
        let earlier = states.take(n);
        assert forall|i: int| 0 <= i < founds.drop_last().len() implies advanced(
            #[trigger] earlier[i],
            founds.drop_last()[i],
            earlier[i + 1],
        ) by {
            assert(advanced(states[i], founds[i], states[i + 1]));
        }
        lemma_crawl_pages(earlier, founds.drop_last());
        assert forall|i: int| 0 <= i < states.len() implies {
            &&& (#[trigger] states[i]).page == states[0].page + i
            &&& states[i].username == states[0].username
            &&& states[i].dl_type == states[0].dl_type
        } by {
            if i < n {
                assert(earlier[i] == states[i]);
            } else {
                assert(earlier[n - 1] == states[n - 1]);
                assert(advanced(states[n - 1], founds[n - 1], states[n]));
            }
        }
    }
}

/// A crawl of `username`'s `dl_type` list started afresh and taken page by
/// page (`founds[i]` being the listing matches of the `i`-th page fetched)
/// asks for pages 1, 2, ... in order; and a download plan made from the
/// matches it ends with holds, in page order and then in the order of each
/// page, the id of every match, the download address of that id and the path
/// under `dir` named after it.
pub proof fn law_crawl_plans_downloads(
    username: Seq<char>,
    dl_type: Seq<char>,
    dir: Seq<char>,
    states: Seq<CrawlView>,
    founds: Seq<Seq<Seq<char>>>,
    plan: PlanView,
)
    requires
        states.len() == founds.len() + 1,
        states[0].username == username,
        states[0].dl_type == dl_type,
        states[0].page == 1,
        states[0].matches == Seq::<Seq<char>>::empty(),
        forall|i: int| 0 <= i < founds.len() ==> advanced(#[trigger] states[i], founds[i], states[i + 1]),
        plans_downloads(dir, states.last().matches, plan),
    ensures
        forall|i: int|
            0 <= i < states.len() ==> page_url(
                (#[trigger] states[i]).username,
                states[i].dl_type,
                states[i].page,
            ) == page_url(username, dl_type, (i + 1) as nat),
        plan.ids.len() == joined(founds).len(),
        forall|k: int|
            0 <= k < joined(founds).len() ==> {
                &&& crate::crawl::song_id_of(#[trigger] joined(founds)[k]) == Some(plan.ids[k])
                &&& plan.urls[k] == crate::crawl::download_url(plan.ids[k])
                &&& plan.files[k] == crate::download::planned_file(dir, plan.ids[k])
            },
{
    lemma_crawl_pages(states, founds);
    law_crawl_collects_in_page_order(states, founds);
    assert(states.last().matches =~= joined(founds));
    assert forall|i: int| 0 <= i < states.len() implies page_url(
        (#[trigger] states[i]).username,
        states[i].dl_type,
        states[i].page,
    ) == page_url(username, dl_type, (i + 1) as nat) by {
        assert(states[i].page == 1 + i);
    }
}

// ---------------------------------------------------------------------------
// What the patterns take
// ---------------------------------------------------------------------------

/// The submission id of a listing match is exactly the group `id` of the id
/// pattern, matched against the whole match.
pub proof fn law_song_id_is_the_id_group(item: Seq<char>, id: Seq<char>)
    ensures
        crate::crawl::song_id_of(item) == Some(id) <==> crate::patterns::regex_capture(
            crate::patterns::song_id_pattern(),
            item,
            "id"@,
        ) == Some(Some(id)),
{
}

/// The id pattern is anchored at the start of the match, spells out the listen
/// address, and takes as the id the whole run of one or more digits after it
/// (`\d+`, with no bound on the number of digits).
pub proof fn law_song_id_pattern_takes_every_digit()
    ensures
        crate::patterns::song_id_pattern() == "^<a href=\"https://www.newgrounds.com/audio/listen/"@
            + "(?P<id>"@ + "\\d+"@ + ")"@,
{
    reveal_strlit("^<a href=\"https://www.newgrounds.com/audio/listen/(?P<id>\\d+)");
    reveal_strlit("^<a href=\"https://www.newgrounds.com/audio/listen/");
    reveal_strlit("(?P<id>");
    reveal_strlit("\\d+");
    reveal_strlit(")");
    assert(crate::patterns::song_id_pattern() =~= "^<a href=\"https://www.newgrounds.com/audio/listen/"@
        + "(?P<id>"@ + "\\d+"@ + ")"@);
}

/// The file name of a download is exactly the group `file_name` of the file
/// name pattern, matched against the whole header.
pub proof fn law_attachment_name_is_the_file_name_group(header: Seq<char>, name: Seq<char>)
    ensures
        crate::download::attachment_name(header) == Some(name) <==> crate::patterns::regex_capture(
            crate::patterns::file_name_pattern(),
            header,
            "file_name"@,
        ) == Some(Some(name)),
{
}

/// The file name pattern takes the whole header, `attachment; filename="..."`,
/// and as the name everything between the quotes, any characters, as long as
/// there is at least one (`.+`).
pub proof fn law_file_name_pattern_takes_any_quoted_name()
    ensures
        crate::patterns::file_name_pattern() == "^attachment; filename=\""@ + "(?P<file_name>"@
            + ".+"@ + ")"@ + "\"$"@,
{
    reveal_strlit("^attachment; filename=\"(?P<file_name>.+)\"$");
    reveal_strlit("^attachment; filename=\"");
    reveal_strlit("(?P<file_name>");
    reveal_strlit(".+");
    reveal_strlit(")");
    reveal_strlit("\"$");
    assert(crate::patterns::file_name_pattern() =~= "^attachment; filename=\""@
        + "(?P<file_name>"@ + ".+"@ + ")"@ + "\"$"@);
}

/// The token of a text carries what the two panel patterns say of it: `blank`
/// is the blank pattern on the text, `pending_score` the pending-score
/// pattern on the text without its commas.
pub proof fn law_token_flags_follow_the_patterns(e: crate::sidestats::EdgeView, t: Seq<char>)
    requires
        e.node == NodeView::Text(t),
        crate::sidestats::token_of(e) is Some,
    ensures
        crate::patterns::regex_is_match(crate::patterns::blank_pattern(), t) == Some(
            crate::sidestats::token_of(e)->0.blank,
        ),
        crate::patterns::regex_is_match(crate::patterns::pending_score_pattern(), without_commas(t))
            == Some(crate::sidestats::token_of(e)->0.pending_score),
        crate::sidestats::token_of(e)->0.node == e.node,
{
}

/// The pending-score pattern takes the notice for one missing vote as well as
/// for several (`vote` and `votes`), with any whitespace around it.
pub proof fn law_pending_pattern_takes_one_or_more_votes()
    ensures
        crate::patterns::pending_score_pattern() == "^\\s*Waiting for \\d+ more vote"@ + "s?"@
            + "\\s*$"@,
{
    reveal_strlit("^\\s*Waiting for \\d+ more votes?\\s*$");
    reveal_strlit("^\\s*Waiting for \\d+ more vote");
    reveal_strlit("s?");
    reveal_strlit("\\s*$");
    assert(crate::patterns::pending_score_pattern() =~= "^\\s*Waiting for \\d+ more vote"@ + "s?"@
        + "\\s*$"@);
}

// ---------------------------------------------------------------------------
// Retry-After
// ---------------------------------------------------------------------------

/// A `Retry-After` value that is a number asks for exactly that many seconds,
/// however large.
pub proof fn law_numeric_retry_after_is_that_many_seconds(text: Seq<char>)
    requires
        u64_from_text(text) is Some,
    ensures
        crate::download::retry_after_value(text) == u64_from_text(text),
{
}

/// Any `u64`, written in decimal as a `Retry-After` value, asks for that many
/// seconds.
pub proof fn law_retry_after_of_a_number(n: u64)
    ensures
        crate::download::retry_after_value(decimal(n as nat)) == Some(n),
{
    law_decimal_round_trip(n);
}

} // verus!
