//! Properties of the statistics panel reader: what it reads out of the
//! entries of a panel, stated over the traversal edges those entries make.

use vstd::prelude::*;
use crate::text::{is_float_literal, is_white_space, trimmed, u64_from_text, without_commas};
use crate::sidestats::{
    is_element_named, read_step, scan_score, skip_from, text_of, MetadataError, NodeView, Partial,
    ScoreView, TokenView,
};

verus! {

// ---------------------------------------------------------------------------
// Fields of the panel
// ---------------------------------------------------------------------------

/// Commas are dropped wherever they stand: a comma between two pieces of text
/// counts for nothing.
pub proof fn law_comma_separators_ignored(a: Seq<char>, b: Seq<char>)
    ensures
        without_commas(a + seq![','] + b) == without_commas(a) + without_commas(b),
{
    reveal_with_fuel(Seq::filter, 2);
    let pred = |c: char| c != ',';
    Seq::filter_distributes_over_add(a + seq![','], b, pred);
    Seq::filter_distributes_over_add(a, seq![','], pred);
    assert(seq![','].drop_last() =~= Seq::<char>::empty());
    assert(seq![','].filter(pred) =~= Seq::<char>::empty());
    assert(without_commas(a) + Seq::<char>::empty() =~= without_commas(a));
}

proof fn lemma_labels_differ()
    ensures
        "Listens"@ != "Faves:"@,
        "Listens"@ != "Downloads"@,
        "Listens"@ != "Votes"@,
        "Listens"@ != "Score"@,
        "Listens"@ != "Uploaded"@,
        "Faves:"@ != "Downloads"@,
        "Faves:"@ != "Votes"@,
        "Faves:"@ != "Score"@,
        "Faves:"@ != "Uploaded"@,
        "Downloads"@ != "Votes"@,
        "Downloads"@ != "Score"@,
        "Downloads"@ != "Uploaded"@,
        "Votes"@ != "Score"@,
        "Votes"@ != "Uploaded"@,
        "Score"@ != "Uploaded"@,
{
    reveal_strlit("Listens");
    reveal_strlit("Faves:");
    reveal_strlit("Downloads");
    reveal_strlit("Votes");
    reveal_strlit("Score");
    reveal_strlit("Uploaded");
    assert("Listens"@.len() != "Faves:"@.len());
    assert("Listens"@[0] != "Downloads"@[0]);
    assert("Listens"@.len() != "Votes"@.len());
    assert("Listens"@.len() != "Score"@.len());
    assert("Listens"@.len() != "Uploaded"@.len());
    assert("Faves:"@.len() != "Downloads"@.len());
    assert("Faves:"@[0] != "Votes"@[0]);
    assert("Faves:"@.len() != "Score"@.len());
    assert("Faves:"@.len() != "Uploaded"@.len());
    assert("Downloads"@.len() != "Votes"@.len());
    assert("Downloads"@.len() != "Score"@.len());
    assert("Downloads"@.len() != "Uploaded"@.len());
    assert("Votes"@[0] != "Score"@[0]);
    assert("Votes"@.len() != "Uploaded"@.len());
    assert("Score"@.len() != "Uploaded"@.len());
}

/// The two traversal edges of a text node (opened, then closed).
pub open spec fn text_edges(t: Seq<char>) -> Seq<NodeView> {
    seq![NodeView::Text(t), NodeView::Text(t)]
}

/// An element around `inner`: its opening edge, `inner`, its closing edge.
pub open spec fn element_edges(name: Seq<char>, inner: Seq<NodeView>) -> Seq<NodeView> {
    seq![NodeView::Element(name)] + inner + seq![NodeView::Element(name)]
}

/// The edges of the text between two elements, if there is one.
pub open spec fn spacing_edges(w: Option<Seq<char>>) -> Seq<NodeView> {
    match w {
        Some(t) => text_edges(t),
        None => Seq::empty(),
    }
}

pub open spec fn spacing_len(w: Option<Seq<char>>) -> int {
    if w is Some {
        2
    } else {
        0
    }
}

/// `<dt>{label}</dt>{w}<dd>{value}</dd>`, as traversal edges.
pub open spec fn entry_edges(label: Seq<char>, w: Option<Seq<char>>, value: Seq<char>) -> Seq<NodeView> {
    element_edges("dt"@, text_edges(label)) + spacing_edges(w) + element_edges("dd"@, text_edges(value))
}

/// The tokens from position `i` on have the nodes `nodes`.
pub open spec fn nodes_at(toks: Seq<TokenView>, i: int, nodes: Seq<NodeView>) -> bool {
    &&& 0 <= i
    &&& i + nodes.len() <= toks.len()
    &&& forall|k: int| 0 <= k < nodes.len() ==> (#[trigger] toks[i + k]).node == nodes[k]
}

/// A text made of whitespace only, and not empty.
pub open spec fn whitespace_only(t: Seq<char>) -> bool {
    t.len() > 0 && forall|j: int| 0 <= j < t.len() ==> is_white_space(#[trigger] t[j])
}

proof fn lemma_no_commas_kept(t: Seq<char>)
    requires
        forall|j: int| 0 <= j < t.len() ==> #[trigger] t[j] != ',',
    ensures
        without_commas(t) == t,
    decreases t.len(),
{
    reveal_with_fuel(Seq::filter, 1);
    if t.len() > 0 {
        assert forall|j: int| 0 <= j < t.drop_last().len() implies #[trigger] t.drop_last()[j] != ',' by {
            assert(t.drop_last()[j] == t[j]);
        }
        lemma_no_commas_kept(t.drop_last());
        assert(t.drop_last().push(t.last()) =~= t);
    }
}

proof fn lemma_whitespace_is_no_count(t: Seq<char>)
    requires
        whitespace_only(t),
    ensures
        u64_from_text(without_commas(t)) is None,
{
    assert forall|j: int| 0 <= j < t.len() implies #[trigger] t[j] != ',' by {
        assert(is_white_space(t[j]));
    }
    lemma_no_commas_kept(t);
    assert(is_white_space(t[0]));
    if t.len() > 1 {
        assert(is_white_space(t[1]));
        assert(t.drop_first()[0] == t[1]);
    }
}

/// For `<dt>{label}</dt>`, then at most one whitespace text, then
/// `<dd>{d}</dd>` with `label` one of `Faves:`, `Downloads`, `Votes`: the
/// field is `d` with every comma removed, read as a `u64`, and the reader goes
/// on right after the count's text opens.
#[verifier::rlimit(100)]
pub proof fn law_count_in_dd_is_text_without_commas(
    toks: Seq<TokenView>,
    i: int,
    f: Partial,
    label: Seq<char>,
    w: Option<Seq<char>>,
    d: Seq<char>,
)
    requires
        nodes_at(toks, i, entry_edges(label, w, d)),
        w matches Some(t) ==> whitespace_only(t),
        u64_from_text(without_commas(d)) is Some,
    ensures
        ({
            let n = u64_from_text(without_commas(d))->0;
            let k = i + 6 + spacing_len(w);
            &&& label == "Faves:"@ ==> read_step(toks, i, f) == Ok::<(int, Partial), MetadataError>(
                (k, Partial { faves: Some(n), ..f }),
            )
            &&& label == "Downloads"@ ==> read_step(toks, i, f) == Ok::<(int, Partial), MetadataError>(
                (k, Partial { downloads: Some(n), ..f }),
            )
            &&& label == "Votes"@ ==> read_step(toks, i, f) == Ok::<(int, Partial), MetadataError>(
                (k, Partial { votes: Some(Some(n)), ..f }),
            )
        }),
{
    lemma_labels_differ();
    let e = entry_edges(label, w, d);
    let o = 4 + spacing_len(w);
    let dt = NodeView::Element("dt"@);
    let dd = NodeView::Element("dd"@);
    let l = NodeView::Text(label);
    let v = NodeView::Text(d);
    match w {
        Some(t) => {
            let s = NodeView::Text(t);
            assert(e =~= seq![dt, l, l, dt, s, s, dd, v, v, dd]);
        },
        None => {
            assert(e =~= seq![dt, l, l, dt, dd, v, v, dd]);
        },
    }
    assert(toks[i + 0].node == e[0]);
    assert(toks[i + 1].node == e[1]);
    assert(toks[i + o].node == e[o]);
    let o1 = o + 1;
    assert(toks[i + o1].node == e[o1]);
    assert(e[o] == NodeView::Element("dd"@));
    assert(e[o + 1] == NodeView::Text(d));
    assert(skip_from(i + 2, 2, toks.len() as int) == i + 4);
    let n = u64_from_text(without_commas(d))->0;
    assert(crate::sidestats::scan_count(toks, i + o + 1) == Some((n, i + o + 2)));
    assert(crate::sidestats::scan_count(toks, i + o) == Some((n, i + o + 2)));
    if let Some(t) = w {
        assert(toks[i + 4].node == e[4]);
        assert(toks[i + 5].node == e[5]);
        assert(e[4] == NodeView::Text(t));
        assert(e[5] == NodeView::Text(t));
        lemma_whitespace_is_no_count(t);
        assert(crate::sidestats::scan_count(toks, i + 5) == Some((n, i + o + 2)));
        assert(crate::sidestats::scan_count(toks, i + 4) == Some((n, i + o + 2)));
    }
}

/// For `<dt>Listens</dt>`, then one text (the whitespace between the two
/// elements), then `<dd>{d}</dd>`: `listens` is `d` with every comma removed,
/// read as a `u64`.
pub proof fn law_listens_in_dd_is_text_without_commas(
    toks: Seq<TokenView>,
    i: int,
    f: Partial,
    w: Seq<char>,
    d: Seq<char>,
)
    requires
        nodes_at(toks, i, entry_edges("Listens"@, Some(w), d)),
        u64_from_text(without_commas(d)) is Some,
    ensures
        read_step(toks, i, f) == Ok::<(int, Partial), MetadataError>(
            (i + 8, Partial { listens: Some(u64_from_text(without_commas(d))->0), ..f }),
        ),
{
    let e = entry_edges("Listens"@, Some(w), d);
    let dt = NodeView::Element("dt"@);
    let dd = NodeView::Element("dd"@);
    let l = NodeView::Text("Listens"@);
    let v = NodeView::Text(d);
    let s = NodeView::Text(w);
    assert(e =~= seq![dt, l, l, dt, s, s, dd, v, v, dd]);
    assert(toks[i + 0].node == e[0]);
    assert(toks[i + 1].node == e[1]);
    assert(toks[i + 6].node == e[6]);
    assert(toks[i + 7].node == e[7]);
    assert(e[6] == NodeView::Element("dd"@));
    assert(e[7] == NodeView::Text(d));
    assert(skip_from(i + 2, 4, toks.len() as int) == i + 6);
}

/// An `Uploaded` label whose date comes in two texts `a` and `b` (neither
/// empty nor blank), read on every second edge from the third edge after the
/// label, and ended by an edge that is not text, sets the upload date to `a`,
/// one space, and `b`.
pub proof fn law_upload_date_joins_two_parts(
    toks: Seq<TokenView>,
    i: int,
    f: Partial,
    a: Seq<char>,
    b: Seq<char>,
)
    requires
        0 <= i,
        i + 9 < toks.len(),
        is_element_named(toks[i].node, "dt"@),
        toks[i + 1].node == NodeView::Text("Uploaded"@),
        toks[i + 5].node == NodeView::Text(a),
        toks[i + 7].node == NodeView::Text(b),
        a.len() > 0 && !toks[i + 5].blank,
        b.len() > 0 && !toks[i + 7].blank,
        text_of(toks[i + 9].node) is None,
    ensures
        read_step(toks, i, f) == Ok::<(int, Partial), MetadataError>(
            (
                skip_from(i + 9, 2, toks.len() as int),
                Partial { uploaded: Some(a + seq![' '] + b), ..f },
            ),
        ),
{
    lemma_labels_differ();
    let len = toks.len() as int;
    let empty = Seq::<char>::empty();
    assert(skip_from(i + 2, 3, len) == i + 5);
    assert(empty + a =~= a);
    assert(crate::sidestats::scan_date(toks, i + 9, a.push(' ') + b, 2) == Ok::<
        Option<(Seq<char>, int)>,
        MetadataError,
    >(Some((a.push(' ') + b, skip_from(i + 9, 2, len)))));
    assert(crate::sidestats::scan_date(toks, i + 7, a, 1) == crate::sidestats::scan_date(
        toks,
        i + 9,
        a.push(' ') + b,
        2,
    ));
    assert(crate::sidestats::scan_date(toks, i + 5, empty, 0) == crate::sidestats::scan_date(
        toks,
        i + 7,
        empty + a,
        1,
    ));
    assert(a.push(' ') + b =~= a + seq![' '] + b);
}

proof fn lemma_exponent_start_bound(b: Seq<char>)
    ensures
        crate::text::exponent_start(b) <= b.len(),
    decreases b.len(),
{
    if b.len() > 0 {
        lemma_exponent_start_bound(b.drop_first());
    }
}

proof fn lemma_whitespace_is_no_float(t: Seq<char>)
    requires
        whitespace_only(t),
    ensures
        !is_float_literal(without_commas(t)),
{
    assert forall|j: int| 0 <= j < t.len() implies #[trigger] t[j] != ',' by {
        assert(is_white_space(t[j]));
    }
    lemma_no_commas_kept(t);
    assert(is_white_space(t[0]));
    assert(!crate::text::is_sign(t[0]));
    assert(crate::text::ascii_lower(t[0]) == t[0]);
    assert(!crate::text::is_exponent_marker(t[0]));
    let k = crate::text::exponent_start(t) as int;
    lemma_exponent_start_bound(t);
    assert(k >= 1);
    assert(t.take(k)[0] == t[0]);
    assert(!(crate::text::is_ascii_digit(t.take(k)[0]) || t.take(k)[0] == '.'));
}

/// For `<dt>Score</dt>`, then at most one whitespace text (whose tokens are not
/// taken for a pending score), then `<dd>{t}</dd>` where `t` without its
/// commas is no floating-point literal but its token is taken for a pending
/// score: the score is that notice, trimmed, and the votes are cleared.
#[verifier::rlimit(100)]
pub proof fn law_pending_score_clears_votes(
    toks: Seq<TokenView>,
    i: int,
    f: Partial,
    w: Option<Seq<char>>,
    t: Seq<char>,
)
    requires
        nodes_at(toks, i, entry_edges("Score"@, w, t)),
        w matches Some(x) ==> whitespace_only(x) && !toks[i + 4].pending_score
            && !toks[i + 5].pending_score,
        !is_float_literal(without_commas(t)),
        toks[i + 5 + spacing_len(w)].pending_score,
    ensures
        read_step(toks, i, f) == Ok::<(int, Partial), MetadataError>(
            (
                i + 6 + spacing_len(w),
                Partial {
                    score: Some(ScoreView::Waiting(trimmed(without_commas(t)))),
                    votes: Some(None),
                    ..f
                },
            ),
        ),
{
    lemma_labels_differ();
    let e = entry_edges("Score"@, w, t);
    let o = 4 + spacing_len(w);
    let dt = NodeView::Element("dt"@);
    let dd = NodeView::Element("dd"@);
    let l = NodeView::Text("Score"@);
    let v = NodeView::Text(t);
    match w {
        Some(x) => {
            let sp = NodeView::Text(x);
            assert(e =~= seq![dt, l, l, dt, sp, sp, dd, v, v, dd]);
        },
        None => {
            assert(e =~= seq![dt, l, l, dt, dd, v, v, dd]);
        },
    }
    assert(toks[i + 0].node == e[0]);
    assert(toks[i + 1].node == e[1]);
    assert(toks[i + o].node == e[o]);
    let o1 = o + 1;
    assert(toks[i + o1].node == e[o1]);
    assert(e[o] == dd);
    assert(e[o1] == v);
    assert(skip_from(i + 2, 2, toks.len() as int) == i + 4);
    let found = Some((ScoreView::Waiting(trimmed(without_commas(t))), i + o + 2));
    assert(scan_score(toks, i + o1) == found);
    assert(scan_score(toks, i + o) == found);
    if let Some(x) = w {
        assert(toks[i + 4].node == e[4]);
        assert(toks[i + 5].node == e[5]);
        assert(e[4] == NodeView::Text(x));
        assert(e[5] == NodeView::Text(x));
        lemma_whitespace_is_no_float(x);
        assert(scan_score(toks, i + 5) == found);
        assert(scan_score(toks, i + 4) == found);
    }
}

/// `<dt>Uploaded</dt>{w1}<dd>{a}</dd>{w2}<dd>{b}</dd>`, as traversal edges.
pub open spec fn date_entry_edges(
    w1: Option<Seq<char>>,
    a: Seq<char>,
    w2: Option<Seq<char>>,
    b: Seq<char>,
) -> Seq<NodeView> {
    element_edges("dt"@, text_edges("Uploaded"@)) + spacing_edges(w1) + element_edges(
        "dd"@,
        text_edges(a),
    ) + spacing_edges(w2) + element_edges("dd"@, text_edges(b))
}

/// Both tokens of the text `w` at `j`, if there is one, are marked blank.
pub open spec fn blank_spacing_at(toks: Seq<TokenView>, j: int, w: Option<Seq<char>>) -> bool {
    w is Some ==> toks[j].blank && toks[j + 1].blank
}

/// Neither token of the text at `j` is marked blank.
pub open spec fn plain_text_at(toks: Seq<TokenView>, j: int) -> bool {
    !toks[j].blank && !toks[j + 1].blank
}

/// For `<dt>Uploaded</dt>`, then `<dd>{a}</dd>` and `<dd>{b}</dd>`, with at
/// most one blank text before each `dd` and `a`, `b` plain non-empty texts:
/// the upload date is `a`, one space, `b`; the reader goes on two edges after
/// the second `dd` closes.
#[verifier::rlimit(40)]
pub proof fn law_upload_date_in_two_dd_joins_parts(
    toks: Seq<TokenView>,
    i: int,
    f: Partial,
    w1: Option<Seq<char>>,
    a: Seq<char>,
    w2: Option<Seq<char>>,
    b: Seq<char>,
)
    requires
        nodes_at(toks, i, date_entry_edges(w1, a, w2, b)),
        a.len() > 0,
        b.len() > 0,
        blank_spacing_at(toks, i + 4, w1),
        plain_text_at(toks, i + 5 + spacing_len(w1)),
        blank_spacing_at(toks, i + 8 + spacing_len(w1), w2),
        plain_text_at(toks, i + 9 + spacing_len(w1) + spacing_len(w2)),
    ensures
        read_step(toks, i, f) == Ok::<(int, Partial), MetadataError>(
            (
                skip_from(i + 11 + spacing_len(w1) + spacing_len(w2), 2, toks.len() as int),
                Partial { uploaded: Some(a + seq![' '] + b), ..f },
            ),
        ),
{
    lemma_labels_differ();
    let len = toks.len() as int;
    let e = date_entry_edges(w1, a, w2, b);
    let s1 = spacing_len(w1);
    let s2 = spacing_len(w2);
    let dt = NodeView::Element("dt"@);
    let dd = NodeView::Element("dd"@);
    let u = NodeView::Text("Uploaded"@);
    let ta = NodeView::Text(a);
    let tb = NodeView::Text(b);
    let head = seq![dt, u, u, dt];
    let part_a = seq![dd, ta, ta, dd];
    let part_b = seq![dd, tb, tb, dd];
    assert(e =~= head + spacing_edges(w1) + part_a + spacing_edges(w2) + part_b);
    assert(e.len() == 12 + s1 + s2);
    let pa = 5 + s1;
    let ca = 7 + s1;
    let pb = 9 + s1 + s2;
    let pe = 11 + s1 + s2;
    assert(e[0] == dt);
    assert(e[1] == u);
    assert(e[pa] == ta);
    assert(e[ca] == dd);
    assert(e[pb] == tb);
    assert(e[pe] == dd);
    assert(toks[i + 0].node == e[0]);
    assert(toks[i + 1].node == e[1]);
    assert(toks[i + pa].node == e[pa]);
    assert(toks[i + ca].node == e[ca]);
    assert(toks[i + pb].node == e[pb]);
    assert(toks[i + pe].node == e[pe]);
    let empty = Seq::<char>::empty();
    let date = a.push(' ') + b;
    assert(empty + a =~= a);
    assert(crate::sidestats::scan_date(toks, i + pe, date, 2) == Ok::<
        Option<(Seq<char>, int)>,
        MetadataError,
    >(Some((date, skip_from(i + pe, 2, len)))));
    assert(crate::sidestats::scan_date(toks, i + pb, a, 1) == crate::sidestats::scan_date(
        toks,
        i + pe,
        date,
        2,
    ));
    if let Some(t) = w2 {
        let k = 9 + s1;
        assert(e[k] == NodeView::Text(t));
        assert(toks[i + k].node == e[k]);
        assert(crate::sidestats::scan_date(toks, i + k, a, 1) == crate::sidestats::scan_date(
            toks,
            i + pb,
            a,
            1,
        ));
    }
    assert(crate::sidestats::scan_date(toks, i + ca, a, 1) == crate::sidestats::scan_date(
        toks,
        i + pb,
        a,
        1,
    ));
    assert(crate::sidestats::scan_date(toks, i + pa, empty, 0) == crate::sidestats::scan_date(
        toks,
        i + ca,
        empty + a,
        1,
    ));
    if let Some(t) = w1 {
        assert(e[5] == NodeView::Text(t));
        assert(toks[i + 5].node == e[5]);
        assert(crate::sidestats::scan_date(toks, i + 5, empty, 0) == crate::sidestats::scan_date(
            toks,
            i + pa,
            empty,
            0,
        ));
    }
    assert(skip_from(i + 2, 3, len) == i + 5);
    assert(date =~= a + seq![' '] + b);
}

} // verus!
