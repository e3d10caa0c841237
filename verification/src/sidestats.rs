//! Reading the statistics panel (`#sidestats`) of a listen page into the
//! metadata of one submission.
//!
//! The panel is walked as the sequence of edges of a depth-first traversal of
//! its document tree (each node is met once when it opens and once when it
//! closes). A `dt` element whose first following edge is one of the labels
//! `Listens`, `Faves:`, `Downloads`, `Votes`, `Score` or `Uploaded` makes the
//! reader look further on for the value of that field.

use vstd::prelude::*;
use ego_tree::iter::Edge;
use scraper::{Html, Node, Selector};
use crate::text::{
    chars_of, is_float_literal, is_float_text, parse_u64, remove_commas, same_text, string_of,
    trim, trimmed, u64_from_text, without_commas,
};

verus! {

// ---------------------------------------------------------------------------
// Document tree edges
// ---------------------------------------------------------------------------

/// What a node of the document tree holds, as far as the reader looks at it.
#[derive(Debug)]
pub enum NodeData {
    /// An element, by its local name (such as `dt`).
    Element(String),
    /// A text node.
    Text(String),
    /// Any other node (document, comment, doctype, ...).
    Other,
}

/// One edge of a depth-first traversal: a node being opened or closed.
#[derive(Debug)]
pub struct TreeEdge {
    pub closing: bool,
    pub node: NodeData,
}

/// A traversal edge together with what the panel's two patterns say of its
/// text: whether the text is blank, and whether it (without commas) is the
/// notice shown in place of a score that lacks votes.
#[derive(Debug)]
pub struct PanelToken {
    pub node: NodeData,
    pub blank: bool,
    pub pending_score: bool,
}

pub enum NodeView {
    Element(Seq<char>),
    Text(Seq<char>),
    Other,
}

pub struct EdgeView {
    pub closing: bool,
    pub node: NodeView,
}

pub struct TokenView {
    pub node: NodeView,
    pub blank: bool,
    pub pending_score: bool,
}

impl View for NodeData {
    type V = NodeView;

    open spec fn view(&self) -> NodeView {
        match self {
            NodeData::Element(name) => NodeView::Element(name@),
            NodeData::Text(text) => NodeView::Text(text@),
            NodeData::Other => NodeView::Other,
        }
    }
}

impl DeepView for TreeEdge {
    type V = EdgeView;

    open spec fn deep_view(&self) -> EdgeView {
        EdgeView { closing: self.closing, node: self.node@ }
    }
}


impl View for PanelToken {
    type V = TokenView;

    open spec fn view(&self) -> TokenView {
        TokenView { node: self.node@, blank: self.blank, pending_score: self.pending_score }
    }
}

// ---------------------------------------------------------------------------
// Metadata
// ---------------------------------------------------------------------------

/// The score of a submission.
#[derive(Debug)]
pub enum ScoreType {
    /// A score, as the panel writes it (without thousands separators); the
    /// text is always accepted by `str::parse::<f64>`.
    Score(String),
    /// The notice shown while the submission waits for votes, trimmed.
    Waiting(String),
}

/// What the statistics panel tells of one submission.
#[derive(Debug)]
pub struct NewGroundsAudioMetadata {
    pub listens: u64,
    pub faves: u64,
    pub downloads: u64,
    /// `None` while the score waits for votes.
    pub votes: Option<u64>,
    pub score: ScoreType,
    pub uploaded: String,
}

/// The fields of [`NewGroundsAudioMetadata`], in the order they are checked.
#[derive(Clone, Copy, Debug, PartialEq, Eq, Structural)]
pub enum MetadataField {
    Listens,
    Faves,
    Downloads,
    Votes,
    Score,
    Uploaded,
}

/// Why a listen page gave no metadata. Every variant is a page the download
/// cannot go on with; the program stops on it.
#[derive(Clone, Copy, Debug, PartialEq, Eq, Structural)]
pub enum MetadataError {
    /// The panel's selector was refused by the HTML library.
    InvalidSelector,
    /// The page has no statistics panel.
    NoPanel,
    /// The page has more than one statistics panel.
    SeveralPanels,
    /// One of the panel's regular expressions did not compile.
    InvalidPattern,
    /// The node after the `dd` of `Listens` is not a text.
    ListensNotText,
    /// The text after the `dd` of `Listens` is not a number.
    ListensNotANumber,
    /// The upload date came in more than 255 parts.
    TooManyDateParts,
    /// The panel never gave a value for this field.
    Missing(MetadataField),
}

pub enum ScoreView {
    Score(Seq<char>),
    Waiting(Seq<char>),
}

pub struct MetadataView {
    pub listens: u64,
    pub faves: u64,
    pub downloads: u64,
    pub votes: Option<u64>,
    pub score: ScoreView,
    pub uploaded: Seq<char>,
}

/// The fields found so far.
pub struct Partial {
    pub listens: Option<u64>,
    pub faves: Option<u64>,
    pub downloads: Option<u64>,
    pub votes: Option<Option<u64>>,
    pub score: Option<ScoreView>,
    pub uploaded: Option<Seq<char>>,
}

impl View for ScoreType {
    type V = ScoreView;

    open spec fn view(&self) -> ScoreView {
        match self {
            ScoreType::Score(s) => ScoreView::Score(s@),
            ScoreType::Waiting(s) => ScoreView::Waiting(s@),
        }
    }
}

impl View for NewGroundsAudioMetadata {
    type V = MetadataView;

    open spec fn view(&self) -> MetadataView {
        MetadataView {
            listens: self.listens,
            faves: self.faves,
            downloads: self.downloads,
            votes: self.votes,
            score: self.score@,
            uploaded: self.uploaded@,
        }
    }
}

pub open spec fn no_fields() -> Partial {
    Partial {
        listens: None,
        faves: None,
        downloads: None,
        votes: None,
        score: None,
        uploaded: None,
    }
}

/// The metadata once every field has been found; otherwise the first missing
/// field, in the order of [`MetadataField`].
pub open spec fn complete(p: Partial) -> Result<MetadataView, MetadataError> {
    if p.listens is None {
        Err(MetadataError::Missing(MetadataField::Listens))
    } else if p.faves is None {
        Err(MetadataError::Missing(MetadataField::Faves))
    } else if p.downloads is None {
        Err(MetadataError::Missing(MetadataField::Downloads))
    } else if p.votes is None {
        Err(MetadataError::Missing(MetadataField::Votes))
    } else if p.score is None {
        Err(MetadataError::Missing(MetadataField::Score))
    } else if p.uploaded is None {
        Err(MetadataError::Missing(MetadataField::Uploaded))
    } else {
        Ok(
            MetadataView {
                listens: p.listens->0,
                faves: p.faves->0,
                downloads: p.downloads->0,
                votes: p.votes->0,
                score: p.score->0,
                uploaded: p.uploaded->0,
            },
        )
    }
}

// ---------------------------------------------------------------------------
// The reader, as a specification over the token sequence
// ---------------------------------------------------------------------------

/// The position reached after skipping up to `n` tokens from `p`.
pub open spec fn skip_from(p: int, n: int, len: int) -> int {
    if p + n < len {
        p + n
    } else {
        len
    }
}

pub open spec fn text_of(n: NodeView) -> Option<Seq<char>> {
    match n {
        NodeView::Text(t) => Some(t),
        _ => None,
    }
}

pub open spec fn is_element_named(n: NodeView, name: Seq<char>) -> bool {
    n matches NodeView::Element(e) && e == name
}

/// The first count at or after `j`: a text that, without its commas, is a
/// `u64`; with the position just after it.
pub open spec fn scan_count(toks: Seq<TokenView>, j: int) -> Option<(u64, int)>
    decreases toks.len() - j,
{
    if j < 0 || j >= toks.len() {
        None
    } else {
        match text_of(toks[j].node) {
            Some(t) if u64_from_text(without_commas(t)) is Some => Some(
                (u64_from_text(without_commas(t))->0, j + 1),
            ),
            _ => scan_count(toks, j + 1),
        }
    }
}

/// The first score at or after `j`: a text that, without its commas, is a
/// floating-point literal, or is the notice of a pending score (then kept
/// trimmed); with the position just after it.
pub open spec fn scan_score(toks: Seq<TokenView>, j: int) -> Option<(ScoreView, int)>
    decreases toks.len() - j,
{
    if j < 0 || j >= toks.len() {
        None
    } else {
        match text_of(toks[j].node) {
            Some(t) => {
                let w = without_commas(t);
                if is_float_literal(w) {
                    Some((ScoreView::Score(w), j + 1))
                } else if toks[j].pending_score {
                    Some((ScoreView::Waiting(trimmed(w)), j + 1))
                } else {
                    scan_score(toks, j + 1)
                }
            },
            None => scan_score(toks, j + 1),
        }
    }
}

/// The upload date, read from `j` on every second token: its non-blank texts
/// are joined (a space after the first), and the first non-text token once
/// more than one text was taken ends it. `Ok(None)` when the tokens run out
/// first.
pub open spec fn scan_date(toks: Seq<TokenView>, j: int, date: Seq<char>, parts: nat) -> Result<
    Option<(Seq<char>, int)>,
    MetadataError,
>
    decreases toks.len() - j,
{
    if j < 0 || j >= toks.len() {
        Ok(None)
    } else {
        let k = skip_from(j, 2, toks.len() as int);
        match text_of(toks[j].node) {
            Some(t) => {
                if t.len() == 0 || toks[j].blank {
                    scan_date(toks, k, date, parts)
                } else if parts >= 255 {
                    Err(MetadataError::TooManyDateParts)
                } else {
                    let joined = if parts == 1 {
                        date.push(' ')
                    } else {
                        date
                    };
                    scan_date(toks, k, joined + t, parts + 1)
                }
            },
            None => if parts > 1 {
                Ok(Some((date, k)))
            } else {
                scan_date(toks, k, date, parts)
            },
        }
    }
}

/// The `Listens` field, read from `p` (the position after its label): four
/// tokens are skipped, then a `dd` element must come, and the token after it
/// must be a count.
pub open spec fn read_listens(toks: Seq<TokenView>, p: int) -> Result<(int, Option<u64>), MetadataError> {
    let len = toks.len() as int;
    let q = skip_from(p, 4, len);
    if q >= len {
        Ok((len, None))
    } else if !is_element_named(toks[q].node, "dd"@) {
        Ok((q + 1, None))
    } else if q + 1 >= len {
        Ok((len, None))
    } else {
        match text_of(toks[q + 1].node) {
            None => Err(MetadataError::ListensNotText),
            Some(t) => match u64_from_text(without_commas(t)) {
                Some(n) => Ok((q + 2, Some(n))),
                None => Err(MetadataError::ListensNotANumber),
            },
        }
    }
}

/// One step of the reader at position `i` (`i` in range): the position it
/// goes on from and the fields found so far.
pub open spec fn read_step(toks: Seq<TokenView>, i: int, f: Partial) -> Result<(int, Partial), MetadataError> {
    let len = toks.len() as int;
    if !is_element_named(toks[i].node, "dt"@) || i + 1 >= len {
        Ok((i + 1, f))
    } else {
        match text_of(toks[i + 1].node) {
            None => Ok((i + 2, f)),
            Some(label) => {
                let p = i + 2;
                if label == "Listens"@ {
                    match read_listens(toks, p) {
                        Err(e) => Err(e),
                        Ok((k, None)) => Ok((k, f)),
                        Ok((k, Some(n))) => Ok((k, Partial { listens: Some(n), ..f })),
                    }
                } else if label == "Faves:"@ {
                    match scan_count(toks, skip_from(p, 2, len)) {
                        Some((n, k)) => Ok((k, Partial { faves: Some(n), ..f })),
                        None => Ok((len, f)),
                    }
                } else if label == "Downloads"@ {
                    match scan_count(toks, skip_from(p, 2, len)) {
                        Some((n, k)) => Ok((k, Partial { downloads: Some(n), ..f })),
                        None => Ok((len, f)),
                    }
                } else if label == "Votes"@ {
                    match scan_count(toks, skip_from(p, 2, len)) {
                        Some((n, k)) => Ok((k, Partial { votes: Some(Some(n)), ..f })),
                        None => Ok((len, f)),
                    }
                } else if label == "Score"@ {
                    match scan_score(toks, skip_from(p, 2, len)) {
                        Some((ScoreView::Waiting(w), k)) => Ok(
                            (k, Partial { score: Some(ScoreView::Waiting(w)), votes: Some(None), ..f }),
                        ),
                        Some((s, k)) => Ok((k, Partial { score: Some(s), ..f })),
                        None => Ok((len, f)),
                    }
                } else if label == "Uploaded"@ {
                    match scan_date(toks, skip_from(p, 3, len), Seq::empty(), 0) {
                        Err(e) => Err(e),
                        Ok(Some((d, k))) => Ok((k, Partial { uploaded: Some(d), ..f })),
                        Ok(None) => Ok((len, f)),
                    }
                } else {
                    Ok((p, f))
                }
            },
        }
    }
}


pub proof fn lemma_scan_count_range(toks: Seq<TokenView>, j: int)
    ensures
        scan_count(toks, j) matches Some((n, k)) ==> j < k <= toks.len(),
    decreases toks.len() - j,
{
    if 0 <= j < toks.len() {
        lemma_scan_count_range(toks, j + 1);
    }
}

pub proof fn lemma_scan_score_range(toks: Seq<TokenView>, j: int)
    ensures
        scan_score(toks, j) matches Some((s, k)) ==> j < k <= toks.len(),
    decreases toks.len() - j,
{
    if 0 <= j < toks.len() {
        lemma_scan_score_range(toks, j + 1);
    }
}

pub proof fn lemma_scan_date_range(toks: Seq<TokenView>, j: int, date: Seq<char>, parts: nat)
    ensures
        scan_date(toks, j, date, parts) matches Ok(Some((d, k))) ==> j < k <= toks.len(),
    decreases toks.len() - j,
{
    if 0 <= j < toks.len() {
        let k = skip_from(j, 2, toks.len() as int);
        match text_of(toks[j].node) {
            Some(t) => {
                let joined = if parts == 1 {
                    date.push(' ')
                } else {
                    date
                };
                lemma_scan_date_range(toks, k, date, parts);
                lemma_scan_date_range(toks, k, joined + t, parts + 1);
            },
            None => {
                lemma_scan_date_range(toks, k, date, parts);
            },
        }
    }
}

pub proof fn lemma_read_step_advances(toks: Seq<TokenView>, i: int, f: Partial)
    requires
        0 <= i < toks.len(),
    ensures
        read_step(toks, i, f) matches Ok((k, g)) ==> i < k <= toks.len(),
{
    let len = toks.len() as int;
    let p = i + 2;
    lemma_scan_count_range(toks, skip_from(p, 2, len));
    lemma_scan_score_range(toks, skip_from(p, 2, len));
    lemma_scan_date_range(toks, skip_from(p, 3, len), Seq::empty(), 0);
}

/// The reader run from position `i` with the fields `f` found so far.
pub open spec fn read_from(toks: Seq<TokenView>, i: int, f: Partial) -> Result<Partial, MetadataError>
    decreases toks.len() - i,
{
    if i < 0 || i >= toks.len() {
        Ok(f)
    } else {
        match read_step(toks, i, f) {
            Err(e) => Err(e),
            Ok((k, g)) => {
                proof {
                    lemma_read_step_advances(toks, i, f);
                }
                read_from(toks, k, g)
            },
        }
    }
}

/// What the statistics panel made of `toks` says of the submission.
pub open spec fn read_panel(toks: Seq<TokenView>) -> Result<MetadataView, MetadataError> {
    match read_from(toks, 0, no_fields()) {
        Ok(f) => complete(f),
        Err(e) => Err(e),
    }
}

/// The views of a sequence of tokens.
pub open spec fn token_views(toks: Seq<PanelToken>) -> Seq<TokenView> {
    Seq::new(toks.len(), |i: int| toks[i]@)
}

// ---------------------------------------------------------------------------
// The reader, executable
// ---------------------------------------------------------------------------

/// The fields found so far.
struct FieldsFound {
    listens: Option<u64>,
    faves: Option<u64>,
    downloads: Option<u64>,
    votes: Option<Option<u64>>,
    score: Option<ScoreType>,
    uploaded: Option<String>,
}

impl View for FieldsFound {
    type V = Partial;

    closed spec fn view(&self) -> Partial {
        Partial {
            listens: self.listens,
            faves: self.faves,
            downloads: self.downloads,
            votes: self.votes,
            score: match self.score {
                Some(s) => Some(s@),
                None => None,
            },
            uploaded: match self.uploaded {
                Some(u) => Some(u@),
                None => None,
            },
        }
    }
}

fn text_chars(node: &NodeData) -> (res: Option<Vec<char>>)
    ensures
        match text_of(node@) {
            Some(t) => res matches Some(c) && c@ == t,
            None => res is None,
        },
{
    match node {
        NodeData::Text(t) => Some(chars_of(t.as_str())),
        _ => None,
    }
}

fn element_named(node: &NodeData, name: &str) -> (res: bool)
    ensures
        res == is_element_named(node@, name@),
{
    match node {
        NodeData::Element(e) => same_text(&chars_of(e.as_str()), name),
        _ => false,
    }
}

fn skip(p: usize, n: usize, len: usize) -> (res: usize)
    ensures
        res == skip_from(p as int, n as int, len as int),
{
    if p < len && n < len - p {
        p + n
    } else {
        len
    }
}

fn find_count(toks: &Vec<PanelToken>, start: usize) -> (res: Option<(u64, usize)>)
    requires
        start <= toks.len(),
    ensures
        match scan_count(token_views(toks@), start as int) {
            Some((n, k)) => res == Some((n, k as usize)),
            None => res is None,
        },
{
    let ghost views = token_views(toks@);
    let mut j = start;
    while j < toks.len()
        invariant
            start <= j <= toks.len(),
            views == token_views(toks@),
            scan_count(views, start as int) == scan_count(views, j as int),
        decreases toks.len() - j,
    {
        if let Some(t) = text_chars(&toks[j].node) {
            let w = remove_commas(&t);
            if let Some(n) = parse_u64(&w) {
                return Some((n, j + 1));
            }
        }
        j += 1;
    }
    None
}

fn find_score(toks: &Vec<PanelToken>, start: usize) -> (res: Option<(ScoreType, usize)>)
    requires
        start <= toks.len(),
    ensures
        match scan_score(token_views(toks@), start as int) {
            Some((s, k)) => res matches Some((r, m)) && r@ == s && m == k,
            None => res is None,
        },
{
    let ghost views = token_views(toks@);
    let mut j = start;
    while j < toks.len()
        invariant
            start <= j <= toks.len(),
            views == token_views(toks@),
            scan_score(views, start as int) == scan_score(views, j as int),
        decreases toks.len() - j,
    {
        if let Some(t) = text_chars(&toks[j].node) {
            let w = remove_commas(&t);
            if is_float_text(&w) {
                return Some((ScoreType::Score(string_of(&w)), j + 1));
            } else if toks[j].pending_score {
                let trimmed_text = trim(&w);
                return Some((ScoreType::Waiting(string_of(&trimmed_text)), j + 1));
            }
        }
        j += 1;
    }
    None
}

fn find_date(toks: &Vec<PanelToken>, start: usize) -> (res: Result<Option<(String, usize)>, MetadataError>)
    requires
        start <= toks.len(),
    ensures
        match scan_date(token_views(toks@), start as int, Seq::empty(), 0) {
            Ok(Some((d, k))) => res matches Ok(Some((r, m))) && r@ == d && m == k,
            Ok(None) => res matches Ok(None),
            Err(e) => res == Err::<Option<(String, usize)>, MetadataError>(e),
        },
{
    let ghost views = token_views(toks@);
    let mut date: Vec<char> = Vec::new();
    let mut parts: u8 = 0;
    let mut j = start;
    while j < toks.len()
        invariant
            start <= j <= toks.len(),
            views == token_views(toks@),
            scan_date(views, start as int, Seq::empty(), 0) == scan_date(
                views,
                j as int,
                date@,
                parts as nat,
            ),
        decreases toks.len() - j,
    {
        let k = skip(j, 2, toks.len());
        match text_chars(&toks[j].node) {
            Some(t) => {
                if t.len() == 0 || toks[j].blank {
                } else if parts == 255 {
                    return Err(MetadataError::TooManyDateParts);
                } else {
                    if parts == 1 {
                        date.push(' ');
                    }
                    let mut piece = t;
                    date.append(&mut piece);
                    parts = parts + 1;
                }
            },
            None => {
                if parts > 1 {
                    return Ok(Some((string_of(&date), k)));
                }
            },
        }
        j = k;
    }
    Ok(None)
}

fn read_listens_at(toks: &Vec<PanelToken>, p: usize) -> (res: Result<(usize, Option<u64>), MetadataError>)
    requires
        p <= toks.len(),
    ensures
        match read_listens(token_views(toks@), p as int) {
            Ok((k, n)) => res == Ok::<(usize, Option<u64>), MetadataError>((k as usize, n)),
            Err(e) => res == Err::<(usize, Option<u64>), MetadataError>(e),
        },
{
    let len = toks.len();
    let q = skip(p, 4, len);
    if q >= len {
        return Ok((len, None));
    }
    if !element_named(&toks[q].node, "dd") {
        return Ok((q + 1, None));
    }
    if q + 1 >= len {
        return Ok((len, None));
    }
    match text_chars(&toks[q + 1].node) {
        None => Err(MetadataError::ListensNotText),
        Some(t) => {
            let w = remove_commas(&t);
            match parse_u64(&w) {
                Some(n) => Ok((q + 2, Some(n))),
                None => Err(MetadataError::ListensNotANumber),
            }
        },
    }
}


fn read_step_at(toks: &Vec<PanelToken>, i: usize, found: &mut FieldsFound) -> (res: Result<usize, MetadataError>)
    requires
        i < toks.len(),
    ensures
        match read_step(token_views(toks@), i as int, old(found)@) {
            Ok((k, g)) => res == Ok::<usize, MetadataError>(k as usize) && final(found)@ == g,
            Err(e) => res == Err::<usize, MetadataError>(e),
        },
{
    let len = toks.len();
    if !element_named(&toks[i].node, "dt") || i + 1 >= len {
        return Ok(i + 1);
    }
    let label = match text_chars(&toks[i + 1].node) {
        None => {
            return Ok(i + 2);
        },
        Some(label) => label,
    };
    let p = i + 2;
    if same_text(&label, "Listens") {
        match read_listens_at(toks, p) {
            Err(e) => Err(e),
            Ok((k, None)) => Ok(k),
            Ok((k, Some(n))) => {
                found.listens = Some(n);
                Ok(k)
            },
        }
    } else if same_text(&label, "Faves:") {
        match find_count(toks, skip(p, 2, len)) {
            Some((n, k)) => {
                found.faves = Some(n);
                Ok(k)
            },
            None => Ok(len),
        }
    } else if same_text(&label, "Downloads") {
        match find_count(toks, skip(p, 2, len)) {
            Some((n, k)) => {
                found.downloads = Some(n);
                Ok(k)
            },
            None => Ok(len),
        }
    } else if same_text(&label, "Votes") {
        match find_count(toks, skip(p, 2, len)) {
            Some((n, k)) => {
                found.votes = Some(Some(n));
                Ok(k)
            },
            None => Ok(len),
        }
    } else if same_text(&label, "Score") {
        match find_score(toks, skip(p, 2, len)) {
            Some((ScoreType::Waiting(w), k)) => {
                found.score = Some(ScoreType::Waiting(w));
                found.votes = Some(None);
                Ok(k)
            },
            Some((s, k)) => {
                found.score = Some(s);
                Ok(k)
            },
            None => Ok(len),
        }
    } else if same_text(&label, "Uploaded") {
        match find_date(toks, skip(p, 3, len)) {
            Err(e) => Err(e),
            Ok(Some((d, k))) => {
                found.uploaded = Some(d);
                Ok(k)
            },
            Ok(None) => Ok(len),
        }
    } else {
        Ok(p)
    }
}

fn complete_fields(found: FieldsFound) -> (res: Result<NewGroundsAudioMetadata, MetadataError>)
    ensures
        match complete(found@) {
            Ok(m) => res matches Ok(r) && r@ == m,
            Err(e) => res matches Err(x) && x == e,
        },
{
    let listens = match found.listens {
        Some(v) => v,
        None => {
            return Err(MetadataError::Missing(MetadataField::Listens));
        },
    };
    let faves = match found.faves {
        Some(v) => v,
        None => {
            return Err(MetadataError::Missing(MetadataField::Faves));
        },
    };
    let downloads = match found.downloads {
        Some(v) => v,
        None => {
            return Err(MetadataError::Missing(MetadataField::Downloads));
        },
    };
    let votes = match found.votes {
        Some(v) => v,
        None => {
            return Err(MetadataError::Missing(MetadataField::Votes));
        },
    };
    let score = match found.score {
        Some(v) => v,
        None => {
            return Err(MetadataError::Missing(MetadataField::Score));
        },
    };
    let uploaded = match found.uploaded {
        Some(v) => v,
        None => {
            return Err(MetadataError::Missing(MetadataField::Uploaded));
        },
    };
    Ok(NewGroundsAudioMetadata { listens, faves, downloads, votes, score, uploaded })
}

/// Reads the metadata of a submission out of the tokens of its statistics
/// panel.
pub fn read_panel_tokens(toks: &Vec<PanelToken>) -> (res: Result<NewGroundsAudioMetadata, MetadataError>)
    ensures
        match read_panel(token_views(toks@)) {
            Ok(m) => res matches Ok(r) && r@ == m,
            Err(e) => res matches Err(x) && x == e,
        },
{
    let ghost views = token_views(toks@);
    let mut found = FieldsFound {
        listens: None,
        faves: None,
        downloads: None,
        votes: None,
        score: None,
        uploaded: None,
    };
    let mut i: usize = 0;
    while i < toks.len()
        invariant
            i <= toks.len(),
            views == token_views(toks@),
            read_from(views, 0, no_fields()) == read_from(views, i as int, found@),
        decreases toks.len() - i,
    {
        proof {
            lemma_read_step_advances(views, i as int, found@);
        }
        match read_step_at(toks, i, &mut found) {
            Err(e) => {
                return Err(e);
            },
            Ok(k) => {
                i = k;
            },
        }
    }
    complete_fields(found)
}


// ---------------------------------------------------------------------------
// From a listen page to its metadata
// ---------------------------------------------------------------------------

/// For each element of the document `html` that the CSS selector `selector`
/// selects, in the order `scraper::Html::select` yields them, the depth-first
/// traversal of that element (`scraper::Html::parse_document`,
/// `scraper::Html::select`, `ego_tree::NodeRef::traverse`); `None` when the
/// selector does not parse.
pub uninterp spec fn html_select_traversals(html: Seq<char>, selector: Seq<char>) -> Option<
    Seq<Seq<EdgeView>>,
>;

/// Parses `html` with `scraper::Html::parse_document`, selects with
/// `scraper::Selector::parse(selector)` and walks each selected element with
/// `traverse`, keeping of each node only an element's name or a text's
/// content. Trusted: the result is the value of [`html_select_traversals`] on
/// the same arguments.
#[verifier::external_body]
pub(crate) fn select_traversals(html: &str, selector: &str) -> (res: Option<Vec<Vec<TreeEdge>>>)
    ensures
        res.deep_view() == html_select_traversals(html@, selector@),
{
    let selector = Selector::parse(selector).ok()?;
    let document = Html::parse_document(html);
    Some(document.select(&selector).map(|element| element.traverse().map(|edge| {
        let (closing, node) = match edge {
            Edge::Open(n) => (false, n.value()),
            Edge::Close(n) => (true, n.value()),
        };
        let node = match node {
            Node::Element(e) => NodeData::Element(e.name().to_owned()),
            Node::Text(t) => NodeData::Text((**t).to_owned()),
            _ => NodeData::Other,
        };
        TreeEdge { closing, node }
    }).collect()).collect())
}

/// The token for one edge: a text is tested against [`blank_pattern`] as it
/// is, and against [`pending_score_pattern`] without its commas; `None` when a
/// pattern does not compile.
pub open spec fn token_of(e: EdgeView) -> Option<TokenView> {
    match e.node {
        NodeView::Text(t) => match (
            crate::patterns::regex_is_match(crate::patterns::blank_pattern(), t),
            crate::patterns::regex_is_match(
                crate::patterns::pending_score_pattern(),
                without_commas(t),
            ),
        ) {
            (Some(b), Some(p)) => Some(TokenView { node: e.node, blank: b, pending_score: p }),
            _ => None,
        },
        _ => Some(TokenView { node: e.node, blank: false, pending_score: false }),
    }
}

/// The tokens of a whole traversal, or `None` when a pattern does not compile.
pub open spec fn panel_tokens(edges: Seq<EdgeView>) -> Option<Seq<TokenView>> {
    if forall|i: int| 0 <= i < edges.len() ==> (#[trigger] token_of(edges[i])) is Some {
        Some(Seq::new(edges.len(), |i: int| token_of(edges[i])->0))
    } else {
        None
    }
}

/// The selector of the statistics panel.
pub open spec fn panel_selector() -> Seq<char> {
    "#sidestats"@
}

/// The metadata read from the statistics panels found on a page: there must
/// be exactly one.
pub open spec fn panels_metadata(panels: Seq<Seq<EdgeView>>) -> Result<MetadataView, MetadataError> {
    if panels.len() == 0 {
        Err(MetadataError::NoPanel)
    } else if panels.len() > 1 {
        Err(MetadataError::SeveralPanels)
    } else {
        match panel_tokens(panels[0]) {
            None => Err(MetadataError::InvalidPattern),
            Some(toks) => read_panel(toks),
        }
    }
}

/// What a listen page says of its submission: its one statistics panel, read.
pub open spec fn page_metadata(html: Seq<char>) -> Result<MetadataView, MetadataError> {
    match html_select_traversals(html, panel_selector()) {
        None => Err(MetadataError::InvalidSelector),
        Some(panels) => panels_metadata(panels),
    }
}

fn copy_node(node: &NodeData) -> (res: NodeData)
    ensures
        res@ == node@,
{
    match node {
        NodeData::Element(e) => NodeData::Element(e.clone()),
        NodeData::Text(t) => NodeData::Text(t.clone()),
        NodeData::Other => NodeData::Other,
    }
}

/// Tests the text of every edge against the panel's patterns.
pub fn panel_tokens_of(edges: &Vec<TreeEdge>) -> (res: Option<Vec<PanelToken>>)
    ensures
        match panel_tokens(edges.deep_view()) {
            Some(t) => res matches Some(v) && token_views(v@) == t,
            None => res is None,
        },
{
    let ghost views = edges.deep_view();
    let mut toks: Vec<PanelToken> = Vec::new();
    let mut i: usize = 0;
    while i < edges.len()
        invariant
            i <= edges.len(),
            views == edges.deep_view(),
            toks.len() == i,
            forall|j: int| 0 <= j < i ==> token_of(#[trigger] views[j]) == Some(toks@[j]@),
        decreases edges.len() - i,
    {
        let node = copy_node(&edges[i].node);
        let token = match &edges[i].node {
            NodeData::Text(t) => {
                let blank = crate::patterns::is_match(crate::patterns::blank_pattern_text(), t.as_str());
                let plain = string_of(&remove_commas(&chars_of(t.as_str())));
                let pending = crate::patterns::is_match(
                    crate::patterns::pending_score_pattern_text(),
                    plain.as_str(),
                );
                match (blank, pending) {
                    (Some(b), Some(p)) => PanelToken { node, blank: b, pending_score: p },
                    _ => {
                        assert(token_of(views[i as int]) is None);
                        return None;
                    },
                }
            },
            _ => PanelToken { node, blank: false, pending_score: false },
        };
        toks.push(token);
        i += 1;
    }
    assert(token_views(toks@) =~= panel_tokens(views)->0);
    Some(toks)
}

/// Reads the metadata of a submission out of the traversals of the
/// statistics panels found on its listen page.
pub fn metadata_from_panels(panels: &Vec<Vec<TreeEdge>>) -> (res: Result<NewGroundsAudioMetadata, MetadataError>)
    ensures
        match panels_metadata(panels.deep_view()) {
            Ok(m) => res matches Ok(r) && r@ == m,
            Err(e) => res matches Err(x) && x == e,
        },
{
    if panels.len() == 0 {
        return Err(MetadataError::NoPanel);
    }
    if panels.len() > 1 {
        return Err(MetadataError::SeveralPanels);
    }
    assert(panels@[0].deep_view() == panels.deep_view()[0]);
    match panel_tokens_of(&panels[0]) {
        None => Err(MetadataError::InvalidPattern),
        Some(toks) => read_panel_tokens(&toks),
    }
}

/// Reads the metadata of a submission out of the HTML of its listen page.
pub fn metadata_from_html(html: &str) -> (res: Result<NewGroundsAudioMetadata, MetadataError>)
    ensures
        match page_metadata(html@) {
            Ok(m) => res matches Ok(r) && r@ == m,
            Err(e) => res matches Err(x) && x == e,
        },
{
    match select_traversals(html, "#sidestats") {
        None => Err(MetadataError::InvalidSelector),
        Some(panels) => metadata_from_panels(&panels),
    }
}

} // verus!
