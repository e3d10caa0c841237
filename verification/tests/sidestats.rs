use newgrounds_audio_downloader::sidestats::{
    metadata_from_html, metadata_from_panels, panel_tokens_of, read_panel_tokens, MetadataError, MetadataField,
    NewGroundsAudioMetadata, NodeData, PanelToken, ScoreType, TreeEdge,
};

fn page(panel: &str) -> String {
    format!("<html><head><title>t</title></head><body><div id=\"sidestats\"><dl>\n{panel}</dl></div></body></html>")
}

const LISTENS: &str = "<dt>Listens</dt>\n<dd>1,234</dd>\n";
const FAVES: &str = "<dt>Faves:</dt>\n<dd><a href=\"#\">56</a></dd>\n";
const DOWNLOADS: &str = "<dt>Downloads</dt>\n<dd>789</dd>\n";
const VOTES: &str = "<dt>Votes</dt>\n<dd>1,001</dd>\n";
const SCORE: &str = "<dt>Score</dt>\n<dd><span>4.12</span> / 5.00</dd>\n";
const WAITING: &str = "<dt>Score</dt>\n<dd><span>  Waiting for 2 more votes </span></dd>\n";
const UPLOADED: &str = "<dt>Uploaded</dt>\n<dd><span>Jun 3, 2015</span><span>5:35 PM EDT</span></dd>\n";

fn full_panel() -> String {
    format!("{LISTENS}{FAVES}{DOWNLOADS}{VOTES}{SCORE}{UPLOADED}")
}

fn check(m: &NewGroundsAudioMetadata, votes: Option<u64>, score: &ScoreType) {
    assert_eq!(m.listens, 1234);
    assert_eq!(m.faves, 56);
    assert_eq!(m.downloads, 789);
    assert_eq!(m.votes, votes);
    match (&m.score, score) {
        (ScoreType::Score(a), ScoreType::Score(b)) => assert_eq!(a, b),
        (ScoreType::Waiting(a), ScoreType::Waiting(b)) => assert_eq!(a, b),
        (a, b) => panic!("{a:?} is not {b:?}"),
    }
    assert_eq!(m.uploaded, "Jun 3, 2015 5:35 PM EDT");
}

#[test]
fn full_panel_is_read() {
    let m = metadata_from_html(&page(&full_panel())).unwrap();
    check(&m, Some(1001), &ScoreType::Score("4.12".to_string()));
}

#[test]
fn score_text_parses_as_float() {
    let m = metadata_from_html(&page(&full_panel())).unwrap();
    match m.score {
        ScoreType::Score(s) => assert_eq!(s.parse::<f64>().unwrap(), 4.12),
        other => panic!("{other:?}"),
    }
}

#[test]
fn labels_may_come_in_any_order() {
    let panel = format!("{UPLOADED}{SCORE}{VOTES}{DOWNLOADS}{FAVES}{LISTENS}");
    let m = metadata_from_html(&page(&panel)).unwrap();
    check(&m, Some(1001), &ScoreType::Score("4.12".to_string()));
}

#[test]
fn pending_score_clears_votes() {
    let panel = format!("{LISTENS}{FAVES}{DOWNLOADS}{VOTES}{WAITING}{UPLOADED}");
    let m = metadata_from_html(&page(&panel)).unwrap();
    check(&m, None, &ScoreType::Waiting("Waiting for 2 more votes".to_string()));
}

#[test]
fn pending_score_counts_as_votes() {
    let panel = format!("{LISTENS}{FAVES}{DOWNLOADS}{WAITING}{UPLOADED}");
    let m = metadata_from_html(&page(&panel)).unwrap();
    check(&m, None, &ScoreType::Waiting("Waiting for 2 more votes".to_string()));
}

#[test]
fn votes_after_a_pending_score_are_kept() {
    let panel = format!("{LISTENS}{FAVES}{DOWNLOADS}{WAITING}{VOTES}{UPLOADED}");
    let m = metadata_from_html(&page(&panel)).unwrap();
    check(&m, Some(1001), &ScoreType::Waiting("Waiting for 2 more votes".to_string()));
}

#[test]
fn unknown_labels_are_skipped() {
    let panel = format!("<dt>Genre</dt>\n<dd>Dance</dd>\n{}", full_panel());
    let m = metadata_from_html(&page(&panel)).unwrap();
    check(&m, Some(1001), &ScoreType::Score("4.12".to_string()));
}

#[test]
fn missing_fields_are_reported_in_order() {
    let panel = format!("{LISTENS}{FAVES}{DOWNLOADS}{VOTES}{SCORE}");
    assert_eq!(
        metadata_from_html(&page(&panel)).unwrap_err(),
        MetadataError::Missing(MetadataField::Uploaded)
    );
    let panel = format!("{FAVES}{UPLOADED}");
    assert_eq!(
        metadata_from_html(&page(&panel)).unwrap_err(),
        MetadataError::Missing(MetadataField::Listens)
    );
    let panel = format!("{LISTENS}{DOWNLOADS}");
    assert_eq!(
        metadata_from_html(&page(&panel)).unwrap_err(),
        MetadataError::Missing(MetadataField::Faves)
    );
    let panel = format!("{LISTENS}{FAVES}");
    assert_eq!(
        metadata_from_html(&page(&panel)).unwrap_err(),
        MetadataError::Missing(MetadataField::Downloads)
    );
    let panel = format!("{LISTENS}{FAVES}{DOWNLOADS}");
    assert_eq!(
        metadata_from_html(&page(&panel)).unwrap_err(),
        MetadataError::Missing(MetadataField::Votes)
    );
    let panel = format!("{LISTENS}{FAVES}{DOWNLOADS}{VOTES}");
    assert_eq!(
        metadata_from_html(&page(&panel)).unwrap_err(),
        MetadataError::Missing(MetadataField::Score)
    );
}

#[test]
fn panel_without_labels_misses_listens() {
    assert_eq!(
        metadata_from_html(&page("<p>nothing here</p>")).unwrap_err(),
        MetadataError::Missing(MetadataField::Listens)
    );
}

#[test]
fn page_without_panel() {
    assert_eq!(
        metadata_from_html("<html><body><p>no panel</p></body></html>").unwrap_err(),
        MetadataError::NoPanel
    );
}

#[test]
fn page_with_two_panels() {
    let html = format!("{}<div id=\"sidestats\"></div>", page(&full_panel()));
    assert_eq!(metadata_from_html(&html).unwrap_err(), MetadataError::SeveralPanels);
}

#[test]
fn listens_value_must_be_text() {
    let panel = "<dt>Listens</dt>\n<dd><b>1</b></dd>\n";
    assert_eq!(metadata_from_html(&page(panel)).unwrap_err(), MetadataError::ListensNotText);
}

#[test]
fn listens_value_must_be_a_number() {
    let panel = "<dt>Listens</dt>\n<dd>many</dd>\n";
    assert_eq!(metadata_from_html(&page(panel)).unwrap_err(), MetadataError::ListensNotANumber);
}

fn text_token(s: &str, blank: bool) -> PanelToken {
    PanelToken { node: NodeData::Text(s.to_string()), blank, pending_score: false }
}

fn element_token(name: &str) -> PanelToken {
    PanelToken { node: NodeData::Element(name.to_string()), blank: false, pending_score: false }
}

#[test]
fn date_in_too_many_parts() {
    let mut toks = vec![element_token("dt"), text_token("Uploaded", false)];
    toks.push(element_token("dt"));
    toks.push(text_token("\n", true));
    toks.push(element_token("dd"));
    for _ in 0..300 {
        toks.push(text_token("part", false));
        toks.push(element_token("x"));
    }
    assert_eq!(read_panel_tokens(&toks).unwrap_err(), MetadataError::TooManyDateParts);
}

#[test]
fn date_ends_at_the_element_after_its_second_part() {
    let uploaded = "<dt>Uploaded</dt>\n<dd><span>a</span><span>b</span><span>c</span></dd>\n";
    let panel = format!("{LISTENS}{FAVES}{DOWNLOADS}{VOTES}{SCORE}{uploaded}");
    let m = metadata_from_html(&page(&panel)).unwrap();
    assert_eq!(m.uploaded, "a b");
}

#[test]
fn tokens_carry_pattern_results() {
    let edges = vec![
        TreeEdge { closing: false, node: NodeData::Text(" \n ".to_string()) },
        TreeEdge { closing: false, node: NodeData::Text("Waiting for 1,000 more votes".to_string()) },
        TreeEdge { closing: true, node: NodeData::Text("Waiting for 1 vote".to_string()) },
        TreeEdge { closing: false, node: NodeData::Element("dd".to_string()) },
        TreeEdge { closing: false, node: NodeData::Other },
    ];
    let toks = panel_tokens_of(&edges).unwrap();
    let flags: Vec<(bool, bool)> = toks.iter().map(|t| (t.blank, t.pending_score)).collect();
    assert_eq!(flags, vec![(true, false), (false, true), (false, false), (false, false), (false, false)]);
}

fn edge(closing: bool, node: NodeData) -> TreeEdge {
    TreeEdge { closing, node }
}

fn listens_panel(count: &str) -> Vec<TreeEdge> {
    let text = |s: &str| NodeData::Text(s.to_string());
    let element = |s: &str| NodeData::Element(s.to_string());
    vec![
        edge(false, element("dt")),
        edge(false, text("Listens")),
        edge(true, text("Listens")),
        edge(true, element("dt")),
        edge(false, text("\n")),
        edge(true, text("\n")),
        edge(false, element("dd")),
        edge(false, text(count)),
    ]
}

#[test]
fn panels_must_be_exactly_one() {
    assert_eq!(metadata_from_panels(&vec![]).unwrap_err(), MetadataError::NoPanel);
    assert_eq!(
        metadata_from_panels(&vec![listens_panel("1"), listens_panel("2")]).unwrap_err(),
        MetadataError::SeveralPanels
    );
    assert_eq!(
        metadata_from_panels(&vec![listens_panel("1")]).unwrap_err(),
        MetadataError::Missing(MetadataField::Faves)
    );
    assert_eq!(
        metadata_from_panels(&vec![listens_panel("x1")]).unwrap_err(),
        MetadataError::ListensNotANumber
    );
}

#[test]
fn counts_with_digit_group_separators() {
    let panel = format!(
        "<dt>Listens</dt>\n<dd>12,345,678</dd>\n<dt>Faves:</dt>\n<dd>1,000</dd>\n<dt>Downloads</dt>\n<dd>2,000,000</dd>\n<dt>Votes</dt>\n<dd>12,345</dd>\n{SCORE}{UPLOADED}"
    );
    let m = metadata_from_html(&page(&panel)).unwrap();
    assert_eq!(m.listens, 12345678);
    assert_eq!(m.faves, 1000);
    assert_eq!(m.downloads, 2000000);
    assert_eq!(m.votes, Some(12345));
}

#[test]
fn upload_date_in_two_dd_parts_is_joined_by_one_space() {
    let uploaded = "<dt>Uploaded</dt>\n<dd>Jun 3, 2015</dd>\n<dd>5:35 PM EDT</dd>\n";
    let panel = format!("{LISTENS}{FAVES}{DOWNLOADS}{VOTES}{SCORE}{uploaded}");
    let m = metadata_from_html(&page(&panel)).unwrap();
    assert_eq!(m.uploaded, "Jun 3, 2015 5:35 PM EDT");
}

#[test]
fn counts_in_dd_without_whitespace_between() {
    let panel = format!(
        "{LISTENS}<dt>Faves:</dt><dd>3,000</dd><dt>Downloads</dt><dd>4,321</dd><dt>Votes</dt><dd>1,001</dd>{SCORE}{UPLOADED}"
    );
    let m = metadata_from_html(&page(&panel)).unwrap();
    assert_eq!(m.faves, 3000);
    assert_eq!(m.downloads, 4321);
    assert_eq!(m.votes, Some(1001));
}

#[test]
fn listens_need_the_text_between_dt_and_dd() {
    let panel = format!("<dt>Listens</dt><dd>1,234</dd>{FAVES}{DOWNLOADS}{VOTES}{SCORE}{UPLOADED}");
    assert_eq!(
        metadata_from_html(&page(&panel)).unwrap_err(),
        MetadataError::Missing(MetadataField::Listens)
    );
}

#[test]
fn upload_date_in_two_dd_without_whitespace() {
    let uploaded = "<dt>Uploaded</dt><dd>Jun 3, 2015</dd><dd>5:35 PM EDT</dd>";
    let panel = format!("{LISTENS}{FAVES}{DOWNLOADS}{VOTES}{SCORE}{uploaded}");
    let m = metadata_from_html(&page(&panel)).unwrap();
    assert_eq!(m.uploaded, "Jun 3, 2015 5:35 PM EDT");
    let uploaded = "<dt>Uploaded</dt>\n<dd>Jun 3, 2015</dd><dd>5:35 PM EDT</dd>\n";
    let panel = format!("{LISTENS}{FAVES}{DOWNLOADS}{VOTES}{SCORE}{uploaded}");
    let m = metadata_from_html(&page(&panel)).unwrap();
    assert_eq!(m.uploaded, "Jun 3, 2015 5:35 PM EDT");
}
