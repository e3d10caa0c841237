use newgrounds_audio_downloader::crawl::{
    download_url_for, judge_redirect, listen_page_url_for, page_url_for, precedes, redirect_verdict, song_id, song_ids,
    CrawlAction, CrawlError, PageCrawl, PageEvent, RedirectError, RedirectVerdict,
};
use newgrounds_audio_downloader::patterns::listing_pattern_for;

const ITEM_1: &str = "<a href=\"https://www.newgrounds.com/audio/listen/429941\" class=\"item-audiosubmission \">";
const ITEM_2: &str = "<a href=\"https://www.newgrounds.com/audio/listen/626468\" class=\"item-audiosubmission \">";

fn page_with_two_items() -> String {
    format!(
        "<html><body><div>\n{ITEM_1}<span>First</span></a>\n<p>between</p>\n{ITEM_2}<span>Second</span></a>\n</div></body></html>"
    )
}

fn chars(s: &str) -> Vec<char> {
    s.chars().collect()
}

#[test]
fn listing_pattern_holds_the_kind() {
    assert_eq!(
        listing_pattern_for("audio"),
        "<a href=.*?newgrounds\\.com.*?audio.*?listen.*?([0-9]+)\" class=\"item-audiosubmission \">"
    );
}

#[test]
fn page_addresses() {
    assert_eq!(page_url_for("keosni391", "audio", 1), "https://keosni391.newgrounds.com/audio/page/1");
    assert_eq!(page_url_for("keosni391", "audio", 12), "https://keosni391.newgrounds.com/audio/page/12");
}

#[test]
fn different_pages_have_different_addresses() {
    let mut seen = std::collections::HashSet::new();
    for page in 1..200u64 {
        assert!(seen.insert(page_url_for("keosni391", "audio", page)));
    }
}

#[test]
fn crawl_starts_at_page_one() {
    let crawl = PageCrawl::new("keosni391", "audio");
    assert_eq!(crawl.page(), 1);
    assert!(crawl.matches().is_empty());
    assert_eq!(crawl.current_url(), "https://keosni391.newgrounds.com/audio/page/1");
}

#[test]
fn crawl_collects_matches_page_by_page() {
    let mut crawl = PageCrawl::new("keosni391", "audio");
    match crawl.step(PageEvent::Fetched(page_with_two_items())) {
        CrawlAction::Fetch(url) => assert_eq!(url, "https://keosni391.newgrounds.com/audio/page/2"),
        other => panic!("unexpected {other:?}"),
    }
    assert_eq!(crawl.page(), 2);
    assert_eq!(crawl.matches(), &vec![ITEM_1.to_string(), ITEM_2.to_string()]);
    match crawl.step(PageEvent::Fetched("<p>nothing listed</p>".to_string())) {
        CrawlAction::Fetch(url) => assert_eq!(url, "https://keosni391.newgrounds.com/audio/page/3"),
        other => panic!("unexpected {other:?}"),
    }
    match crawl.step(PageEvent::Fetched(format!("{ITEM_1}</a>"))) {
        CrawlAction::Fetch(url) => assert_eq!(url, "https://keosni391.newgrounds.com/audio/page/4"),
        other => panic!("unexpected {other:?}"),
    }
    assert!(matches!(crawl.step(PageEvent::Redirected), CrawlAction::Finished));
    assert_eq!(crawl.page(), 4);
    assert_eq!(
        crawl.into_matches(),
        vec![ITEM_1.to_string(), ITEM_2.to_string(), ITEM_1.to_string()]
    );
}

#[test]
fn crawl_record_page_matches_appends() {
    let mut crawl = PageCrawl::new("someone", "audio");
    match crawl.record_page_matches(vec!["a".to_string(), "b".to_string()]) {
        CrawlAction::Fetch(url) => assert_eq!(url, "https://someone.newgrounds.com/audio/page/2"),
        other => panic!("unexpected {other:?}"),
    }
    crawl.record_page_matches(vec!["c".to_string()]);
    assert_eq!(crawl.page(), 3);
    assert_eq!(crawl.matches(), &vec!["a".to_string(), "b".to_string(), "c".to_string()]);
}

#[test]
fn crawl_with_broken_pattern_fails() {
    let mut crawl = PageCrawl::new("someone", "audio(");
    match crawl.step(PageEvent::Fetched(page_with_two_items())) {
        CrawlAction::Failed(e) => assert_eq!(e, CrawlError::InvalidPattern),
        other => panic!("unexpected {other:?}"),
    }
    assert_eq!(crawl.page(), 1);
    assert!(crawl.matches().is_empty());
}

#[test]
fn song_ids_are_read_from_matches() {
    assert_eq!(song_id(ITEM_1), Some("429941".to_string()));
    assert_eq!(song_id("<a href=\"https://example.com/429941\">"), None);
    assert_eq!(
        song_ids(&vec![ITEM_1.to_string(), ITEM_2.to_string()]),
        Some(vec!["429941".to_string(), "626468".to_string()])
    );
    assert_eq!(song_ids(&vec![ITEM_1.to_string(), "<a href=x>".to_string()]), None);
    assert_eq!(song_ids(&vec![]), Some(vec![]));
}

#[test]
fn download_addresses() {
    assert_eq!(download_url_for("626468"), "http://www.newgrounds.com/audio/download/626468");
}

#[test]
fn redirect_to_an_earlier_page_is_refused() {
    // https://keosni391.newgrounds.com/audio/page/3/ => https://keosni391.newgrounds.com/audio/page/3/?page=2
    assert_eq!(redirect_verdict(1, "/audio/page/3/", Some("page=2")), Ok(RedirectVerdict::Refuse));
}

#[test]
fn redirect_to_the_same_or_a_later_page_is_followed() {
    assert_eq!(redirect_verdict(1, "/audio/page/3/", Some("page=3")), Ok(RedirectVerdict::Follow));
    assert_eq!(redirect_verdict(1, "/audio/page/3", Some("page=4")), Ok(RedirectVerdict::Follow));
}

#[test]
fn redirect_pages_compare_as_text() {
    assert_eq!(redirect_verdict(1, "/audio/page/9/", Some("page=10")), Ok(RedirectVerdict::Refuse));
    assert_eq!(redirect_verdict(1, "/audio/page/10/", Some("page=9")), Ok(RedirectVerdict::Follow));
}

#[test]
fn redirect_errors() {
    assert_eq!(redirect_verdict(0, "/audio/page/3/", Some("page=2")), Err(RedirectError::NoPreviousUrl));
    assert_eq!(redirect_verdict(2, "/audio/page/3/", Some("page=2")), Err(RedirectError::SeveralPreviousUrls));
    assert_eq!(redirect_verdict(1, "/audio/page/3/", None), Err(RedirectError::MissingQuery));
    assert_eq!(redirect_verdict(1, "/audio/page/3/", Some("page=two")), Err(RedirectError::QueryWithoutPage));
    assert_eq!(redirect_verdict(1, "/audio/page/3/", Some("x=1&page=2")), Err(RedirectError::QueryWithoutPage));
    assert_eq!(redirect_verdict(1, "/audio/", Some("page=2")), Err(RedirectError::PathWithoutPage));
}

#[test]
fn judge_redirect_from_captures() {
    let some = |s: &str| Some(Some(s.to_string()));
    assert_eq!(judge_redirect(some("2"), some("3")), Ok(RedirectVerdict::Refuse));
    assert_eq!(judge_redirect(some("3"), some("3")), Ok(RedirectVerdict::Follow));
    assert_eq!(judge_redirect(some("4"), some("3")), Ok(RedirectVerdict::Follow));
    assert_eq!(judge_redirect(None, some("3")), Err(RedirectError::InvalidPattern));
    assert_eq!(judge_redirect(Some(None), some("3")), Err(RedirectError::QueryWithoutPage));
    assert_eq!(judge_redirect(some("3"), None), Err(RedirectError::InvalidPattern));
    assert_eq!(judge_redirect(some("3"), Some(None)), Err(RedirectError::PathWithoutPage));
}

#[test]
fn text_order_is_the_str_order() {
    let words = ["", "1", "10", "2", "20", "9", "a", "ab", "b", "é", "٣"];
    for a in words {
        for b in words {
            assert_eq!(precedes(&chars(a), &chars(b)), a < b, "{a:?} {b:?}");
        }
    }
}

#[test]
fn a_redirect_between_two_pages_is_followed_one_way_at_least() {
    let some = |s: &str| Some(Some(s.to_string()));
    for (p, q) in [("3", "2"), ("2", "3"), ("5", "5"), ("9", "10")] {
        let there = judge_redirect(some(q), some(p));
        let back = judge_redirect(some(p), some(q));
        assert!(there == Ok(RedirectVerdict::Follow) || back == Ok(RedirectVerdict::Follow));
    }
}

#[test]
fn listen_page_addresses() {
    assert_eq!(
        listen_page_url_for("429941"),
        Some("https://www.newgrounds.com/audio/listen/429941".to_string())
    );
    assert_eq!(
        listen_page_url_for("../x"),
        Some("https://www.newgrounds.com/audio/x".to_string())
    );
}
