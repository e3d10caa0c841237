use newgrounds_audio_downloader::download::{
    attachment_file_name, download_target_for, fetch_outcome, file_action, is_same_download,
    plan_downloads, retry_after_seconds, FetchOutcome, FileAction, PathStatus, TOO_MANY_REQUESTS,
};

#[test]
fn retry_after_in_seconds() {
    assert_eq!(retry_after_seconds("120"), Some(120));
    assert_eq!(retry_after_seconds("+7"), Some(7));
    assert_eq!(retry_after_seconds("0"), Some(0));
}

#[test]
fn retry_after_as_http_date() {
    assert_eq!(retry_after_seconds("Fri, 15 May 2015 15:34:21 GMT"), Some(1431704061));
    assert_eq!(retry_after_seconds("Sunday, 06-Nov-94 08:49:37 GMT"), Some(784111777));
    assert_eq!(retry_after_seconds("Sun Nov  6 08:49:37 1994"), Some(784111777));
}

#[test]
fn retry_after_unreadable() {
    assert_eq!(retry_after_seconds("soon"), None);
    assert_eq!(retry_after_seconds(""), None);
    assert_eq!(retry_after_seconds("-5"), None);
}

#[test]
fn answers_other_than_too_many_requests_are_taken() {
    assert_eq!(fetch_outcome(200, Some("5")), FetchOutcome::Ready);
    assert_eq!(fetch_outcome(404, None), FetchOutcome::Ready);
    assert_eq!(fetch_outcome(503, Some("5")), FetchOutcome::Ready);
}

#[test]
fn too_many_requests_is_retried() {
    assert_eq!(TOO_MANY_REQUESTS, 429);
    assert_eq!(fetch_outcome(429, Some("5")), FetchOutcome::RateLimited(Some(5)));
    assert_eq!(
        fetch_outcome(429, Some("Fri, 15 May 2015 15:34:21 GMT")),
        FetchOutcome::RateLimited(Some(1431704061))
    );
    assert_eq!(fetch_outcome(429, Some("later")), FetchOutcome::RateLimited(None));
    assert_eq!(fetch_outcome(429, None), FetchOutcome::RateLimited(None));
}

#[test]
fn file_name_from_content_disposition() {
    assert_eq!(
        attachment_file_name("attachment; filename=\"K-391 - Summertime.mp3\""),
        Some("K-391 - Summertime.mp3".to_string())
    );
    assert_eq!(attachment_file_name("inline; filename=\"a.mp3\""), None);
    assert_eq!(attachment_file_name("attachment; filename=\"\""), None);
    assert_eq!(attachment_file_name("attachment; filename=a.mp3"), None);
}

#[test]
fn same_download_needs_same_bytes() {
    assert!(is_same_download(b"abc", b"abc"));
    assert!(is_same_download(b"", b""));
    assert!(!is_same_download(b"abc", b"abd"));
    assert!(!is_same_download(b"abc", b"abcd"));
    let big: Vec<u8> = (0..10_000u32).map(|i| (i % 251) as u8).collect();
    let mut other = big.clone();
    other[5_000] ^= 1;
    assert!(is_same_download(&big, &big.clone()));
    assert!(!is_same_download(&big, &other));
}

#[test]
fn file_actions() {
    assert_eq!(file_action(PathStatus::Present), FileAction::CompareWithExisting);
    assert_eq!(file_action(PathStatus::Missing), FileAction::Write);
    assert_eq!(file_action(PathStatus::BrokenLink), FileAction::BrokenLink);
    assert_eq!(file_action(PathStatus::OtherError), FileAction::Fail);
}

#[test]
fn a_missing_target_is_written() {
    assert_eq!(file_action(PathStatus::Missing), FileAction::Write);
    assert_ne!(file_action(PathStatus::Missing), FileAction::BrokenLink);
}

#[test]
fn download_target_replaces_the_last_component() {
    assert_eq!(download_target_for("file.mp3", "626468_Song.mp3"), "626468_Song.mp3");
    assert_eq!(
        download_target_for("/mnt/music/626468", "626468_Song.mp3"),
        "/mnt/music/626468_Song.mp3"
    );
    assert_eq!(download_target_for("dir/sub/429941", "a b.mp3"), "dir/sub/a b.mp3");
    assert_eq!(download_target_for("/", "x.mp3"), "/x.mp3");
    assert_eq!(download_target_for("", "x.mp3"), "x.mp3");
}

const ITEM_1: &str = "<a href=\"https://www.newgrounds.com/audio/listen/429941\" class=\"item-audiosubmission \">";
const ITEM_2: &str = "<a href=\"https://www.newgrounds.com/audio/listen/626468\" class=\"item-audiosubmission \">";

#[test]
fn downloads_are_planned_in_match_order() {
    let matches = vec![ITEM_1.to_string(), ITEM_2.to_string(), ITEM_1.to_string()];
    let plan = plan_downloads("/mnt/ehdd/DH/music/artists/K-391/newgrounds", &matches).unwrap();
    assert_eq!(plan.ids, vec!["429941", "626468", "429941"]);
    assert_eq!(
        plan.urls,
        vec![
            "http://www.newgrounds.com/audio/download/429941",
            "http://www.newgrounds.com/audio/download/626468",
            "http://www.newgrounds.com/audio/download/429941",
        ]
    );
    assert_eq!(
        plan.files,
        vec![
            "/mnt/ehdd/DH/music/artists/K-391/newgrounds/429941",
            "/mnt/ehdd/DH/music/artists/K-391/newgrounds/626468",
            "/mnt/ehdd/DH/music/artists/K-391/newgrounds/429941",
        ]
    );
    assert!(plan_downloads("dir", &vec![ITEM_1.to_string(), "<a href=x>".to_string()]).is_none());
    let empty = plan_downloads("dir", &vec![]).unwrap();
    assert!(empty.ids.is_empty() && empty.urls.is_empty() && empty.files.is_empty());
}
