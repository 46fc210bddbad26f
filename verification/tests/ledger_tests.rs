use anitrack::feed::RssItem;
use anitrack::filter::FilterResult;
use anitrack::ledger::DownloadHistory;
use anitrack::schedule::{
    destination_path, fallback_wait_seconds, fingerprint, next_candidate, next_wait_seconds,
    poll_interval_seconds, quality_tier, search_query, RssConfig, Show,
};
use anitrack::TrackerError;

fn item_titled(title: &str, hash: &str) -> RssItem {
    RssItem {
        title: title.to_string(),
        torrent_link: "https://example.com/t.torrent".to_string(),
        view_url: "https://example.com/view/1".to_string(),
        pub_date: "2026-01-01".to_string(),
        info_hash: hash.to_string(),
        category_id: "1_2".to_string(),
        size: "1 GiB".to_string(),
        seeders: 3,
        leechers: 1,
    }
}

fn result_of(item: RssItem) -> FilterResult {
    FilterResult { item, score: 0, matched_rules: Vec::new() }
}

#[test]
fn test_is_already_downloaded_false() {
    let ledger = DownloadHistory::new();
    assert!(!ledger.is_already_downloaded("nonexistent_hash"));
}

#[test]
fn test_record_and_check_download() {
    let mut ledger = DownloadHistory::new();
    ledger
        .record_download(1, 5, "test_hash_123", "http://example.com/torrent")
        .unwrap();
    assert!(ledger.is_already_downloaded("test_hash_123"));
}

#[test]
fn test_get_show_history() {
    let mut ledger = DownloadHistory::new();
    ledger.record_download(1, 1, "hash1", "http://example.com/1").unwrap();
    ledger.record_download(1, 2, "hash2", "http://example.com/2").unwrap();
    ledger.record_download(1, 3, "hash3", "http://example.com/3").unwrap();

    let history = ledger.get_show_history(1);
    assert_eq!(history.len(), 3);
}

#[test]
fn test_unique_hash_constraint() {
    let mut ledger = DownloadHistory::new();
    ledger.record_download(1, 1, "unique_hash", "http://example.com/1").unwrap();

    // Attempting to insert the same hash should fail
    let result = ledger.record_download(1, 2, "unique_hash", "http://example.com/2");
    assert!(result.is_err());
}

#[test]
fn test_record_twice_keeps_one_row() {
    // Idempotence: the second recording conflicts and the ledger keeps
    // exactly one row for the fingerprint.
    let mut ledger = DownloadHistory::new();
    ledger.record_download(7, 4, "fp", "u1").unwrap();
    let second = ledger.record_download(7, 4, "fp", "u1");
    assert_eq!(second.unwrap_err(), TrackerError::Conflict);
    assert_eq!(ledger.get_all_history().len(), 1);
}

#[test]
fn test_show_history_filters_and_orders() {
    let mut ledger = DownloadHistory::new();
    ledger.record_download(1, 1, "a", "u").unwrap();
    ledger.record_download(2, 1, "b", "u").unwrap();
    ledger.record_download(1, 2, "c", "u").unwrap();

    let history = ledger.get_show_history(1);
    assert_eq!(history.len(), 2);
    // newest first
    assert_eq!(history[0].info_hash, "c");
    assert_eq!(history[1].info_hash, "a");
    assert_eq!(history[0].episode, 2);
}

#[test]
fn test_poll_interval_from_config() {
    let cfg = RssConfig { id: 1, poll_times_per_day: 4, last_poll_time: None, enabled: true };
    assert_eq!(poll_interval_seconds(&cfg), Some(21600));

    let seven = RssConfig { poll_times_per_day: 7, ..cfg.clone() };
    // 24h / 7 kept to whole minutes: 205 minutes
    assert_eq!(poll_interval_seconds(&seven), Some(12300));

    let disabled = RssConfig { enabled: false, ..cfg.clone() };
    assert_eq!(poll_interval_seconds(&disabled), None);

    let zero = RssConfig { poll_times_per_day: 0, ..cfg };
    assert_eq!(poll_interval_seconds(&zero), None);
}

#[test]
fn test_fallback_schedule() {
    // before 05:00
    assert_eq!(fallback_wait_seconds(0), 18000);
    // between 05:00 and 17:00
    assert_eq!(fallback_wait_seconds(20000), 41200);
    // after 17:00, rolls to 05:00 the next day
    assert_eq!(fallback_wait_seconds(62000), 42400);
}

#[test]
fn test_next_wait_uses_config_else_fallback() {
    let cfg = RssConfig { id: 1, poll_times_per_day: 4, last_poll_time: None, enabled: true };
    assert_eq!(next_wait_seconds(&cfg, 0), 21600);

    let broken = RssConfig { poll_times_per_day: 0, ..cfg };
    assert_eq!(next_wait_seconds(&broken, 0), 18000);
}

#[test]
fn test_fingerprint_synthesis() {
    let with_hash = item_titled("[A] B - 01 (1080p)", "deadbeef");
    assert_eq!(fingerprint("subsplease", &with_hash), "deadbeef");

    let without_hash = item_titled("[A] B - 01 (1080p)", "");
    assert_eq!(
        fingerprint("subsplease", &without_hash),
        "subsplease:https://example.com/t.torrent"
    );
}

#[test]
fn test_watermark_skips_stale_episodes() {
    // Episode at or below the watermark is never a candidate, even with
    // an empty ledger.
    let mut show = Show::default();
    show.last_downloaded_episode = 5;
    let ledger = DownloadHistory::new();
    let results = vec![
        result_of(item_titled("[A] B - 04 (1080p)", "h4")),
        result_of(item_titled("[A] B - 05 (1080p)", "h5")),
        result_of(item_titled("[A] B - 06 (1080p)", "h6")),
    ];
    let pick = next_candidate(&show, &ledger, &results, 0);
    assert_eq!(pick, Some(2));
}

#[test]
fn test_candidate_skips_recorded_fingerprint() {
    let show = Show::default();
    let mut ledger = DownloadHistory::new();
    ledger.record_download(0, 6, "h6", "u").unwrap();
    let results = vec![
        result_of(item_titled("[A] B - 06 (1080p)", "h6")),
        result_of(item_titled("[A] B - 07 (1080p)", "h7")),
    ];
    let pick = next_candidate(&show, &ledger, &results, 0);
    assert_eq!(pick, Some(1));
}

#[test]
fn test_candidate_skips_unparseable_titles() {
    let show = Show::default();
    let ledger = DownloadHistory::new();
    let results = vec![
        result_of(item_titled("no episode marker here", "h1")),
        result_of(item_titled("[A] B - 08 (720p)", "h8")),
    ];
    let pick = next_candidate(&show, &ledger, &results, 0);
    assert_eq!(pick, Some(1));
}

#[test]
fn test_no_candidate_when_all_stale() {
    let mut show = Show::default();
    show.last_downloaded_episode = 100;
    let ledger = DownloadHistory::new();
    let results = vec![result_of(item_titled("[A] B - 09 (720p)", "h9"))];
    assert_eq!(next_candidate(&show, &ledger, &results, 0), None);
}

#[test]
fn test_update_last_downloaded() {
    let mut show = Show::default();
    show.update_last_downloaded(12, "abc123hash");
    assert_eq!(show.last_downloaded_episode, 12);
    assert_eq!(show.last_downloaded_hash, Some("abc123hash".to_string()));
}

#[test]
fn test_show_default_values() {
    let show = Show::default();
    assert_eq!(show.season, 1);
    assert_eq!(show.source, "subsplease");
    assert_eq!(show.quality, "1080p");
    assert_eq!(show.last_downloaded_episode, 0);
    assert!(show.is_tracked);
}

#[test]
fn test_rss_config_default() {
    let cfg = RssConfig::default();
    assert_eq!(cfg.id, 1);
    assert_eq!(cfg.poll_times_per_day, 4);
    assert!(cfg.enabled);
    assert!(cfg.last_poll_time.is_none());
}

#[test]
fn test_destination_path() {
    assert_eq!(destination_path("Frieren", Some(2)), "/data/Anime/Frieren/Season 2/");
    assert_eq!(destination_path("One Piece", None), "/data/Anime/One Piece/");
}

#[test]
fn test_quality_tier_strips_suffix() {
    assert_eq!(quality_tier("1080p"), "1080");
    assert_eq!(quality_tier("720"), "720");
}

#[test]
fn test_search_query_normalizes_title() {
    assert_eq!(search_query("subsplease", "Frieren 2nd Season"), "subsplease Frieren");
}
