use anitrack::feed::RssItem;
use anitrack::filter::{
    FilterAction, FilterEngine, FilterRule, FilterType, OverrideRule, ShowFilterOverride,
};

fn make_rss_item(title: &str) -> RssItem {
    RssItem {
        title: title.to_string(),
        torrent_link: "https://example.com/test.torrent".to_string(),
        view_url: "https://example.com/view/1".to_string(),
        pub_date: "2026-01-01".to_string(),
        info_hash: "abc123".to_string(),
        category_id: "1_2".to_string(),
        size: "1 GiB".to_string(),
        seeders: 10,
        leechers: 5,
    }
}

fn make_rss_item_with_seeders(title: &str, seeders: u32) -> RssItem {
    let mut item = make_rss_item(title);
    item.seeders = seeders;
    item
}

fn make_filter(
    id: u32,
    name: &str,
    filter_type: FilterType,
    pattern: &str,
    action: FilterAction,
    priority: i32,
) -> FilterRule {
    FilterRule {
        id,
        name: name.to_string(),
        filter_type,
        pattern: pattern.to_string(),
        action,
        priority,
        is_global: true,
        enabled: true,
        created_at: None,
    }
}

#[test]
fn test_exclude_filter() {
    let rules = vec![make_filter(
        1,
        "Exclude batches",
        FilterType::TitleExclude,
        "batch",
        FilterAction::Exclude,
        100,
    )];

    let engine = FilterEngine::with_global_rules(rules);

    let items = vec![
        make_rss_item("[SubsPlease] One Piece - 1060 (1080p).mkv"),
        make_rss_item("[SubsPlease] One Piece - batch (1080p).mkv"),
    ];

    let results = engine.apply(items);

    assert_eq!(results.len(), 1);
    assert!(results[0].item.title.contains("1060"));
}

#[test]
fn test_prefer_filter() {
    let rules = vec![make_filter(
        1,
        "Prefer 1080p",
        FilterType::Resolution,
        "1080p",
        FilterAction::Prefer,
        10,
    )];

    let engine = FilterEngine::with_global_rules(rules);

    let items = vec![
        make_rss_item("[SubsPlease] One Piece - 1060 (720p).mkv"),
        make_rss_item("[SubsPlease] One Piece - 1060 (1080p).mkv"),
    ];

    let results = engine.apply(items);

    // Both should pass, but 1080p should have higher score
    assert_eq!(results.len(), 2);
    assert!(results[0].item.title.contains("1080p"));
    assert!(results[0].score > results[1].score);
}

#[test]
fn test_require_filter() {
    let rules = vec![make_filter(
        1,
        "Require SubsPlease",
        FilterType::Group,
        "SubsPlease",
        FilterAction::Require,
        50,
    )];

    let engine = FilterEngine::with_global_rules(rules);

    let items = vec![
        make_rss_item("[SubsPlease] One Piece - 1060 (1080p).mkv"),
        make_rss_item("[Erai-raws] One Piece - 1060 (1080p).mkv"),
    ];

    let results = engine.apply(items);

    // Only SubsPlease should pass
    assert_eq!(results.len(), 1);
    assert!(results[0].item.title.contains("SubsPlease"));
}

#[test]
fn test_combined_filters() {
    let rules = vec![
        make_filter(
            1,
            "Exclude batches",
            FilterType::TitleExclude,
            "batch",
            FilterAction::Exclude,
            100,
        ),
        make_filter(
            2,
            "Prefer 1080p",
            FilterType::Resolution,
            "1080p",
            FilterAction::Prefer,
            10,
        ),
        make_filter(
            3,
            "Prefer SubsPlease",
            FilterType::Group,
            "SubsPlease",
            FilterAction::Prefer,
            5,
        ),
    ];

    let engine = FilterEngine::with_global_rules(rules);

    let items = vec![
        make_rss_item("[SubsPlease] One Piece - 1060 (1080p).mkv"),
        make_rss_item("[Erai-raws] One Piece - 1060 (1080p).mkv"),
        make_rss_item("[SubsPlease] One Piece - 1060 (720p).mkv"),
        make_rss_item("[SubsPlease] One Piece - batch (1080p).mkv"),
    ];

    let results = engine.apply(items);

    // Batch should be excluded, rest should be sorted by score
    assert_eq!(results.len(), 3);

    // First should be SubsPlease + 1080p (highest score)
    assert!(results[0].item.title.contains("SubsPlease"));
    assert!(results[0].item.title.contains("1080p"));
    assert!(results[0].score == 15); // 10 + 5
}

#[test]
fn test_disabled_filter() {
    let mut rules = vec![make_filter(
        1,
        "Exclude batches",
        FilterType::TitleExclude,
        "batch",
        FilterAction::Exclude,
        100,
    )];

    // Disable the filter
    rules[0].enabled = false;

    let engine = FilterEngine::with_global_rules(rules);

    let items = vec![make_rss_item("[SubsPlease] One Piece - batch (1080p).mkv")];

    let results = engine.apply(items);

    // Batch should NOT be excluded because filter is disabled
    assert_eq!(results.len(), 1);
}

#[test]
fn test_exclude_beats_prefer_regardless_of_priority() {
    // The Exclude rule has the LOWER priority and the Prefer rule also
    // matches; exclusion still drops the item.
    let rules = vec![
        make_filter(1, "Prefer 1080p", FilterType::Resolution, "1080p", FilterAction::Prefer, 100),
        make_filter(2, "Exclude batches", FilterType::TitleExclude, "batch", FilterAction::Exclude, 1),
    ];
    let engine = FilterEngine::with_global_rules(rules);
    let items = vec![make_rss_item("[SubsPlease] One Piece - batch (1080p).mkv")];
    let results = engine.apply(items);
    assert_eq!(results.len(), 0);
}

#[test]
fn test_priority_orders_disjoint_prefers() {
    // Two Prefer rules matching disjoint items; equal seeders; the item
    // matching the higher-priority rule sorts first.
    let rules = vec![
        make_filter(1, "Prefer 1080p", FilterType::Resolution, "1080p", FilterAction::Prefer, 50),
        make_filter(2, "Prefer 720p", FilterType::Resolution, "720p", FilterAction::Prefer, 10),
    ];
    let engine = FilterEngine::with_global_rules(rules);
    let items = vec![
        make_rss_item_with_seeders("[A] Show - 01 (720p).mkv", 7),
        make_rss_item_with_seeders("[A] Show - 01 (1080p).mkv", 7),
    ];
    let results = engine.apply(items);
    assert_eq!(results.len(), 2);
    assert!(results[0].item.title.contains("1080p"));
    assert_eq!(results[0].score, 50);
    assert_eq!(results[1].score, 10);
}

#[test]
fn test_require_matching_nothing_empties_batch() {
    // A Require rule matching no item yields an empty list, not an error.
    let rules = vec![make_filter(
        1,
        "Require nothing",
        FilterType::TitleInclude,
        "does-not-occur",
        FilterAction::Require,
        10,
    )];
    let engine = FilterEngine::with_global_rules(rules);
    let items = vec![
        make_rss_item("[A] Show - 01 (1080p).mkv"),
        make_rss_item("[B] Other - 02 (720p).mkv"),
    ];
    let results = engine.apply(items);
    assert_eq!(results.len(), 0);
}

#[test]
fn test_override_disables_global_exclude() {
    // Disabling an Exclude rule via an override lets the item pass for
    // this show, while the same rule still drops it with no override.
    let rules = vec![make_filter(
        7,
        "Exclude batches",
        FilterType::TitleExclude,
        "batch",
        FilterAction::Exclude,
        100,
    )];
    let disable = ShowFilterOverride {
        id: 1,
        show_id: 42,
        enabled: false,
        rule: OverrideRule::DisableGlobal { filter_rule_id: 7 },
    };
    let item = make_rss_item("[SubsPlease] One Piece - batch (1080p).mkv");

    let engine_with = FilterEngine::new(rules.clone(), vec![disable]);
    let results_with = engine_with.apply(vec![item.clone()]);
    assert_eq!(results_with.len(), 1);

    let engine_without = FilterEngine::with_global_rules(rules);
    let results_without = engine_without.apply(vec![item]);
    assert_eq!(results_without.len(), 0);
}

#[test]
fn test_custom_override_prefer_adds_fixed_score() {
    // A show-private Prefer adds its fixed low constant.
    let custom = ShowFilterOverride {
        id: 1,
        show_id: 42,
        enabled: true,
        rule: OverrideRule::Custom {
            filter_type: FilterType::Resolution,
            pattern: "720p".to_string(),
            action: FilterAction::Prefer,
        },
    };
    let engine = FilterEngine::new(Vec::new(), vec![custom]);
    let results = engine.apply(vec![make_rss_item("[A] Show - 01 (720p).mkv")]);
    assert_eq!(results.len(), 1);
    assert_eq!(results[0].score, 5);
    assert_eq!(results[0].matched_rules, vec!["show:720p (+5)".to_string()]);
}

#[test]
fn test_prefer_annotation_text() {
    let rules = vec![make_filter(
        1,
        "Prefer 1080p",
        FilterType::Resolution,
        "1080p",
        FilterAction::Prefer,
        10,
    )];
    let engine = FilterEngine::with_global_rules(rules);
    let results = engine.apply(vec![make_rss_item("[A] Show - 01 (1080p).mkv")]);
    assert_eq!(results.len(), 1);
    assert_eq!(results[0].matched_rules, vec!["Prefer 1080p (+10)".to_string()]);
}

#[test]
fn test_filter_type_round_trip() {
    assert_eq!(FilterType::from_str("group"), Some(FilterType::Group));
    assert_eq!(FilterType::from_str("resolution"), Some(FilterType::Resolution));
    assert_eq!(FilterType::from_str("title_exclude"), Some(FilterType::TitleExclude));
    assert_eq!(FilterType::from_str("title_include"), Some(FilterType::TitleInclude));
    assert_eq!(FilterType::from_str("unknown"), None);
    assert_eq!(FilterType::Group.as_str(), "group");
    assert_eq!(FilterAction::from_str("exclude"), Some(FilterAction::Exclude));
    assert_eq!(FilterAction::from_str("prefer"), Some(FilterAction::Prefer));
    assert_eq!(FilterAction::from_str("require"), Some(FilterAction::Require));
    assert_eq!(FilterAction::from_str(""), None);
    assert_eq!(FilterAction::Exclude.as_str(), "exclude");
}
