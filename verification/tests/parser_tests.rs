use anitrack::episodes::parse_episode_info_full;
use anitrack::episodes::parse_episode_info;
use anitrack::feed::{detect_fansub_source, RssSource};
use anitrack::seasons::normalize_title_for_search;

#[test]
fn test_parse_episode_info_subsplease() {
    let title = "[SubsPlease] One Piece - 1060 (1080p) [37A98D45].mkv";
    let result = parse_episode_info(title);

    assert!(result.is_some());
    let (show, episode, quality) = result.unwrap();
    assert_eq!(show, "One Piece");
    assert_eq!(episode, 1060);
    assert_eq!(quality, "1080p");
}

#[test]
fn test_parse_episode_info_erai_raws() {
    let title = "[Erai-raws] Goblin Slayer II - 03 [1080p][Multiple Subtitle] [ENG][POR-BR]";
    let result = parse_episode_info(title);

    assert!(result.is_some());
    let (show, episode, quality) = result.unwrap();
    assert_eq!(show, "Goblin Slayer II");
    assert_eq!(episode, 3);
    assert_eq!(quality, "1080p");
}

#[test]
fn test_parse_episode_info_720p() {
    let title = "[SubsPlease] Frieren - 12 (720p) [ABC123].mkv";
    let result = parse_episode_info(title);

    assert!(result.is_some());
    let (show, episode, quality) = result.unwrap();
    assert_eq!(show, "Frieren");
    assert_eq!(episode, 12);
    assert_eq!(quality, "720p");
}

#[test]
fn test_parse_episode_info_480p() {
    let title = "[SubsPlease] Some Anime - 05 (480p) [hash].mkv";
    let result = parse_episode_info(title);

    assert!(result.is_some());
    let (_, _, quality) = result.unwrap();
    assert_eq!(quality, "480p");
}

#[test]
fn test_parse_episode_info_2160p() {
    let title = "[SubsPlease] 4K Anime - 01 (2160p) [hash].mkv";
    let result = parse_episode_info(title);

    assert!(result.is_some());
    let (_, _, quality) = result.unwrap();
    assert_eq!(quality, "2160p");
}

#[test]
fn test_parse_episode_info_invalid() {
    let title = "Some random text without proper format";
    let result = parse_episode_info(title);
    assert!(result.is_none());
}

#[test]
fn test_parse_episode_info_full_ordinal_season() {
    // Test "3rd Season" format (like Oshi no Ko)
    let title = "[Erai-raws] Oshi no Ko 3rd Season - 01 [1080p CR WEBRip HEVC AAC][MultiSub][E5D615AA]";
    let result = parse_episode_info_full(title);

    assert!(result.is_some());
    let info = result.unwrap();
    assert_eq!(info.show_title, "Oshi no Ko");
    assert_eq!(info.season, Some(3));
    assert_eq!(info.episode, 1);
    assert_eq!(info.quality, "1080p");
}

#[test]
fn test_parse_episode_info_full_ordinal_2nd_season() {
    // Test "2nd Season" format
    let title = "[SubsPlease] Blue Lock 2nd Season - 05 (1080p) [HASH].mkv";
    let result = parse_episode_info_full(title);

    assert!(result.is_some());
    let info = result.unwrap();
    assert_eq!(info.show_title, "Blue Lock");
    assert_eq!(info.season, Some(2));
    assert_eq!(info.episode, 5);
    assert_eq!(info.quality, "1080p");
}

#[test]
fn test_parse_episode_info_full_s_format() {
    // Test "S2" format
    let title = "[SubsPlease] Show Name S2 - 02 (1080p) [HASH].mkv";
    let result = parse_episode_info_full(title);

    assert!(result.is_some());
    let info = result.unwrap();
    assert_eq!(info.show_title, "Show Name");
    assert_eq!(info.season, Some(2));
    assert_eq!(info.episode, 2);
    assert_eq!(info.quality, "1080p");
}

#[test]
fn test_parse_episode_info_full_no_season() {
    // Test no season format (like long-running shows)
    let title = "[SubsPlease] One Piece - 1080 (1080p) [HASH].mkv";
    let result = parse_episode_info_full(title);

    assert!(result.is_some());
    let info = result.unwrap();
    assert_eq!(info.show_title, "One Piece");
    assert_eq!(info.season, None);
    assert_eq!(info.episode, 1080);
    assert_eq!(info.quality, "1080p");
}

#[test]
fn test_cascade_order_scenarios() {
    // The season-bearing families are tried before the no-season
    // fallback, so season markers do not leak into the show title.
    let a = parse_episode_info_full("[Group] Show S2 - 05 (1080p)").unwrap();
    assert_eq!(a.season, Some(2));
    assert_eq!(a.episode, 5);
    assert_eq!(a.quality, "1080p");

    let b = parse_episode_info_full("[Group] Show 2nd Season - 05 (1080p)").unwrap();
    assert_eq!(b.season, Some(2));
    assert_eq!(b.episode, 5);

    let c = parse_episode_info_full("[Group] Show - 1080 (1080p)").unwrap();
    assert_eq!(c.season, None);
    assert_eq!(c.episode, 1080);
}

#[test]
fn test_rss_source_from_string() {
    assert_eq!(
        RssSource::from_source_string("subsplease_direct"),
        RssSource::SubsPleaseDirect
    );
    assert_eq!(
        RssSource::from_source_string("SUBSPLEASE_DIRECT"),
        RssSource::SubsPleaseDirect
    );
    assert_eq!(
        RssSource::from_source_string("subsplease"),
        RssSource::Nyaa
    );
    assert_eq!(RssSource::from_source_string("erai-raws"), RssSource::Nyaa);
    assert_eq!(RssSource::from_source_string(""), RssSource::Nyaa);
}

#[test]
fn test_detect_fansub_source_subsplease() {
    assert_eq!(
        detect_fansub_source("[SubsPlease] One Piece - 1060 (1080p) [37A98D45].mkv"),
        "subsplease"
    );
}

#[test]
fn test_detect_fansub_source_erai_raws() {
    assert_eq!(
        detect_fansub_source("[Erai-raws] Goblin Slayer II - 03 [1080p][Multiple Subtitle]"),
        "Erai-raws"
    );
}

#[test]
fn test_detect_fansub_source_judas() {
    assert_eq!(
        detect_fansub_source("[Judas] Attack on Titan - The Final Season - 01.mkv"),
        "judas"
    );
}

#[test]
fn test_detect_fansub_source_unknown() {
    // Unknown groups should preserve their original casing
    assert_eq!(
        detect_fansub_source("[SomeNewGroup] Anime - 01 (1080p).mkv"),
        "SomeNewGroup"
    );
}

#[test]
fn test_detect_fansub_source_no_brackets() {
    // No brackets should default to subsplease
    assert_eq!(
        detect_fansub_source("One Piece - 1060 (1080p).mkv"),
        "subsplease"
    );
}

#[test]
fn test_normalize_title_for_search() {
    assert_eq!(
        normalize_title_for_search("Sousou no Frieren 2nd Season"),
        "Sousou no Frieren"
    );
    assert_eq!(
        normalize_title_for_search("My Hero Academia Season 7"),
        "My Hero Academia"
    );
    assert_eq!(normalize_title_for_search("Frieren S2"), "Frieren");
    assert_eq!(normalize_title_for_search("Title Part 2"), "Title");
    assert_eq!(normalize_title_for_search("Spice and Wolf II"), "Spice and Wolf");
    assert_eq!(normalize_title_for_search("Show Cour 2"), "Show");
    assert_eq!(normalize_title_for_search("One Piece"), "One Piece");
}

#[test]
fn test_parser_corner_cases() {
    // A dash inside the show name is not the episode separator when no
    // episode number follows it.
    let info = parse_episode_info_full("[A] Re:Zero - Starting - 05 (720p)").unwrap();
    assert_eq!(info.show_title, "Re:Zero - Starting");
    assert_eq!(info.episode, 5);

    // The quality token is the last three or four digits before the `p`.
    let info = parse_episode_info_full("[A] B - 01 (12345p)").unwrap();
    assert_eq!(info.quality, "2345p");

    // An episode number beyond sixteen bits rejects the title.
    assert!(parse_episode_info_full("[A] B - 99999 (720p)").is_none());
}
