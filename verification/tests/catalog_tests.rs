use anitrack::catalog::{
    default_quality, escape_quotes, get_seasons_around, sanitize_html, season_of_month,
    short_season, unwrap_members, unwrap_or_na, unwrap_score, unwrap_studio, unwrap_title_romaji,
    AniShow, Node, Season, Studio, Title,
};
use anitrack::catalog::get_url;
use anitrack::feed::Link;

fn bare_show() -> AniShow {
    AniShow {
        id: Some(1),
        title: None,
        average_score: None,
        mean_score: None,
        popularity: None,
        genres: None,
        cover_image: None,
        description: None,
        start_date: None,
        episodes: None,
        duration: None,
        studios: None,
        next_airing_episode: None,
    }
}

#[test]
fn test_unwrap_title_romaji() {
    let t = Some(Title {
        romaji: Some("Sousou no Frieren".to_string()),
        english: None,
        native: None,
    });
    assert_eq!(unwrap_title_romaji(&t), "Sousou no Frieren");
    assert_eq!(unwrap_title_romaji(&None), "N/A");
}

#[test]
fn test_unwrap_score_two_decimals() {
    let mut show = bare_show();
    show.average_score = Some(85);
    show.mean_score = None;
    assert_eq!(unwrap_score(&show), "8.50");

    show.average_score = Some(90);
    show.mean_score = Some(87);
    // the lower of the two scores is shown
    assert_eq!(unwrap_score(&show), "8.70");

    show.average_score = None;
    show.mean_score = None;
    assert_eq!(unwrap_score(&show), "N/A");
}

#[test]
fn test_unwrap_members_thousands() {
    let mut show = bare_show();
    show.popularity = Some(999);
    assert_eq!(unwrap_members(&show), "999");
    show.popularity = Some(1500);
    assert_eq!(unwrap_members(&show), "1K");
    show.popularity = Some(253000);
    assert_eq!(unwrap_members(&show), "253K");
    show.popularity = None;
    assert_eq!(unwrap_members(&show), "N/A");
}

#[test]
fn test_unwrap_studio_joins_names() {
    let st = Some(Studio {
        nodes: Some(vec![
            Node { name: Some("A-1 Pictures".to_string()) },
            Node { name: None },
            Node { name: Some("Madhouse".to_string()) },
        ]),
    });
    assert_eq!(unwrap_studio(&st), "A-1 Pictures, N/A, Madhouse");
    assert_eq!(unwrap_studio(&None), "N/A");
}

#[test]
fn test_unwrap_or_na_placeholder() {
    let absent: Option<u16> = None;
    assert_eq!(unwrap_or_na(&absent), "N/A");
    assert_eq!(unwrap_or_na(&Some(12u16)), "12");
}

#[test]
fn test_escape_quotes() {
    assert_eq!(escape_quotes("a \"quoted\" word"), "a \\\"quoted\\\" word");
    assert_eq!(escape_quotes("plain"), "plain");
}

#[test]
fn test_get_url_prefers_magnet() {
    let link = Link {
        title: "t".to_string(),
        episode: "1".to_string(),
        magnet_link: Some("magnet:?xt=a".to_string()),
        torrent_link: Some("https://x/t.torrent".to_string()),
    };
    assert_eq!(get_url(&link), "magnet:?xt=a");

    let torrent_only = Link { magnet_link: None, ..link.clone() };
    assert_eq!(get_url(&torrent_only), "https://x/t.torrent");

    let neither = Link { magnet_link: None, torrent_link: None, ..link };
    assert_eq!(get_url(&neither), "");
}

#[test]
fn test_short_season_code() {
    assert_eq!(short_season(&Season::SPRING, &2024), "SP24");
    assert_eq!(short_season(&Season::FALL, &2003), "FA3");
    assert_eq!(short_season(&Season::WINTER, &2100), "WI0");
}

#[test]
fn test_season_of_month_quarters() {
    assert_eq!(season_of_month(1), Season::WINTER);
    assert_eq!(season_of_month(4), Season::SPRING);
    assert_eq!(season_of_month(9), Season::SUMMER);
    assert_eq!(season_of_month(12), Season::FALL);
}

#[test]
fn test_get_seasons_around_window() {
    let around = get_seasons_around(Season::WINTER, 2024);
    assert_eq!(around.len(), 5);
    assert_eq!(around[0], (Season::SUMMER, 2023));
    assert_eq!(around[1], (Season::FALL, 2023));
    assert_eq!(around[2], (Season::WINTER, 2024));
    assert_eq!(around[3], (Season::SPRING, 2024));

    let fall = get_seasons_around(Season::FALL, 2024);
    assert_eq!(fall[3], (Season::WINTER, 2025));
}

#[test]
fn test_sanitize_html_normalizes_italics() {
    assert_eq!(sanitize_html("an <I>italic</I> word"), "an <i>italic</i> word");
    assert_eq!(sanitize_html("left open <i>forever"), "left open <i>forever</i>");
    assert_eq!(sanitize_html("stray close</i> dropped"), "stray close dropped");
    assert_eq!(sanitize_html("no markup"), "no markup");
}

#[test]
fn test_sanitize_html_keeps_comments() {
    assert_eq!(sanitize_html("a <!-- <i>kept</i> --> b"), "a <!-- <i>kept</i> --> b");
}

#[test]
fn test_sanitize_html_drops_broken_tag() {
    assert_eq!(sanitize_html("bad</ 1tag"), "bad1tag");
}

#[test]
fn test_default_quality() {
    assert_eq!(default_quality(), "1080p");
}

#[test]
fn test_season_display_name() {
    assert_eq!(Season::SPRING.display_name(), "Spring");
    assert_eq!(Season::SUMMER.display_name(), "Summer");
}
