use anitrack::feed::{
    construct_magnet_url, filter_by_quality, parse_rss_xml, parse_subsplease_rss_xml,
    rss_item_to_parsed_episode,
};
use anitrack::TrackerError;

const SAMPLE_RSS: &str = r#"<?xml version="1.0" encoding="UTF-8"?>
<rss xmlns:atom="http://www.w3.org/2005/Atom" xmlns:nyaa="https://nyaa.si/xmlns/nyaa" version="2.0">
  <channel>
    <title>Nyaa - Search - Torrent File RSS</title>
    <item>
      <title>[SubsPlease] One Piece - 1060 (1080p) [37A98D45].mkv</title>
      <link>https://nyaa.si/download/2059096.torrent</link>
      <guid isPermaLink="true">https://nyaa.si/view/2059096</guid>
      <pubDate>Tue, 30 Dec 2025 06:22:52 -0000</pubDate>
      <nyaa:seeders>18</nyaa:seeders>
      <nyaa:leechers>8</nyaa:leechers>
      <nyaa:infoHash>e30690d4a8d1f5e45f5ded430bdaedc710da0245</nyaa:infoHash>
      <nyaa:categoryId>1_2</nyaa:categoryId>
      <nyaa:size>1.2 GiB</nyaa:size>
    </item>
    <item>
      <title>[Erai-raws] Goblin Slayer II - 03 [720p][Multiple Subtitle]</title>
      <link>https://nyaa.si/download/2059097.torrent</link>
      <guid isPermaLink="true">https://nyaa.si/view/2059097</guid>
      <pubDate>Tue, 30 Dec 2025 05:00:00 -0000</pubDate>
      <nyaa:seeders>50</nyaa:seeders>
      <nyaa:leechers>10</nyaa:leechers>
      <nyaa:infoHash>a1b2c3d4e5f6a1b2c3d4e5f6a1b2c3d4e5f6a1b2</nyaa:infoHash>
      <nyaa:categoryId>1_2</nyaa:categoryId>
      <nyaa:size>500 MiB</nyaa:size>
    </item>
  </channel>
</rss>"#;

const SAMPLE_SUBSPLEASE_RSS: &str = r#"<?xml version="1.0" encoding="UTF-8"?>
<rss version="2.0">
  <channel>
    <title>SubsPlease RSS</title>
    <item>
      <title>[SubsPlease] One Piece - 1100 (1080p) [ABC123].mkv</title>
      <link>https://nyaa.si/view/1234567</link>
      <guid>https://nyaa.si/view/1234567</guid>
      <pubDate>Thu, 16 Jan 2026 12:00:00 +0000</pubDate>
    </item>
    <item>
      <title>[SubsPlease] Frieren - 28 (1080p) [DEF456].mkv</title>
      <link>https://nyaa.si/view/1234568</link>
      <guid>https://nyaa.si/view/1234568</guid>
      <pubDate>Thu, 16 Jan 2026 11:00:00 +0000</pubDate>
    </item>
    <item>
      <title>[SubsPlease] Blue Lock - 24 (1080p) [GHI789].mkv</title>
      <link>https://nyaa.si/view/1234569</link>
      <guid>https://nyaa.si/view/1234569</guid>
      <pubDate>Thu, 16 Jan 2026 10:00:00 +0000</pubDate>
    </item>
  </channel>
</rss>"#;

#[test]
fn test_parse_rss_xml() {
    let items = parse_rss_xml(SAMPLE_RSS).unwrap();

    assert_eq!(items.len(), 2);

    let first = &items[0];
    assert_eq!(
        first.title,
        "[SubsPlease] One Piece - 1060 (1080p) [37A98D45].mkv"
    );
    assert_eq!(
        first.torrent_link,
        "https://nyaa.si/download/2059096.torrent"
    );
    assert_eq!(first.view_url, "https://nyaa.si/view/2059096");
    assert_eq!(first.seeders, 18);
    assert_eq!(first.leechers, 8);
    assert_eq!(
        first.info_hash,
        "e30690d4a8d1f5e45f5ded430bdaedc710da0245"
    );
    assert_eq!(first.category_id, "1_2");
    assert_eq!(first.size, "1.2 GiB");
}

#[test]
fn test_parse_subsplease_rss_xml() {
    let items = parse_subsplease_rss_xml(SAMPLE_SUBSPLEASE_RSS).unwrap();

    assert_eq!(items.len(), 3);

    let first = &items[0];
    assert_eq!(
        first.title,
        "[SubsPlease] One Piece - 1100 (1080p) [ABC123].mkv"
    );
    assert_eq!(
        first.torrent_link,
        "https://nyaa.si/download/1234567.torrent"
    );
    assert_eq!(first.view_url, "https://nyaa.si/view/1234567");
}

#[test]
fn test_construct_magnet_url() {
    let info_hash = "e30690d4a8d1f5e45f5ded430bdaedc710da0245";
    let title = "One Piece - 1060";

    let magnet = construct_magnet_url(info_hash, title);

    assert!(magnet.starts_with("magnet:?xt=urn:btih:"));
    assert!(magnet.contains(info_hash));
    assert!(magnet.contains("One%20Piece"));
}

#[test]
fn test_filter_by_quality() {
    let items = parse_rss_xml(SAMPLE_RSS).unwrap();

    let hd_items = filter_by_quality(&items, "1080p");
    assert_eq!(hd_items.len(), 1);
    assert!(hd_items[0].title.contains("1080p"));

    let sd_items = filter_by_quality(&items, "720p");
    assert_eq!(sd_items.len(), 1);
    assert!(sd_items[0].title.contains("720p"));
}

#[test]
fn test_rss_item_to_parsed_episode() {
    let items = parse_rss_xml(SAMPLE_RSS).unwrap();
    let episode = rss_item_to_parsed_episode(&items[0]);

    assert!(episode.is_some());
    let ep = episode.unwrap();
    assert_eq!(ep.show_title, "One Piece");
    assert_eq!(ep.episode, 1060);
    assert_eq!(ep.quality, "1080p");
    assert!(!ep.magnet_url.is_empty());
    assert!(ep.magnet_url.starts_with("magnet:?xt=urn:btih:"));
}

#[test]
fn test_parse_rss_entities_decoded() {
    let xml = "<rss><channel><item><title>Steins&amp;Gate - 01 (1080p)</title>\
               <link>x</link></item></channel></rss>";
    let items = parse_rss_xml(xml).unwrap();
    assert_eq!(items.len(), 1);
    assert_eq!(items[0].title, "Steins&Gate - 01 (1080p)");
}

#[test]
fn test_parse_rss_missing_optional_fields_default() {
    let xml = "<rss><item><title>[A] Show - 01 (1080p)</title></item></rss>";
    let items = parse_rss_xml(xml).unwrap();
    assert_eq!(items.len(), 1);
    assert_eq!(items[0].torrent_link, "");
    assert_eq!(items[0].seeders, 0);
    assert_eq!(items[0].leechers, 0);
}

#[test]
fn test_parse_rss_unclosed_item_is_parse_error() {
    let xml = "<rss><item><title>[A] Show - 01 (1080p)</title>";
    let result = parse_rss_xml(xml);
    assert_eq!(result.unwrap_err(), TrackerError::Parse);
}

#[test]
fn test_parse_rss_item_without_title_is_skipped() {
    let xml = "<rss><item><link>x</link></item><item><title>[A] B - 01 (720p)</title></item></rss>";
    let items = parse_rss_xml(xml).unwrap();
    assert_eq!(items.len(), 1);
    assert!(items[0].title.contains("720p"));
}
