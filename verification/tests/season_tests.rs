use anitrack::seasons::detect_season;
use anitrack::seasons::roman_to_arabic;

#[test]
fn test_s_prefix() {
    assert_eq!(detect_season("Sousou no Frieren S2").season, 2);
    assert_eq!(detect_season("One Piece S01").season, 1);
    assert_eq!(detect_season("[SubsPlease] Title S2 - 01").season, 2);
    assert_eq!(detect_season("Attack on Titan S4").season, 4);
}

#[test]
fn test_spelled_season() {
    assert_eq!(detect_season("My Hero Academia Season 2").season, 2);
    assert_eq!(detect_season("Demon Slayer: Season 3").season, 3);
    assert_eq!(detect_season("Title Saison 2").season, 2);
}

#[test]
fn test_ordinal() {
    assert_eq!(detect_season("My Hero Academia 2nd Season").season, 2);
    assert_eq!(detect_season("Overlord 3rd Season").season, 3);
    assert_eq!(detect_season("Re:Zero 2nd Season").season, 2);
    assert_eq!(detect_season("Title 4th Cour").season, 4);
}

#[test]
fn test_part() {
    assert_eq!(detect_season("Attack on Titan Part 2").season, 2);
    assert_eq!(detect_season("JoJo Part 5").season, 5);
    assert_eq!(detect_season("Title Part II").season, 2);
    assert_eq!(detect_season("Title Part III").season, 3);
}

#[test]
fn test_cour() {
    assert_eq!(detect_season("86 Cour 2").season, 2);
    assert_eq!(detect_season("Title: Cour 2").season, 2);
}

#[test]
fn test_roman_numeral() {
    assert_eq!(detect_season("Spice and Wolf II").season, 2);
    assert_eq!(detect_season("Oregairu III").season, 3);
    assert_eq!(detect_season("Shakugan no Shana III").season, 3);
}

#[test]
fn test_trailing_number() {
    assert_eq!(detect_season("Oregairu 2").season, 2);
    assert_eq!(detect_season("SAO: 3").season, 3);
    assert_eq!(detect_season("Re:Zero - 2").season, 2);
}

#[test]
fn test_no_season() {
    assert_eq!(detect_season("One Punch Man").season, 1);
    assert_eq!(detect_season("Frieren: Beyond Journey's End").season, 1);
    assert_eq!(detect_season("Bocchi the Rock!").season, 1);
}

#[test]
fn test_clean_title() {
    let info = detect_season("Sousou no Frieren S2");
    assert_eq!(info.clean_title, Some("Sousou no Frieren".to_string()));

    let info = detect_season("My Hero Academia 2nd Season");
    assert_eq!(info.clean_title, Some("My Hero Academia".to_string()));
}

#[test]
fn test_edge_cases() {
    // Year shouldn't be confused with season
    assert_eq!(detect_season("Title (2024)").season, 1);

    // S in the middle of title shouldn't match
    assert_eq!(detect_season("Monster Strike").season, 1);

    // Double digit numbers shouldn't match trailing pattern (likely episode)
    assert_eq!(detect_season("Title - 12").season, 1); // 12 is likely episode

    // Single digit at end should match
    assert_eq!(detect_season("Title 3").season, 3);
}

#[test]
fn test_roman_to_arabic_values() {
    assert_eq!(roman_to_arabic("I"), Some(1));
    assert_eq!(roman_to_arabic("IV"), Some(4));
    assert_eq!(roman_to_arabic("viii"), Some(8));
    assert_eq!(roman_to_arabic("X"), Some(10));
    assert_eq!(roman_to_arabic("XI"), None);
    assert_eq!(roman_to_arabic(""), None);
}

#[test]
fn test_lone_trailing_i_is_not_a_season() {
    // A single trailing I is part of many proper nouns, never a season.
    assert_eq!(detect_season("Aldnoah Zero I").season, 1);
}

#[test]
fn test_matched_pattern_reporting() {
    let info = detect_season("Frieren S2");
    assert_eq!(info.matched_pattern, Some("S2".to_string()));

    let info = detect_season("Oregairu 2");
    assert_eq!(info.matched_pattern, Some("trailing 2".to_string()));
}

#[test]
fn test_cascade_corner_cases() {
    // An ordinal followed by a longer word takes the whitespace into the
    // match but leaves the word alone.
    let info = detect_season("Show 2nd Seasonal");
    assert_eq!(info.season, 2);
    assert_eq!(info.matched_pattern, Some("2nd ".to_string()));
    assert_eq!(info.clean_title, Some("Show Seasonal".to_string()));

    // Three digits never form a season marker.
    assert_eq!(detect_season("Title S123").season, 1);

    // A separator may stand between the season word and its number.
    assert_eq!(detect_season("Title Season-2").season, 2);

    // A trailing zero is not a season.
    assert_eq!(detect_season("Title - 0").season, 1);
}
