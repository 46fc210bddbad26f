//! Catalog metadata and its presentation helpers.
//!
//! The catalog lookup collaborator hands back seasonal show metadata;
//! this module holds the plain data model for it, the airing-season
//! arithmetic, and the small text helpers the presentation layer applies
//! to the optional fields — including the tag sanitizer that keeps only
//! well-paired italics markup in a show's description.

use vstd::prelude::*;
use chrono::Datelike;
use std::collections::HashMap;
use crate::text::{
    chars_of, dec_chars, lower_char, lower_char_exec, push_all, string_of, u32_chars,
    u64_chars,
};

verus! {

/// An airing season of the year.
#[derive(Debug, Clone, Copy, PartialEq, Eq, Structural)]
pub enum Season {
    SPRING,
    FALL,
    WINTER,
    SUMMER,
}

/// The display name of a season.
pub open spec fn spec_season_name(s: Season) -> Seq<char> {
    match s {
        Season::SPRING => "Spring"@,
        Season::FALL => "Fall"@,
        Season::WINTER => "Winter"@,
        Season::SUMMER => "Summer"@,
    }
}

/// The short code of a season.
pub open spec fn spec_season_code(s: Season) -> Seq<char> {
    match s {
        Season::SPRING => "SP"@,
        Season::SUMMER => "SU"@,
        Season::FALL => "FA"@,
        Season::WINTER => "WI"@,
    }
}

impl Season {
    /// The season's display name.
    pub fn display_name(&self) -> (r: &'static str)
        ensures
            r@ == spec_season_name(*self),
    {
        match self {
            Season::SPRING => "Spring",
            Season::FALL => "Fall",
            Season::WINTER => "Winter",
            Season::SUMMER => "Summer",
        }
    }
}

/// The airing season a month falls in.
pub open spec fn spec_season_of_month(m: int) -> Season {
    if 1 <= m <= 3 {
        Season::WINTER
    } else if 4 <= m <= 6 {
        Season::SPRING
    } else if 7 <= m <= 9 {
        Season::SUMMER
    } else {
        Season::FALL
    }
}

/// Maps a month to its airing season.
pub fn season_of_month(m: u8) -> (r: Season)
    ensures
        r == spec_season_of_month(m as int),
{
    if 1 <= m && m <= 3 {
        Season::WINTER
    } else if 4 <= m && m <= 6 {
        Season::SPRING
    } else if 7 <= m && m <= 9 {
        Season::SUMMER
    } else {
        Season::FALL
    }
}

/// Relies on chrono's Utc::now and Datelike: the current UTC year,
/// reduced to u16 range, and a month within one and twelve.
#[verifier::external_body]
fn now_year_month() -> (r: (u16, u8))
    ensures
        1 <= r.1 <= 12,
{
    let now = chrono::Utc::now();
    (now.year() as u16, now.month() as u8)
}

/// The current year and airing season, from the clock.
fn current_year_and_season() -> (r: (Season, u16))
{
    let (year, month) = now_year_month();
    (season_of_month(month), year)
}

/// A show's titles in the catalog's romanizations.
#[derive(Debug, Clone)]
pub struct Title {
    pub romaji: Option<String>,
    pub english: Option<String>,
    pub native: Option<String>,
}

/// A show's cover art in the catalog's sizes.
#[derive(Debug, Clone)]
pub struct CoverImage {
    pub medium: Option<String>,
    pub large: Option<String>,
    pub extra_large: Option<String>,
}

/// One studio name node.
#[derive(Debug, Clone)]
pub struct Node {
    pub name: Option<String>,
}

/// The studios credited for a show.
#[derive(Debug, Clone)]
pub struct Studio {
    pub nodes: Option<Vec<Node>>,
}

/// A partial calendar date as the catalog reports it.
#[derive(Debug, Clone)]
pub struct FuzzyDate {
    pub year: Option<u16>,
    pub month: Option<String>,
    pub day: Option<u8>,
}

/// The next episode the catalog expects to air.
#[derive(Debug, Clone)]
pub struct NextAiringEpisode {
    pub episode: Option<u16>,
    pub airing_at: Option<i64>,
}

/// One catalog entry; every field is optional, absent data stays absent.
#[derive(Debug, Clone)]
pub struct AniShow {
    pub id: Option<u32>,
    pub title: Option<Title>,
    pub average_score: Option<u8>,
    pub mean_score: Option<u8>,
    pub popularity: Option<u64>,
    pub genres: Option<Vec<String>>,
    pub cover_image: Option<CoverImage>,
    pub description: Option<String>,
    pub start_date: Option<FuzzyDate>,
    pub episodes: Option<u16>,
    pub duration: Option<u16>,
    pub studios: Option<Studio>,
    pub next_airing_episode: Option<NextAiringEpisode>,
}

/// One row of the tracked-shows table kept for the presentation layer.
#[derive(Debug, Clone)]
pub struct TableEntry {
    pub title: String,
    pub latest_episode: String,
    pub next_air_date: String,
    pub is_tracked: bool,
    pub id: u32,
}

/// The per-show configuration the tracker keeps for a poll pass.
#[derive(Debug, Clone)]
pub struct TrackerDataEntry {
    pub title: String,
    pub id: u32,
    pub alternate: String,
    pub season: u8,
    pub source: String,
    pub quality: String,
    pub download_path: Option<String>,
    pub last_downloaded_episode: u16,
}

/// The quality a show is fetched at when none is configured.
pub fn default_quality() -> (r: String)
    ensures
        r@ == "1080p"@,
{
    "1080p".to_owned()
}

/// The in-memory session state of the presentation layer.
pub struct UserState {
    pub user: String,
    pub tracker: HashMap<u32, TableEntry>,
    pub season: Season,
    pub year: u16,
}

impl UserState {
    /// A fresh session showing the current airing season.
    pub fn new(user: String, tracker: HashMap<u32, TableEntry>) -> (r: Self)
        ensures
            r.user == user,
            r.tracker == tracker,
    {
        let (season, year) = current_year_and_season();
        UserState { user, tracker, season, year }
    }
}

/// The four seasons shown around a given one, oldest first, with the
/// current season appended so navigation can always come back.
pub fn get_seasons_around(season: Season, year: u16) -> (r: Vec<(Season, u16)>)
    requires
        1 <= year < 65535,
    ensures
        r@.len() == 5,
        ({
            match season {
                Season::WINTER => r@[0] == (Season::SUMMER, (year - 1) as u16) && r@[1] == (
                    Season::FALL,
                    (year - 1) as u16,
                ) && r@[2] == (Season::WINTER, year) && r@[3] == (Season::SPRING, year),
                Season::SPRING => r@[0] == (Season::FALL, (year - 1) as u16) && r@[1] == (
                    Season::WINTER,
                    year,
                ) && r@[2] == (Season::SPRING, year) && r@[3] == (Season::SUMMER, year),
                Season::SUMMER => r@[0] == (Season::WINTER, year) && r@[1] == (
                    Season::SPRING,
                    year,
                ) && r@[2] == (Season::SUMMER, year) && r@[3] == (Season::FALL, year),
                Season::FALL => r@[0] == (Season::SPRING, year) && r@[1] == (Season::SUMMER, year)
                    && r@[2] == (Season::FALL, year) && r@[3] == (Season::WINTER, (year + 1) as u16),
            }
        }),
{
    let mut seasons: Vec<(Season, u16)> = Vec::new();
    match season {
        Season::WINTER => {
            seasons.push((Season::SUMMER, year - 1));
            seasons.push((Season::FALL, year - 1));
            seasons.push((Season::WINTER, year));
            seasons.push((Season::SPRING, year));
        },
        Season::SPRING => {
            seasons.push((Season::FALL, year - 1));
            seasons.push((Season::WINTER, year));
            seasons.push((Season::SPRING, year));
            seasons.push((Season::SUMMER, year));
        },
        Season::SUMMER => {
            seasons.push((Season::WINTER, year));
            seasons.push((Season::SPRING, year));
            seasons.push((Season::SUMMER, year));
            seasons.push((Season::FALL, year));
        },
        Season::FALL => {
            seasons.push((Season::SPRING, year));
            seasons.push((Season::SUMMER, year));
            seasons.push((Season::FALL, year));
            seasons.push((Season::WINTER, year + 1));
        },
    }
    let current = current_year_and_season();
    seasons.push(current);
    seasons
}

/// The placeholder shown for absent values.
pub fn na_string() -> (r: String)
    ensures
        r@ == "N/A"@,
{
    "N/A".to_owned()
}

/// The show's romaji title, or the placeholder.
pub fn unwrap_title_romaji(title: &Option<Title>) -> (r: String)
    ensures
        ({
            match title {
                Some(t) => match &t.romaji {
                    Some(s) => r@ == s@,
                    None => r@ == "N/A"@,
                },
                None => r@ == "N/A"@,
            }
        }),
{
    match title {
        Some(t) => match &t.romaji {
            Some(s) => s.clone(),
            None => na_string(),
        },
        None => na_string(),
    }
}

/// The large cover of a show, or a placeholder image locator.
pub fn unwrap_cover(cover: &Option<CoverImage>) -> (r: String)
    ensures
        ({
            match cover {
                Some(c) => match &c.large {
                    Some(s) => r@ == s@,
                    None => r@
                        == "https://upload.wikimedia.org/wikipedia/commons/thumb/6/65/No-Image-Placeholder.svg/800px-No-Image-Placeholder.svg.png"@,
                },
                None => r@
                    == "https://upload.wikimedia.org/wikipedia/commons/thumb/6/65/No-Image-Placeholder.svg/800px-No-Image-Placeholder.svg.png"@,
            }
        }),
{
    match cover {
        Some(c) => match &c.large {
            Some(s) => s.clone(),
            None =>
                "https://upload.wikimedia.org/wikipedia/commons/thumb/6/65/No-Image-Placeholder.svg/800px-No-Image-Placeholder.svg.png".to_owned(),
        },
        None =>
            "https://upload.wikimedia.org/wikipedia/commons/thumb/6/65/No-Image-Placeholder.svg/800px-No-Image-Placeholder.svg.png".to_owned(),
    }
}

/// One node's name, or the placeholder.
pub open spec fn spec_node_name(n: Node) -> Seq<char> {
    match n.name {
        Some(s) => s@,
        None => "N/A"@,
    }
}

/// The studio names joined with commas, in order.
pub open spec fn spec_studio_names(nodes: Seq<Node>) -> Seq<char>
    decreases nodes.len(),
{
    if nodes.len() == 0 {
        Seq::empty()
    } else if nodes.len() == 1 {
        spec_node_name(nodes[0])
    } else {
        spec_studio_names(nodes.drop_last()) + ", "@ + spec_node_name(nodes.last())
    }
}

/// The credited studios of a show, joined with commas, or the
/// placeholder when the catalog reported none.
pub fn unwrap_studio(studio: &Option<Studio>) -> (r: String)
    ensures
        ({
            match studio {
                Some(st) => match &st.nodes {
                    Some(ns) => r@ == spec_studio_names(ns@),
                    None => r@ == "N/A"@,
                },
                None => r@ == "N/A"@,
            }
        }),
{
    let nodes: &Vec<Node> = match studio {
        Some(st) => match &st.nodes {
            Some(ns) => ns,
            None => {
                return na_string();
            },
        },
        None => {
            return na_string();
        },
    };
    let mut cs: Vec<char> = Vec::new();
    let mut i: usize = 0;
    proof {
        assert(nodes@.subrange(0, 0) =~= Seq::<Node>::empty());
        assert(cs@ =~= spec_studio_names(nodes@.subrange(0, 0)));
    }
    while i < nodes.len()
        invariant
            0 <= i <= nodes@.len(),
            cs@ == spec_studio_names(nodes@.subrange(0, i as int)),
        decreases nodes@.len() - i,
    {
        proof {
            assert(nodes@.subrange(0, i + 1).drop_last() =~= nodes@.subrange(0, i as int));
            assert(nodes@.subrange(0, i + 1).last() == nodes@[i as int]);
        }
        if i > 0 {
            push_all(&mut cs, &chars_of(", "));
        }
        match &nodes[i].name {
            Some(s) => {
                push_all(&mut cs, &chars_of(s.as_str()));
            },
            None => {
                push_all(&mut cs, &chars_of("N/A"));
            },
        }
        i = i + 1;
    }
    proof {
        assert(nodes@.subrange(0, nodes@.len() as int) =~= nodes@);
    }
    string_of(&cs)
}

/// A score out of a thousand rendered with two decimals.
pub open spec fn spec_score_text(v: int) -> Seq<char> {
    dec_chars(v / 10) + seq!['.'] + seq![((48 + v % 10) as u8) as char] + seq!['0']
}

/// The displayed score of a show: the lower of the two catalog scores,
/// shown as a fraction of ten with two decimals, or the placeholder.
pub fn unwrap_score(show: &AniShow) -> (r: String)
    ensures
        ({
            match (show.average_score, show.mean_score) {
                (Some(a), Some(b)) => r@ == spec_score_text(if a <= b {
                    a as int
                } else {
                    b as int
                }),
                (Some(a), None) => r@ == spec_score_text(a as int),
                (None, Some(b)) => r@ == spec_score_text(b as int),
                (None, None) => r@ == "N/A"@,
            }
        }),
{
    let v: u8 = match (show.average_score, show.mean_score) {
        (Some(a), Some(b)) => if a <= b {
            a
        } else {
            b
        },
        (Some(a), None) => a,
        (None, Some(b)) => b,
        (None, None) => {
            return na_string();
        },
    };
    let mut cs = u32_chars((v as u32) / 10);
    cs.push('.');
    cs.push(((48 + (v as u32) % 10) as u8) as char);
    cs.push('0');
    proof {
        assert(cs@ =~= spec_score_text(v as int));
    }
    string_of(&cs)
}

/// The popularity of a show, in thousands past a thousand members, or
/// the placeholder.
pub fn unwrap_members(show: &AniShow) -> (r: String)
    ensures
        ({
            match show.popularity {
                Some(m) => if m < 1000 {
                    r@ == dec_chars(m as int)
                } else {
                    r@ == dec_chars(m as int / 1000) + seq!['K']
                },
                None => r@ == "N/A"@,
            }
        }),
{
    match show.popularity {
        Some(m) => {
            if m < 1000 {
                string_of(&u64_chars(m))
            } else {
                let mut cs = u64_chars(m / 1000);
                cs.push('K');
                string_of(&cs)
            }
        },
        None => na_string(),
    }
}

/// A text with every double quote escaped with a backslash.
pub open spec fn spec_escape_quotes(s: Seq<char>) -> Seq<char>
    decreases s.len(),
{
    if s.len() == 0 {
        Seq::empty()
    } else {
        (if s[0] == '"' {
            seq!['\\', '"']
        } else {
            seq![s[0]]
        }) + spec_escape_quotes(s.drop_first())
    }
}

/// Escapes double quotes with backslashes.
pub fn escape_quotes(text: &str) -> (r: String)
    ensures
        r@ == spec_escape_quotes(text@),
{
    let v = chars_of(text);
    let mut out: Vec<char> = Vec::new();
    let mut i: usize = 0;
    proof {
        assert(v@.subrange(0, v@.len() as int) =~= v@);
    }
    while i < v.len()
        invariant
            0 <= i <= v@.len(),
            spec_escape_quotes(v@) == out@ + spec_escape_quotes(
                v@.subrange(i as int, v@.len() as int),
            ),
        decreases v@.len() - i,
    {
        proof {
            assert(v@.subrange(i as int, v@.len() as int).drop_first() =~= v@.subrange(
                i + 1,
                v@.len() as int,
            ));
            assert(v@.subrange(i as int, v@.len() as int)[0] == v@[i as int]);
        }
        if v[i] == '"' {
            out.push('\\');
            out.push('"');
        } else {
            out.push(v[i]);
        }
        i = i + 1;
    }
    proof {
        assert(v@.subrange(v@.len() as int, v@.len() as int) =~= Seq::<char>::empty());
        assert(out@ + spec_escape_quotes(Seq::<char>::empty()) =~= out@);
    }
    string_of(&out)
}

/// A link's download locator: the magnet when one is known, else the
/// direct locator, else empty.
pub fn get_url(link: &crate::feed::Link) -> (r: String)
    ensures
        ({
            match (&link.magnet_link, &link.torrent_link) {
                (Some(m), _) => r@ == m@,
                (None, Some(t)) => r@ == t@,
                (None, None) => r@.len() == 0,
            }
        }),
{
    match (&link.magnet_link, &link.torrent_link) {
        (Some(m), _) => m.clone(),
        (None, Some(t)) => t.clone(),
        (None, None) => {
            let empty: Vec<char> = Vec::new();
            proof {
                assert(empty@ =~= Seq::<char>::empty());
            }
            string_of(&empty)
        },
    }
}

/// A season and year as a four-character tag, the year reduced to its
/// last two digits without padding.
pub fn short_season(season: &Season, year: &u16) -> (r: String)
    ensures
        r@ == spec_season_code(*season) + dec_chars(*year as int % 100),
{
    let code: &str = match season {
        Season::SPRING => "SP",
        Season::SUMMER => "SU",
        Season::FALL => "FA",
        Season::WINTER => "WI",
    };
    let mut cs = chars_of(code);
    push_all(&mut cs, &u32_chars((*year as u32) % 100));
    string_of(&cs)
}


/// ASCII letter.
pub open spec fn is_ascii_alpha(c: char) -> bool {
    ('a' <= c && c <= 'z') || ('A' <= c && c <= 'Z')
}

/// The sanitized form of a description from position `i` on, given
/// whether an italic tag is open and whether a comment is open: italics
/// markup is normalized and kept well-paired, comments pass through
/// verbatim, stray closing tags are dropped, and an italic tag left open
/// at the end is closed.
pub open spec fn sanitize_from(s: Seq<char>, i: int, italic: bool, comment: bool) -> Seq<char>
    decreases s.len() - i,
    when 0 <= i <= s.len()
{
    if i >= s.len() {
        if italic {
            seq!['<', '/', 'i', '>']
        } else {
            Seq::empty()
        }
    } else if comment {
        if s[i] == '-' && i + 2 < s.len() && s[i + 1] == '-' && s[i + 2] == '>' {
            seq![s[i], s[i + 1], s[i + 2]] + sanitize_from(s, i + 3, italic, false)
        } else {
            seq![s[i]] + sanitize_from(s, i + 1, italic, true)
        }
    } else if s[i] == '<' && i + 3 < s.len() && s[i + 1] == '!' && s[i + 2] == '-' && s[i + 3]
        == '-' {
        seq![s[i], s[i + 1], s[i + 2], s[i + 3]] + sanitize_from(s, i + 4, italic, true)
    } else if s[i] == '<' && i + 2 < s.len() && lower_char(s[i + 1]) == 'i' && s[i + 2] == '>' {
        (if italic {
            seq!['<', '/', 'i', '>']
        } else {
            Seq::empty()
        }) + seq!['<', 'i', '>'] + sanitize_from(s, i + 3, true, false)
    } else if s[i] == '<' && i + 3 < s.len() && s[i + 1] == '/' && lower_char(s[i + 2]) == 'i'
        && s[i + 3] == '>' {
        if italic {
            seq!['<', '/', 'i', '>'] + sanitize_from(s, i + 4, false, false)
        } else {
            sanitize_from(s, i + 4, false, false)
        }
    } else if s[i] == '<' && i + 1 < s.len() && s[i + 1] == '/' && (i + 2 >= s.len()
        || !is_ascii_alpha(s[i + 2])) {
        if i + 2 < s.len() {
            sanitize_from(s, i + 3, italic, false)
        } else {
            sanitize_from(s, i + 2, italic, false)
        }
    } else {
        seq![s[i]] + sanitize_from(s, i + 1, italic, comment)
    }
}

/// Sanitizes a description: only well-paired italics markup survives,
/// comments pass through, broken closing tags are dropped.
pub fn sanitize_html(input: &str) -> (r: String)
    ensures
        r@ == sanitize_from(input@, 0, false, false),
{
    let v = chars_of(input);
    let mut out: Vec<char> = Vec::new();
    let mut italic: bool = false;
    let mut comment: bool = false;
    let mut i: usize = 0;
    proof {
        assert(Seq::<char>::empty() + sanitize_from(v@, 0, false, false) =~= sanitize_from(
            v@,
            0,
            false,
            false,
        ));
        assert(out@ =~= Seq::<char>::empty());
    }
    proof {
        assert(v@.len() == v.len());
    }
    while i < v.len()
        invariant
            0 <= i <= v@.len(),
            v@.len() <= usize::MAX,
            sanitize_from(v@, 0, false, false) == out@ + sanitize_from(
                v@,
                i as int,
                italic,
                comment,
            ),
        decreases v@.len() - i,
    {
        let ghost prev = out@;
        let ghost prev_i = i as int;
        let ghost prev_it = italic;
        let ghost prev_cm = comment;
        let c = v[i];
        if comment {
            if c == '-' && v.len() - i > 2 && v[i + 1] == '-' && v[i + 2] == '>' {
                out.push(c);
                out.push(v[i + 1]);
                out.push(v[i + 2]);
                comment = false;
                i = i + 3;
            } else {
                out.push(c);
                i = i + 1;
            }
        } else if c == '<' && v.len() - i > 3 && v[i + 1] == '!' && v[i + 2] == '-' && v[i + 3]
            == '-' {
            out.push(c);
            out.push(v[i + 1]);
            out.push(v[i + 2]);
            out.push(v[i + 3]);
            comment = true;
            i = i + 4;
        } else if c == '<' && v.len() - i > 2 && lower_char_exec(v[i + 1]) == 'i' && v[i + 2]
            == '>' {
            if italic {
                out.push('<');
                out.push('/');
                out.push('i');
                out.push('>');
            }
            out.push('<');
            out.push('i');
            out.push('>');
            italic = true;
            comment = false;
            i = i + 3;
        } else if c == '<' && v.len() - i > 3 && v[i + 1] == '/' && lower_char_exec(v[i + 2]) == 'i'
            && v[i + 3] == '>' {
            if italic {
                out.push('<');
                out.push('/');
                out.push('i');
                out.push('>');
            }
            italic = false;
            i = i + 4;
        } else if c == '<' && v.len() - i > 1 && v[i + 1] == '/' && (v.len() - i <= 2
            || !is_ascii_alpha_exec(v[i + 2])) {
            if v.len() - i > 2 {
                i = i + 3;
            } else {
                i = i + 2;
            }
        } else {
            out.push(c);
            i = i + 1;
        }
        proof {
            assert(sanitize_from(v@, 0, false, false) == prev + sanitize_from(
                v@,
                prev_i,
                prev_it,
                prev_cm,
            ));
            assert(prev + sanitize_from(v@, prev_i, prev_it, prev_cm) =~= out@ + sanitize_from(
                v@,
                i as int,
                italic,
                comment,
            ));
        }
    }
    if italic {
        out.push('<');
        out.push('/');
        out.push('i');
        out.push('>');
    }
    proof {
        assert(out@ =~= sanitize_from(v@, 0, false, false));
    }
    string_of(&out)
}

/// ASCII letter test.
fn is_ascii_alpha_exec(c: char) -> (r: bool)
    ensures
        r == is_ascii_alpha(c),
{
    ('a' <= c && c <= 'z') || ('A' <= c && c <= 'Z')
}

/// An optional value shown through its display form, or the placeholder.
pub fn unwrap_or_na<T: core::fmt::Display>(value: &Option<T>) -> (r: String)
    ensures
        value is None ==> r@ == "N/A"@,
{
    match value {
        Some(t) => t.to_string(),
        None => na_string(),
    }
}

} // verus!
