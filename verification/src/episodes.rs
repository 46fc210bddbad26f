//! Episode metadata extraction from release titles.
//!
//! Free-text release titles follow a handful of naming conventions. An
//! ordered cascade of pattern families is tried and the first family
//! that matches wins: an explicit `S<N>` season marker, an ordinal
//! season (`2nd Season`), a spelled season (`Season 2`), and finally
//! the no-season shape `<show> - <episode> ... <quality>p`. Titles that
//! match no family are unparseable and must be discarded by callers,
//! never guessed at.
//!
//! Every family expects a leading `[group]` bracket, then a show title,
//! the season marker where the family has one, a `-` separated episode
//! number, and a 3–4 digit quality token ending in `p` somewhere after
//! the episode. Episode and season numbers beyond `u16` reject the
//! whole title.

use vstd::prelude::*;
use crate::text::{
    char_find, chars_of, digit_run_end, digits_val, find_char, is_digit, is_digit_exec,
    lemma_digit_run_end_props, parse_u16, scan_digits, scan_spaces, space_run_end, string_of,
    subrange_vec, trim, trim_spec,
};

verus! {

/// Episode metadata parsed out of one release title.
#[derive(Debug, Clone, PartialEq)]
pub struct EpisodeInfo {
    pub show_title: String,
    pub season: Option<u16>,
    pub episode: u16,
    pub quality: String,
}

/// The mathematical value of a parsed title.
pub ghost struct SpecEpisode {
    pub show: Seq<char>,
    pub season: Option<int>,
    pub episode: int,
    pub quality: Seq<char>,
}

/// A three-digit quality token (`720p`) starts at `q`.
pub open spec fn three_digit_quality_at(s: Seq<char>, q: int) -> bool {
    &&& q >= 0
    &&& q + 4 <= s.len()
    &&& is_digit(s[q])
    &&& is_digit(s[q + 1])
    &&& is_digit(s[q + 2])
    &&& s[q + 3] == 'p'
}

/// A four-digit quality token (`1080p`) starts at `q`.
pub open spec fn four_digit_quality_at(s: Seq<char>, q: int) -> bool {
    &&& q >= 0
    &&& q + 5 <= s.len()
    &&& is_digit(s[q])
    &&& is_digit(s[q + 1])
    &&& is_digit(s[q + 2])
    &&& is_digit(s[q + 3])
    &&& s[q + 4] == 'p'
}

/// A quality token starts at `q`; four digits take precedence.
pub open spec fn quality_at(s: Seq<char>, q: int) -> bool {
    four_digit_quality_at(s, q) || three_digit_quality_at(s, q)
}

/// First position at or after `q` where a quality token starts; the
/// length of `s` when there is none.
pub open spec fn quality_find(s: Seq<char>, q: int) -> int
    decreases s.len() - q,
    when 0 <= q <= s.len()
{
    if q >= s.len() {
        q
    } else if quality_at(s, q) {
        q
    } else {
        quality_find(s, q + 1)
    }
}

/// The quality token starting at `q`, longest form first.
pub open spec fn quality_token(s: Seq<char>, q: int) -> Seq<char> {
    if four_digit_quality_at(s, q) {
        s.subrange(q, q + 5)
    } else {
        s.subrange(q, q + 4)
    }
}

/// The word `Season` starts at `i`.
pub open spec fn season_word_at(s: Seq<char>, i: int) -> bool {
    &&& i >= 0
    &&& i + 6 <= s.len()
    &&& s[i] == 'S'
    &&& s[i + 1] == 'e'
    &&& s[i + 2] == 'a'
    &&& s[i + 3] == 's'
    &&& s[i + 4] == 'o'
    &&& s[i + 5] == 'n'
}

/// An ordinal suffix (`st`, `nd`, `rd`, `th`) starts at `i`.
pub open spec fn ordinal_suffix_at(s: Seq<char>, i: int) -> bool {
    &&& i >= 0
    &&& i + 2 <= s.len()
    &&& ((s[i] == 's' && s[i + 1] == 't') || (s[i] == 'n' && s[i + 1] == 'd') || (s[i] == 'r'
        && s[i + 1] == 'd') || (s[i] == 't' && s[i + 1] == 'h'))
}

/// The `S<season> - <episode> … <quality>` separator starts at `p`: the
/// show title ends just before `p`.
pub open spec fn fam1_sep_at(s: Seq<char>, p: int) -> bool {
    let w = space_run_end(s, p);
    &&& 0 <= p <= s.len()
    &&& w > p
    &&& w < s.len()
    &&& s[w] == 'S'
    &&& {
        let d1 = digit_run_end(s, w + 1);
        &&& d1 > w + 1
        &&& {
            let h = space_run_end(s, d1);
            &&& h < s.len()
            &&& s[h] == '-'
            &&& {
                let e0 = space_run_end(s, h + 1);
                let e1 = digit_run_end(s, e0);
                &&& e1 > e0
                &&& quality_find(s, e1) < s.len()
            }
        }
    }
}

/// The `<n>th Season - <episode> … <quality>` separator starts at `p`.
pub open spec fn fam2_sep_at(s: Seq<char>, p: int) -> bool {
    let w = space_run_end(s, p);
    &&& 0 <= p <= s.len()
    &&& w > p
    &&& {
        let d1 = digit_run_end(s, w);
        &&& d1 > w
        &&& ordinal_suffix_at(s, d1)
        &&& {
            let w2 = space_run_end(s, d1 + 2);
            &&& w2 > d1 + 2
            &&& season_word_at(s, w2)
            &&& {
                let h = space_run_end(s, w2 + 6);
                &&& h < s.len()
                &&& s[h] == '-'
                &&& {
                    let e0 = space_run_end(s, h + 1);
                    let e1 = digit_run_end(s, e0);
                    &&& e1 > e0
                    &&& quality_find(s, e1) < s.len()
                }
            }
        }
    }
}

/// The `Season <n> - <episode> … <quality>` separator starts at `p`.
pub open spec fn fam3_sep_at(s: Seq<char>, p: int) -> bool {
    let w = space_run_end(s, p);
    &&& 0 <= p <= s.len()
    &&& w > p
    &&& season_word_at(s, w)
    &&& {
        let w2 = space_run_end(s, w + 6);
        &&& w2 > w + 6
        &&& {
            let d1 = digit_run_end(s, w2);
            &&& d1 > w2
            &&& {
                let h = space_run_end(s, d1);
                &&& h < s.len()
                &&& s[h] == '-'
                &&& {
                    let e0 = space_run_end(s, h + 1);
                    let e1 = digit_run_end(s, e0);
                    &&& e1 > e0
                    &&& quality_find(s, e1) < s.len()
                }
            }
        }
    }
}

/// The bare `- <episode> … <quality>` separator starts at `p`.
pub open spec fn fam4_sep_at(s: Seq<char>, p: int) -> bool {
    let w = space_run_end(s, p);
    &&& 0 <= p <= s.len()
    &&& w < s.len()
    &&& s[w] == '-'
    &&& {
        let e0 = space_run_end(s, w + 1);
        let e1 = digit_run_end(s, e0);
        &&& e1 > e0
        &&& quality_find(s, e1) < s.len()
    }
}

pub open spec fn fam1_find(s: Seq<char>, p: int) -> int
    decreases s.len() - p,
    when 0 <= p <= s.len()
{
    if p >= s.len() {
        p
    } else if fam1_sep_at(s, p) {
        p
    } else {
        fam1_find(s, p + 1)
    }
}

pub open spec fn fam2_find(s: Seq<char>, p: int) -> int
    decreases s.len() - p,
    when 0 <= p <= s.len()
{
    if p >= s.len() {
        p
    } else if fam2_sep_at(s, p) {
        p
    } else {
        fam2_find(s, p + 1)
    }
}

pub open spec fn fam3_find(s: Seq<char>, p: int) -> int
    decreases s.len() - p,
    when 0 <= p <= s.len()
{
    if p >= s.len() {
        p
    } else if fam3_sep_at(s, p) {
        p
    } else {
        fam3_find(s, p + 1)
    }
}

pub open spec fn fam4_find(s: Seq<char>, p: int) -> int
    decreases s.len() - p,
    when 0 <= p <= s.len()
{
    if p >= s.len() {
        p
    } else if fam4_sep_at(s, p) {
        p
    } else {
        fam4_find(s, p + 1)
    }
}

/// Index of the closing bracket of the leading `[group]` tag, or -1 when
/// the title carries none.
pub open spec fn bracket_end(s: Seq<char>) -> int {
    let lb = char_find(s, 0, '[');
    if lb == s.len() {
        -1
    } else {
        let rb = char_find(s, lb + 1, ']');
        if rb == s.len() {
            -1
        } else {
            rb
        }
    }
}

/// Where the show title starts: after the bracket tag and the following
/// whitespace. Meaningful only when `bracket_end` is not -1.
pub open spec fn content_start(s: Seq<char>) -> int {
    space_run_end(s, bracket_end(s) + 1)
}

/// The value family one yields at its first separator; `None` when the
/// season or episode number exceeds `u16`.
pub open spec fn fam1_value(s: Seq<char>, start: int) -> Option<SpecEpisode> {
    let p = fam1_find(s, start);
    let w = space_run_end(s, p);
    let d1 = digit_run_end(s, w + 1);
    let h = space_run_end(s, d1);
    let e0 = space_run_end(s, h + 1);
    let e1 = digit_run_end(s, e0);
    let sv = digits_val(s.subrange(w + 1, d1));
    let ev = digits_val(s.subrange(e0, e1));
    if sv > 65535 || ev > 65535 {
        None
    } else {
        Some(
            SpecEpisode {
                show: trim_spec(s.subrange(start, p)),
                season: Some(sv),
                episode: ev,
                quality: quality_token(s, quality_find(s, e1)),
            },
        )
    }
}

/// The value family two yields at its first separator.
pub open spec fn fam2_value(s: Seq<char>, start: int) -> Option<SpecEpisode> {
    let p = fam2_find(s, start);
    let w = space_run_end(s, p);
    let d1 = digit_run_end(s, w);
    let w2 = space_run_end(s, d1 + 2);
    let h = space_run_end(s, w2 + 6);
    let e0 = space_run_end(s, h + 1);
    let e1 = digit_run_end(s, e0);
    let sv = digits_val(s.subrange(w, d1));
    let ev = digits_val(s.subrange(e0, e1));
    if sv > 65535 || ev > 65535 {
        None
    } else {
        Some(
            SpecEpisode {
                show: trim_spec(s.subrange(start, p)),
                season: Some(sv),
                episode: ev,
                quality: quality_token(s, quality_find(s, e1)),
            },
        )
    }
}

/// The value family three yields at its first separator.
pub open spec fn fam3_value(s: Seq<char>, start: int) -> Option<SpecEpisode> {
    let p = fam3_find(s, start);
    let w = space_run_end(s, p);
    let w2 = space_run_end(s, w + 6);
    let d1 = digit_run_end(s, w2);
    let h = space_run_end(s, d1);
    let e0 = space_run_end(s, h + 1);
    let e1 = digit_run_end(s, e0);
    let sv = digits_val(s.subrange(w2, d1));
    let ev = digits_val(s.subrange(e0, e1));
    if sv > 65535 || ev > 65535 {
        None
    } else {
        Some(
            SpecEpisode {
                show: trim_spec(s.subrange(start, p)),
                season: Some(sv),
                episode: ev,
                quality: quality_token(s, quality_find(s, e1)),
            },
        )
    }
}

/// The value family four yields at its first separator; the season is
/// left unknown.
pub open spec fn fam4_value(s: Seq<char>, start: int) -> Option<SpecEpisode> {
    let p = fam4_find(s, start);
    let w = space_run_end(s, p);
    let e0 = space_run_end(s, w + 1);
    let e1 = digit_run_end(s, e0);
    let ev = digits_val(s.subrange(e0, e1));
    if ev > 65535 {
        None
    } else {
        Some(
            SpecEpisode {
                show: trim_spec(s.subrange(start, p)),
                season: None,
                episode: ev,
                quality: quality_token(s, quality_find(s, e1)),
            },
        )
    }
}

/// The full cascade: the first matching family decides; a title without
/// a bracket tag or without any matching family parses to nothing.
pub open spec fn spec_parse_full(s: Seq<char>) -> Option<SpecEpisode> {
    if bracket_end(s) < 0 {
        None
    } else {
        let start = content_start(s);
        if fam1_find(s, start) < s.len() {
            fam1_value(s, start)
        } else if fam2_find(s, start) < s.len() {
            fam2_value(s, start)
        } else if fam3_find(s, start) < s.len() {
            fam3_value(s, start)
        } else if fam4_find(s, start) < s.len() {
            fam4_value(s, start)
        } else {
            None
        }
    }
}

/// An executable result carries exactly a specified value.
pub open spec fn episode_info_matches(info: EpisodeInfo, e: SpecEpisode) -> bool {
    &&& info.show_title@ == e.show
    &&& match e.season {
        Some(sv) => info.season matches Some(x) && x as int == sv,
        None => info.season is None,
    }
    &&& info.episode as int == e.episode
    &&& info.quality@ == e.quality
}

/// Four digits followed by `p` at position `q`.
fn four_at_exec(v: &Vec<char>, q: usize) -> (r: bool)
    requires
        q <= v@.len(),
    ensures
        r == four_digit_quality_at(v@, q as int),
{
    if v.len() - q >= 5 {
        is_digit_exec(v[q]) && is_digit_exec(v[q + 1]) && is_digit_exec(v[q + 2]) && is_digit_exec(
            v[q + 3],
        ) && v[q + 4] == 'p'
    } else {
        false
    }
}

/// Three digits followed by `p` at position `q`.
fn three_at_exec(v: &Vec<char>, q: usize) -> (r: bool)
    requires
        q <= v@.len(),
    ensures
        r == three_digit_quality_at(v@, q as int),
{
    if v.len() - q >= 4 {
        is_digit_exec(v[q]) && is_digit_exec(v[q + 1]) && is_digit_exec(v[q + 2]) && v[q + 3] == 'p'
    } else {
        false
    }
}

/// Finds the first quality token at or after `from`; returns its start
/// and end.
fn find_quality(v: &Vec<char>, from: usize) -> (r: Option<(usize, usize)>)
    requires
        from <= v@.len(),
    ensures
        match r {
            Some(qq) => {
                let q = qq.0;
                let qe = qq.1;
                &&& q as int == quality_find(v@, from as int)
                &&& (q as int) < v@.len()
                &&& quality_at(v@, q as int)
                &&& qe as int == q as int + (if four_digit_quality_at(v@, q as int) {
                    5int
                } else {
                    4int
                })
                &&& qe <= v@.len()
            },
            None => quality_find(v@, from as int) == v@.len(),
        },
{
    let mut p: usize = from;
    while p < v.len()
        invariant
            from <= p <= v@.len(),
            quality_find(v@, from as int) == quality_find(v@, p as int),
        decreases v@.len() - p,
    {
        let four = four_at_exec(v, p);
        let three = three_at_exec(v, p);
        if four {
            return Some((p, p + 5));
        }
        if three {
            return Some((p, p + 4));
        }
        p = p + 1;
    }
    None
}

/// Tries family one at every position from `start`; `Some(None)` means
/// the family matched but a number overflowed.
fn try_fam1(v: &Vec<char>, start: usize) -> (r: Option<Option<EpisodeInfo>>)
    requires
        start <= v@.len(),
    ensures
        r is Some ==> fam1_find(v@, start as int) < v@.len(),
        ({
            let s = v@;
            if fam1_find(s, start as int) == s.len() {
                r is None
            } else {
                match fam1_value(s, start as int) {
                    Some(e) => r matches Some(Some(info)) && episode_info_matches(info, e),
                    None => r matches Some(None),
                }
            }
        }),
{
    let mut p: usize = start;
    while p < v.len()
        invariant
            start <= p <= v@.len(),
            fam1_find(v@, start as int) == fam1_find(v@, p as int),
        decreases v@.len() - p,
    {
        let w = scan_spaces(v, p);
        if w > p && w < v.len() && v[w] == 'S' {
            let d1 = scan_digits(v, w + 1);
            if d1 > w + 1 {
                let h = scan_spaces(v, d1);
                if h < v.len() && v[h] == '-' {
                    let e0 = scan_spaces(v, h + 1);
                    let e1 = scan_digits(v, e0);
                    if e1 > e0 {
                        match find_quality(v, e1) {
                            Some((q, qe)) => {
                                proof {
                                    assert(fam1_sep_at(v@, p as int));
                                    lemma_digit_run_end_props(v@, w + 1);
                                    lemma_digit_run_end_props(v@, e0 as int);
                                }
                                let sv = parse_u16(v, w + 1, d1);
                                let ev = parse_u16(v, e0, e1);
                                match (sv, ev) {
                                    (Some(season), Some(episode)) => {
                                        let show = string_of(&trim(&subrange_vec(v, start, p)));
                                        let quality = string_of(&subrange_vec(v, q, qe));
                                        return Some(
                                            Some(
                                                EpisodeInfo {
                                                    show_title: show,
                                                    season: Some(season),
                                                    episode,
                                                    quality,
                                                },
                                            ),
                                        );
                                    },
                                    _ => {
                                        return Some(None);
                                    },
                                }
                            },
                            None => {},
                        }
                    }
                }
            }
        }
        proof {
            assert(!fam1_sep_at(v@, p as int));
        }
        p = p + 1;
    }
    None
}

/// Tries family two (`<n>th Season`) at every position from `start`.
fn try_fam2(v: &Vec<char>, start: usize) -> (r: Option<Option<EpisodeInfo>>)
    requires
        start <= v@.len(),
    ensures
        r is Some ==> fam2_find(v@, start as int) < v@.len(),
        ({
            let s = v@;
            if fam2_find(s, start as int) == s.len() {
                r is None
            } else {
                match fam2_value(s, start as int) {
                    Some(e) => r matches Some(Some(info)) && episode_info_matches(info, e),
                    None => r matches Some(None),
                }
            }
        }),
{
    let mut p: usize = start;
    while p < v.len()
        invariant
            start <= p <= v@.len(),
            fam2_find(v@, start as int) == fam2_find(v@, p as int),
        decreases v@.len() - p,
    {
        let w = scan_spaces(v, p);
        if w > p {
            let d1 = scan_digits(v, w);
            if d1 > w && ordinal_suffix_exec(v, d1) {
                let w2 = scan_spaces(v, d1 + 2);
                if w2 > d1 + 2 && season_word_exec(v, w2) {
                    let h = scan_spaces(v, w2 + 6);
                    if h < v.len() && v[h] == '-' {
                        let e0 = scan_spaces(v, h + 1);
                        let e1 = scan_digits(v, e0);
                        if e1 > e0 {
                            match find_quality(v, e1) {
                                Some((q, qe)) => {
                                    proof {
                                        assert(fam2_sep_at(v@, p as int));
                                        lemma_digit_run_end_props(v@, w as int);
                                        lemma_digit_run_end_props(v@, e0 as int);
                                    }
                                    let sv = parse_u16(v, w, d1);
                                    let ev = parse_u16(v, e0, e1);
                                    match (sv, ev) {
                                        (Some(season), Some(episode)) => {
                                            let show = string_of(&trim(&subrange_vec(v, start, p)));
                                            let quality = string_of(&subrange_vec(v, q, qe));
                                            return Some(
                                                Some(
                                                    EpisodeInfo {
                                                        show_title: show,
                                                        season: Some(season),
                                                        episode,
                                                        quality,
                                                    },
                                                ),
                                            );
                                        },
                                        _ => {
                                            return Some(None);
                                        },
                                    }
                                },
                                None => {},
                            }
                        }
                    }
                }
            }
        }
        proof {
            assert(!fam2_sep_at(v@, p as int));
        }
        p = p + 1;
    }
    None
}

/// Tries family three (`Season <n>`) at every position from `start`.
fn try_fam3(v: &Vec<char>, start: usize) -> (r: Option<Option<EpisodeInfo>>)
    requires
        start <= v@.len(),
    ensures
        r is Some ==> fam3_find(v@, start as int) < v@.len(),
        ({
            let s = v@;
            if fam3_find(s, start as int) == s.len() {
                r is None
            } else {
                match fam3_value(s, start as int) {
                    Some(e) => r matches Some(Some(info)) && episode_info_matches(info, e),
                    None => r matches Some(None),
                }
            }
        }),
{
    let mut p: usize = start;
    while p < v.len()
        invariant
            start <= p <= v@.len(),
            fam3_find(v@, start as int) == fam3_find(v@, p as int),
        decreases v@.len() - p,
    {
        let w = scan_spaces(v, p);
        if w > p && season_word_exec(v, w) {
            let w2 = scan_spaces(v, w + 6);
            if w2 > w + 6 {
                let d1 = scan_digits(v, w2);
                if d1 > w2 {
                    let h = scan_spaces(v, d1);
                    if h < v.len() && v[h] == '-' {
                        let e0 = scan_spaces(v, h + 1);
                        let e1 = scan_digits(v, e0);
                        if e1 > e0 {
                            match find_quality(v, e1) {
                                Some((q, qe)) => {
                                    proof {
                                        assert(fam3_sep_at(v@, p as int));
                                        lemma_digit_run_end_props(v@, w2 as int);
                                        lemma_digit_run_end_props(v@, e0 as int);
                                    }
                                    let sv = parse_u16(v, w2, d1);
                                    let ev = parse_u16(v, e0, e1);
                                    match (sv, ev) {
                                        (Some(season), Some(episode)) => {
                                            let show = string_of(&trim(&subrange_vec(v, start, p)));
                                            let quality = string_of(&subrange_vec(v, q, qe));
                                            return Some(
                                                Some(
                                                    EpisodeInfo {
                                                        show_title: show,
                                                        season: Some(season),
                                                        episode,
                                                        quality,
                                                    },
                                                ),
                                            );
                                        },
                                        _ => {
                                            return Some(None);
                                        },
                                    }
                                },
                                None => {},
                            }
                        }
                    }
                }
            }
        }
        proof {
            assert(!fam3_sep_at(v@, p as int));
        }
        p = p + 1;
    }
    None
}

/// Tries family four (no season marker) at every position from `start`.
fn try_fam4(v: &Vec<char>, start: usize) -> (r: Option<Option<EpisodeInfo>>)
    requires
        start <= v@.len(),
    ensures
        r is Some ==> fam4_find(v@, start as int) < v@.len(),
        ({
            let s = v@;
            if fam4_find(s, start as int) == s.len() {
                r is None
            } else {
                match fam4_value(s, start as int) {
                    Some(e) => r matches Some(Some(info)) && episode_info_matches(info, e),
                    None => r matches Some(None),
                }
            }
        }),
{
    let mut p: usize = start;
    while p < v.len()
        invariant
            start <= p <= v@.len(),
            fam4_find(v@, start as int) == fam4_find(v@, p as int),
        decreases v@.len() - p,
    {
        let w = scan_spaces(v, p);
        if w < v.len() && v[w] == '-' {
            let e0 = scan_spaces(v, w + 1);
            let e1 = scan_digits(v, e0);
            if e1 > e0 {
                match find_quality(v, e1) {
                    Some((q, qe)) => {
                        proof {
                            assert(fam4_sep_at(v@, p as int));
                            lemma_digit_run_end_props(v@, e0 as int);
                        }
                        let ev = parse_u16(v, e0, e1);
                        match ev {
                            Some(episode) => {
                                let show = string_of(&trim(&subrange_vec(v, start, p)));
                                let quality = string_of(&subrange_vec(v, q, qe));
                                return Some(
                                    Some(
                                        EpisodeInfo {
                                            show_title: show,
                                            season: None,
                                            episode,
                                            quality,
                                        },
                                    ),
                                );
                            },
                            None => {
                                return Some(None);
                            },
                        }
                    },
                    None => {},
                }
            }
        }
        proof {
            assert(!fam4_sep_at(v@, p as int));
        }
        p = p + 1;
    }
    None
}

/// The word `Season` starts at `i`.
fn season_word_exec(v: &Vec<char>, i: usize) -> (r: bool)
    requires
        i <= v@.len(),
    ensures
        r == season_word_at(v@, i as int),
{
    if v.len() - i >= 6 {
        v[i] == 'S' && v[i + 1] == 'e' && v[i + 2] == 'a' && v[i + 3] == 's' && v[i + 4] == 'o'
            && v[i + 5] == 'n'
    } else {
        false
    }
}

/// An ordinal suffix starts at `i`.
fn ordinal_suffix_exec(v: &Vec<char>, i: usize) -> (r: bool)
    requires
        i <= v@.len(),
    ensures
        r == ordinal_suffix_at(v@, i as int),
{
    if v.len() - i >= 2 {
        (v[i] == 's' && v[i + 1] == 't') || (v[i] == 'n' && v[i + 1] == 'd') || (v[i] == 'r'
            && v[i + 1] == 'd') || (v[i] == 't' && v[i + 1] == 'h')
    } else {
        false
    }
}

/// Parses episode metadata, including the season, out of one release
/// title. The first matching pattern family decides; a title no family
/// matches yields `None` and must be discarded by the caller.
pub fn parse_episode_info_full(title: &str) -> (r: Option<EpisodeInfo>)
    ensures
        match spec_parse_full(title@) {
            Some(e) => r matches Some(info) && episode_info_matches(info, e),
            None => r is None,
        },
{
    let v = chars_of(title);
    let lb = find_char(&v, 0, '[');
    if lb == v.len() {
        return None;
    }
    let rb = find_char(&v, lb + 1, ']');
    if rb == v.len() {
        return None;
    }
    let start = scan_spaces(&v, rb + 1);
    proof {
        assert(bracket_end(v@) == rb as int);
        assert(content_start(v@) == start as int);
    }
    match try_fam1(&v, start) {
        Some(x) => {
            return x;
        },
        None => {},
    }
    match try_fam2(&v, start) {
        Some(x) => {
            return x;
        },
        None => {},
    }
    match try_fam3(&v, start) {
        Some(x) => {
            return x;
        },
        None => {},
    }
    match try_fam4(&v, start) {
        Some(x) => {
            return x;
        },
        None => {},
    }
    None
}

/// Parses a title into the `(show, episode, quality)` triple, dropping
/// the season that the full parse also extracts.
pub fn parse_episode_info(title: &str) -> (r: Option<(String, u16, String)>)
    ensures
        match spec_parse_full(title@) {
            Some(e) => r matches Some(t) && t.0@ == e.show && t.1 as int == e.episode && t.2@
                == e.quality,
            None => r is None,
        },
{
    match parse_episode_info_full(title) {
        Some(info) => Some((info.show_title, info.episode, info.quality)),
        None => None,
    }
}

} // verus!

