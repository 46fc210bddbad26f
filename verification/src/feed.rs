//! Feed data model.
//!
//! A fetched feed document is parsed into a uniform sequence of
//! [`RssItem`] rows; the title parser then derives [`ParsedEpisode`]
//! values from the rows that carry a parseable episode marker.

use vstd::prelude::*;
use crate::TrackerError;
use crate::text::{
    char_find, chars_eq, chars_of, digit_run_end, digits_val, find_char, find_sub_from, has_sub,
    is_digit, is_space, is_space_exec, lemma_sub_find_at, lower, push_all, string_of, sub_find,
    subrange_vec, to_lower, trim, trim_spec,
};

verus! {

/// Which provider shape a tracked entity is fetched from.
#[derive(Debug, Clone, Copy, PartialEq, Eq, Structural)]
pub enum RssSource {
    /// Per-entity searchable feed, queried with source plus title.
    Nyaa,
    /// Global firehose feed, fetched per quality tier and filtered
    /// client-side by title substring.
    SubsPleaseDirect,
}

/// The source tag that selects the firehose feed shape.
pub open spec fn spec_source_of_string(s: Seq<char>) -> RssSource {
    if lower(s) == "subsplease_direct"@ {
        RssSource::SubsPleaseDirect
    } else {
        RssSource::Nyaa
    }
}

impl RssSource {
    /// Resolves an entity's free-text source tag, case-insensitively;
    /// anything but the firehose tag selects the searchable feed.
    pub fn from_source_string(source: &str) -> (r: Self)
        ensures
            r == spec_source_of_string(source@),
    {
        let l = to_lower(&chars_of(source));
        let tag = chars_of("subsplease_direct");
        if chars_eq(&l, &tag) {
            RssSource::SubsPleaseDirect
        } else {
            RssSource::Nyaa
        }
    }
}

/// One row from a fetched feed document.
///
/// Provider-supplied quality signals default to zero or empty when the
/// feed shape does not carry them.
#[derive(Debug, Clone)]
pub struct RssItem {
    pub title: String,
    pub torrent_link: String,
    pub view_url: String,
    pub pub_date: String,
    pub info_hash: String,
    pub category_id: String,
    pub size: String,
    pub seeders: u32,
    pub leechers: u32,
}

/// A release with the episode metadata extracted from its title.
#[derive(Debug, Clone)]
pub struct ParsedEpisode {
    pub show_title: String,
    pub episode: u16,
    pub quality: String,
    pub info_hash: String,
    pub torrent_url: String,
    pub magnet_url: String,
}

/// One download link of a release, as the searchable provider lists it.
#[derive(Debug, Clone)]
pub struct Link {
    pub title: String,
    pub episode: String,
    pub magnet_link: Option<String>,
    pub torrent_link: Option<String>,
}

/// The mathematical value of one feed row.
pub ghost struct SpecRssItem {
    pub title: Seq<char>,
    pub torrent_link: Seq<char>,
    pub view_url: Seq<char>,
    pub pub_date: Seq<char>,
    pub info_hash: Seq<char>,
    pub category_id: Seq<char>,
    pub size: Seq<char>,
    pub seeders: int,
    pub leechers: int,
}

/// An executable row carries exactly a specified value.
pub open spec fn rss_item_matches(item: RssItem, e: SpecRssItem) -> bool {
    &&& item.title@ == e.title
    &&& item.torrent_link@ == e.torrent_link
    &&& item.view_url@ == e.view_url
    &&& item.pub_date@ == e.pub_date
    &&& item.info_hash@ == e.info_hash
    &&& item.category_id@ == e.category_id
    &&& item.size@ == e.size
    &&& item.seeders as int == e.seeders
    &&& item.leechers as int == e.leechers
}

/// The characters of `w` occur verbatim at `i`.
pub open spec fn exact_at(s: Seq<char>, i: int, w: Seq<char>) -> bool {
    &&& 0 <= i
    &&& i + w.len() <= s.len()
    &&& forall|k: int| 0 <= k < w.len() ==> s[i + k] == w[k]
}

/// Verbatim comparison of `w` against `s` at position `i`.
fn exact_at_exec(v: &Vec<char>, i: usize, w: &Vec<char>) -> (r: bool)
    requires
        i <= v@.len(),
    ensures
        r == exact_at(v@, i as int, w@),
{
    if v.len() - i < w.len() {
        return false;
    }
    proof {
        assert(v@.len() == v.len());
    }
    let mut k: usize = 0;
    while k < w.len()
        invariant
            0 <= k <= w@.len(),
            i + w@.len() <= v@.len(),
            v@.len() <= usize::MAX,
            forall|j: int| 0 <= j < k ==> v@[i + j] == w@[j],
        decreases w@.len() - k,
    {
        if v[i + k] != w[k] {
            return false;
        }
        k = k + 1;
    }
    true
}

/// An opening tag named `name` starts at `i`: `<`, the name, then `>` or
/// whitespace before any attributes.
pub open spec fn tag_open_at(s: Seq<char>, i: int, name: Seq<char>) -> bool {
    &&& 0 <= i < s.len()
    &&& s[i] == '<'
    &&& exact_at(s, i + 1, name)
    &&& i + 1 + name.len() < s.len()
    &&& (s[i + 1 + name.len()] == '>' || is_space(s[i + 1 + name.len()]))
}

/// First opening tag named `name` at or after `from`; the length of `s`
/// when there is none.
pub open spec fn find_tag_open(s: Seq<char>, from: int, name: Seq<char>) -> int
    decreases s.len() - from,
    when 0 <= from <= s.len()
{
    if from >= s.len() {
        from
    } else if tag_open_at(s, from, name) {
        from
    } else {
        find_tag_open(s, from + 1, name)
    }
}

/// Scans for the first opening tag named `name`.
fn find_tag_open_exec(v: &Vec<char>, from: usize, name: &Vec<char>) -> (r: usize)
    requires
        from <= v@.len(),
    ensures
        r as int == find_tag_open(v@, from as int, name@),
        from <= r <= v@.len(),
        r < v@.len() ==> tag_open_at(v@, r as int, name@),
{
    let mut p: usize = from;
    while p < v.len()
        invariant
            from <= p <= v@.len(),
            find_tag_open(v@, from as int, name@) == find_tag_open(v@, p as int, name@),
        decreases v@.len() - p,
    {
        if v[p] == '<' && exact_at_exec(v, p + 1, name) {
            proof {
                assert(v@.len() == v.len());
            }
            let j = p + 1 + name.len();
            if j < v.len() && (v[j] == '>' || is_space_exec(v[j])) {
                return p;
            }
        }
        proof {
            assert(!tag_open_at(v@, p as int, name@));
        }
        p = p + 1;
    }
    p
}

/// One XML entity decoded; the five named entities are understood,
/// anything else fails the text.
pub open spec fn entity_char(e: Seq<char>) -> Option<char> {
    if e == "amp"@ {
        Some('&')
    } else if e == "lt"@ {
        Some('<')
    } else if e == "gt"@ {
        Some('>')
    } else if e == "apos"@ {
        Some('\'')
    } else if e == "quot"@ {
        Some('"')
    } else {
        None
    }
}

/// Decodes the named entities of a text node; `None` for a stray `&` or
/// an entity this library does not know.
pub open spec fn unescape_spec(s: Seq<char>) -> Option<Seq<char>>
    decreases s.len(),
    via unescape_spec_dec
{
    if s.len() == 0 {
        Some(Seq::empty())
    } else if s[0] == '&' {
        let semi = char_find(s, 1, ';');
        if semi == s.len() {
            None
        } else {
            match entity_char(s.subrange(1, semi)) {
                Some(c) => match unescape_spec(s.subrange(semi + 1, s.len() as int)) {
                    Some(rest) => Some(seq![c] + rest),
                    None => None,
                },
                None => None,
            }
        }
    } else {
        match unescape_spec(s.drop_first()) {
            Some(rest) => Some(seq![s[0]] + rest),
            None => None,
        }
    }
}

pub proof fn lemma_char_find_range(s: Seq<char>, i: int, c: char)
    requires
        0 <= i <= s.len(),
    ensures
        i <= char_find(s, i, c) <= s.len(),
    decreases s.len() - i,
{
    if i < s.len() && s[i] != c {
        lemma_char_find_range(s, i + 1, c);
    }
}

#[via_fn]
proof fn unescape_spec_dec(s: Seq<char>) {
    if s.len() > 0 && s[0] == '&' {
        lemma_char_find_range(s, 1, ';');
    }
}

/// Decodes the named entities of a text node.
fn unescape(v: &Vec<char>) -> (r: Option<Vec<char>>)
    ensures
        match unescape_spec(v@) {
            Some(u) => r matches Some(x) && x@ == u,
            None => r is None,
        },
    decreases v@.len(),
{
    if v.len() == 0 {
        proof {
            assert(Seq::<char>::empty() =~= v@);
        }
        let r: Vec<char> = Vec::new();
        proof {
            assert(r@ =~= Seq::<char>::empty());
        }
        return Some(r);
    }
    if v[0] == '&' {
        let semi = find_char(v, 1, ';');
        if semi == v.len() {
            return None;
        }
        let ent = subrange_vec(v, 1, semi);
        let c: char;
        if chars_eq(&ent, &chars_of("amp")) {
            c = '&';
        } else if chars_eq(&ent, &chars_of("lt")) {
            c = '<';
        } else if chars_eq(&ent, &chars_of("gt")) {
            c = '>';
        } else if chars_eq(&ent, &chars_of("apos")) {
            c = '\'';
        } else if chars_eq(&ent, &chars_of("quot")) {
            c = '"';
        } else {
            proof {
                assert(entity_char(v@.subrange(1, semi as int)) is None);
            }
            return None;
        }
        let rest_in = subrange_vec(v, semi + 1, v.len());
        match unescape(&rest_in) {
            Some(rest) => {
                let mut out: Vec<char> = Vec::new();
                out.push(c);
                push_all(&mut out, &rest);
                proof {
                    assert(out@ =~= seq![c] + rest@);
                }
                Some(out)
            },
            None => None,
        }
    } else {
        let rest_in = subrange_vec(v, 1, v.len());
        proof {
            assert(rest_in@ =~= v@.drop_first());
        }
        match unescape(&rest_in) {
            Some(rest) => {
                let mut out: Vec<char> = Vec::new();
                out.push(v[0]);
                push_all(&mut out, &rest);
                proof {
                    assert(out@ =~= seq![v@[0]] + rest@);
                }
                Some(out)
            },
            None => None,
        }
    }
}

/// The closing tag of `name`.
pub open spec fn close_pat(name: Seq<char>) -> Seq<char> {
    seq!['<', '/'] + name + seq!['>']
}

/// The decoded text of the first `name` element of a region: the text
/// between its tags, trimmed and unescaped; `None` when the element is
/// absent, empty, or its text fails to decode.
pub open spec fn field_of(region: Seq<char>, name: Seq<char>) -> Option<Seq<char>> {
    let i = find_tag_open(region, 0, name);
    if i == region.len() {
        None
    } else {
        let gt = char_find(region, i + 1 + name.len(), '>');
        if gt == region.len() {
            None
        } else {
            let close = sub_find(region, close_pat(name), gt + 1);
            if close == region.len() {
                None
            } else {
                let raw = trim_spec(region.subrange(gt + 1, close));
                if raw.len() == 0 {
                    None
                } else {
                    match unescape_spec(raw) {
                        Some(u) => if u.len() == 0 {
                            None
                        } else {
                            Some(u)
                        },
                        None => None,
                    }
                }
            }
        }
    }
}

/// The decoded text of a field, or empty when it yields none.
pub open spec fn field_or_empty(region: Seq<char>, name: Seq<char>) -> Seq<char> {
    match field_of(region, name) {
        Some(t) => t,
        None => Seq::empty(),
    }
}

/// Extracts the decoded text of the first `name` element of a region.
fn field_of_exec(v: &Vec<char>, name: &Vec<char>) -> (r: Option<Vec<char>>)
    requires
        1 <= name@.len(),
    ensures
        match field_of(v@, name@) {
            Some(t) => r matches Some(x) && x@ == t && t.len() > 0,
            None => r is None,
        },
{
    let i = find_tag_open_exec(v, 0, name);
    if i == v.len() {
        return None;
    }
    proof {
        assert(v@.len() == v.len());
    }
    let gt = find_char(v, i + 1 + name.len(), '>');
    if gt == v.len() {
        return None;
    }
    let mut cp: Vec<char> = Vec::new();
    cp.push('<');
    cp.push('/');
    push_all(&mut cp, name);
    cp.push('>');
    proof {
        assert(cp@ =~= close_pat(name@));
    }
    let close: usize;
    match find_sub_from(v, &cp, gt + 1) {
        Some(c) => {
            proof {
                lemma_sub_find_at(v@, cp@, gt + 1, c as int);
            }
            close = c;
        },
        None => {
            proof {
                lemma_sub_find_at(v@, cp@, gt + 1, v@.len() as int);
            }
            return None;
        },
    }
    let raw = trim(&subrange_vec(v, gt + 1, close));
    if raw.len() == 0 {
        return None;
    }
    match unescape(&raw) {
        Some(u) => {
            if u.len() == 0 {
                None
            } else {
                Some(u)
            }
        },
        None => None,
    }
}


/// The item regions of a feed document from position `from` on: the text
/// between each `<item>` tag and its closing tag. `None` marks a
/// malformed document: an item tag that never closes.
pub open spec fn items_spec(s: Seq<char>, from: int) -> Option<Seq<Seq<char>>>
    decreases s.len() - from,
    when 0 <= from <= s.len()
    via items_spec_dec
{
    let i = find_tag_open(s, from, "item"@);
    if i == s.len() {
        Some(Seq::empty())
    } else {
        let gt = char_find(s, i + 5, '>');
        if gt == s.len() {
            None
        } else {
            let close = sub_find(s, close_pat("item"@), gt + 1);
            if close == s.len() {
                None
            } else {
                match items_spec(s, close + 7) {
                    Some(rest) => Some(seq![s.subrange(gt + 1, close)] + rest),
                    None => None,
                }
            }
        }
    }
}

pub proof fn lemma_find_tag_open_range(s: Seq<char>, from: int, name: Seq<char>)
    requires
        0 <= from <= s.len(),
    ensures
        from <= find_tag_open(s, from, name) <= s.len(),
        find_tag_open(s, from, name) < s.len() ==> tag_open_at(s, find_tag_open(s, from, name), name),
    decreases s.len() - from,
{
    if from < s.len() && !tag_open_at(s, from, name) {
        lemma_find_tag_open_range(s, from + 1, name);
    }
}

proof fn lemma_sub_find_range_generic(s: Seq<char>, pat: Seq<char>, i: int)
    requires
        0 <= i <= s.len(),
        1 <= pat.len(),
    ensures
        sub_find(s, pat, i) == s.len() || (i <= sub_find(s, pat, i) && sub_find(s, pat, i)
            + pat.len() <= s.len()),
    decreases s.len() - i,
{
    if i + pat.len() > s.len() {
    } else if crate::text::matches_at(s, pat, i) {
    } else {
        lemma_sub_find_range_generic(s, pat, i + 1);
    }
}

#[via_fn]
proof fn items_spec_dec(s: Seq<char>, from: int) {
    reveal_strlit("item");
    lemma_find_tag_open_range(s, from, "item"@);
    let i = find_tag_open(s, from, "item"@);
    if i < s.len() {
        lemma_char_find_range(s, i + 5, '>');
        let gt = char_find(s, i + 5, '>');
        if gt < s.len() {
            lemma_sub_find_range_generic(s, close_pat("item"@), gt + 1);
        }
    }
}

/// An executable region list carries exactly the specified regions.
pub open spec fn regions_match(out: Seq<Vec<char>>, regs: Seq<Seq<char>>) -> bool {
    out.len() == regs.len() && (forall|k: int| 0 <= k < out.len() ==> (#[trigger] out[k])@ == regs[k])
}

/// Collects the item regions of a document.
fn collect_items(v: &Vec<char>, from: usize) -> (r: Option<Vec<Vec<char>>>)
    requires
        from <= v@.len(),
    ensures
        match items_spec(v@, from as int) {
            Some(regs) => r matches Some(out) && regions_match(out@, regs),
            None => r is None,
        },
    decreases v@.len() - from,
{
    proof {
        reveal_strlit("item");
    }
    let name = chars_of("item");
    let i = find_tag_open_exec(v, from, &name);
    if i == v.len() {
        let out: Vec<Vec<char>> = Vec::new();
        return Some(out);
    }
    let gt = find_char(v, i + 5, '>');
    if gt == v.len() {
        return None;
    }
    let mut cp: Vec<char> = Vec::new();
    cp.push('<');
    cp.push('/');
    push_all(&mut cp, &name);
    cp.push('>');
    proof {
        assert(cp@ =~= close_pat("item"@));
    }
    match find_sub_from(v, &cp, gt + 1) {
        None => {
            proof {
                lemma_sub_find_at(v@, cp@, gt + 1, v@.len() as int);
            }
            None
        },
        Some(close) => {
            proof {
                lemma_sub_find_at(v@, cp@, gt + 1, close as int);
                assert(v@.len() == v.len());
                assert(close + 7 <= v@.len());
            }
            let region = subrange_vec(v, gt + 1, close);
            match collect_items(v, close + 7) {
                Some(mut rest) => {
                    let ghost rest_view = rest@;
                    let mut out: Vec<Vec<char>> = Vec::new();
                    out.push(region);
                    out.append(&mut rest);
                    proof {
                        assert(out@ =~= seq![region] + rest_view);
                    }
                    Some(out)
                },
                None => None,
            }
        },
    }
}

/// The piece of a locator after its last slash; the whole locator when
/// it has none.
pub open spec fn after_last_slash(s: Seq<char>) -> Seq<char>
    decreases s.len(),
{
    if s.len() == 0 {
        s
    } else if s.last() == '/' {
        Seq::empty()
    } else {
        after_last_slash(s.drop_last()) + seq![s.last()]
    }
}

/// Extracts the trailing path segment of a locator.
fn after_last_slash_exec(v: &Vec<char>) -> (r: Vec<char>)
    ensures
        r@ == after_last_slash(v@),
{
    let mut j: usize = v.len();
    proof {
        assert(v@.subrange(0, v@.len() as int) =~= v@);
        assert(v@.subrange(v@.len() as int, v@.len() as int) =~= Seq::<char>::empty());
        assert(after_last_slash(v@) =~= after_last_slash(v@) + Seq::<char>::empty());
    }
    while j > 0 && v[j - 1] != '/'
        invariant
            0 <= j <= v@.len(),
            after_last_slash(v@) =~= after_last_slash(v@.subrange(0, j as int)) + v@.subrange(
                j as int,
                v@.len() as int,
            ),
        decreases j,
    {
        proof {
            assert(v@.subrange(0, j as int).drop_last() =~= v@.subrange(0, j - 1));
            assert(v@.subrange(j - 1, v@.len() as int) =~= seq![v@[j - 1]] + v@.subrange(
                j as int,
                v@.len() as int,
            ));
        }
        j = j - 1;
    }
    if j == 0 {
        proof {
            assert(v@.subrange(0, 0) =~= Seq::<char>::empty());
            assert(after_last_slash(v@) =~= v@.subrange(0, v@.len() as int));
            assert(v@.subrange(0, v@.len() as int) =~= v@);
        }
        subrange_vec(v, 0, v.len())
    } else {
        proof {
            assert(v@.subrange(0, j as int).last() == '/');
            assert(after_last_slash(v@) =~= v@.subrange(j as int, v@.len() as int));
        }
        subrange_vec(v, j, v.len())
    }
}

/// The value of a numeric quality-signal field: an optional plus sign,
/// then digits, within `u32`; anything else counts as zero.
pub open spec fn counter_of(s: Seq<char>) -> int {
    let t = if s.len() > 0 && s[0] == '+' {
        s.drop_first()
    } else {
        s
    };
    if t.len() >= 1 && digit_run_end(t, 0) == t.len() && digits_val(t) <= 0xffff_ffff {
        digits_val(t)
    } else {
        0
    }
}

/// Parses a quality-signal counter, zero for anything unusable.
fn parse_counter(v: &Vec<char>) -> (r: u32)
    ensures
        r as int == counter_of(v@),
{
    let t: Vec<char> = if v.len() > 0 && v[0] == '+' {
        subrange_vec(v, 1, v.len())
    } else {
        subrange_vec(v, 0, v.len())
    };
    proof {
        if v@.len() > 0 && v@[0] == '+' {
            assert(t@ =~= v@.drop_first());
        } else {
            assert(t@ =~= v@);
        }
    }
    if t.len() == 0 {
        return 0;
    }
    let e = crate::text::scan_digits(&t, 0);
    if e != t.len() {
        return 0;
    }
    proof {
        crate::text::lemma_digit_run_end_props(t@, 0);
        assert(t@.subrange(0, 0) =~= Seq::<char>::empty());
    }
    let mut acc: u64 = 0;
    let mut over: bool = false;
    let mut i: usize = 0;
    while i < t.len()
        invariant
            0 <= i <= t@.len(),
            forall|k: int| 0 <= k < t@.len() ==> is_digit(t@[k]),
            !over ==> acc as int == digits_val(t@.subrange(0, i as int)) && acc <= 0xffff_ffff,
            over ==> digits_val(t@.subrange(0, i as int)) > 0xffff_ffff,
        decreases t@.len() - i,
    {
        let c = t[i];
        let d: u64 = (c as u64) - 48;
        proof {
            assert(is_digit(t@[i as int]));
            assert(t@.subrange(0, i + 1).drop_last() == t@.subrange(0, i as int));
            assert(t@.subrange(0, i + 1).last() == t@[i as int]);
            crate::text::lemma_digits_val_nonneg(t@.subrange(0, i as int));
        }
        if over {
        } else {
            let n: u64 = acc * 10 + d;
            if n > 0xffff_ffff {
                over = true;
            } else {
                acc = n;
            }
        }
        i = i + 1;
    }
    proof {
        assert(t@.subrange(0, t@.len() as int) =~= t@);
    }
    if over {
        0
    } else {
        acc as u32
    }
}

/// The row a firehose-feed item region yields: the locator points at a
/// release page, so the download locator is derived from its trailing
/// path segment; quality signals are absent and default.
pub open spec fn sp_item_of(region: Seq<char>) -> Option<SpecRssItem> {
    match field_of(region, "title"@) {
        None => None,
        Some(title) => {
            let link = field_or_empty(region, "link"@);
            let pd = field_or_empty(region, "pubDate"@);
            if has_sub(link, "nyaa.si/view/"@) {
                Some(
                    SpecRssItem {
                        title,
                        torrent_link: "https://nyaa.si/download/"@ + after_last_slash(link)
                            + ".torrent"@,
                        view_url: link,
                        pub_date: pd,
                        info_hash: Seq::empty(),
                        category_id: "1_2"@,
                        size: Seq::empty(),
                        seeders: 0,
                        leechers: 0,
                    },
                )
            } else {
                Some(
                    SpecRssItem {
                        title,
                        torrent_link: link,
                        view_url: link,
                        pub_date: pd,
                        info_hash: Seq::empty(),
                        category_id: "1_2"@,
                        size: Seq::empty(),
                        seeders: 0,
                        leechers: 0,
                    },
                )
            }
        },
    }
}

/// The row a searchable-feed item region yields, with the provider's
/// namespaced quality signals; absent optional fields default to empty
/// or zero.
pub open spec fn nyaa_item_of(region: Seq<char>) -> Option<SpecRssItem> {
    match field_of(region, "title"@) {
        None => None,
        Some(title) => Some(
            SpecRssItem {
                title,
                torrent_link: field_or_empty(region, "link"@),
                view_url: field_or_empty(region, "guid"@),
                pub_date: field_or_empty(region, "pubDate"@),
                info_hash: field_or_empty(region, "nyaa:infoHash"@),
                category_id: field_or_empty(region, "nyaa:categoryId"@),
                size: field_or_empty(region, "nyaa:size"@),
                seeders: counter_of(field_or_empty(region, "nyaa:seeders"@)),
                leechers: counter_of(field_or_empty(region, "nyaa:leechers"@)),
            },
        ),
    }
}

/// The rows of a list of regions, skipping regions without a title.
pub open spec fn sp_items_of(regs: Seq<Seq<char>>) -> Seq<SpecRssItem>
    decreases regs.len(),
{
    if regs.len() == 0 {
        Seq::empty()
    } else {
        sp_items_of(regs.drop_last()) + match sp_item_of(regs.last()) {
            Some(it) => seq![it],
            None => Seq::empty(),
        }
    }
}

/// The rows of a list of regions, skipping regions without a title.
pub open spec fn nyaa_items_of(regs: Seq<Seq<char>>) -> Seq<SpecRssItem>
    decreases regs.len(),
{
    if regs.len() == 0 {
        Seq::empty()
    } else {
        nyaa_items_of(regs.drop_last()) + match nyaa_item_of(regs.last()) {
            Some(it) => seq![it],
            None => Seq::empty(),
        }
    }
}

/// Every row of an executable list carries the specified value.
pub open spec fn rss_items_match(items: Seq<RssItem>, specs: Seq<SpecRssItem>) -> bool {
    items.len() == specs.len() && (forall|k: int|
        0 <= k < items.len() ==> rss_item_matches(#[trigger] items[k], specs[k]))
}

/// Extracts a field as a string, empty when it yields none.
fn field_string(v: &Vec<char>, name: &Vec<char>) -> (r: String)
    requires
        1 <= name@.len(),
    ensures
        r@ == field_or_empty(v@, name@),
{
    match field_of_exec(v, name) {
        Some(t) => string_of(&t),
        None => {
            let empty: Vec<char> = Vec::new();
            proof {
                assert(empty@ =~= Seq::<char>::empty());
            }
            string_of(&empty)
        },
    }
}

/// Builds the row of one firehose-feed item region.
fn build_sp_item(region: &Vec<char>) -> (r: Option<RssItem>)
    ensures
        match sp_item_of(region@) {
            Some(e) => r matches Some(item) && rss_item_matches(item, e),
            None => r is None,
        },
{
    proof {
        reveal_strlit("title");
        reveal_strlit("link");
        reveal_strlit("pubDate");
    }
    let n_title = chars_of("title");
    let title = match field_of_exec(region, &n_title) {
        Some(t) => t,
        None => {
            return None;
        },
    };
    let n_link = chars_of("link");
    let link: Vec<char> = match field_of_exec(region, &n_link) {
        Some(t) => t,
        None => Vec::new(),
    };
    proof {
        assert(link@ == field_or_empty(region@, "link"@));
    }
    let n_pd = chars_of("pubDate");
    let pd = field_string(region, &n_pd);
    let needle = chars_of("nyaa.si/view/");
    let empty: Vec<char> = Vec::new();
    proof {
        assert(empty@ =~= Seq::<char>::empty());
    }
    if crate::text::contains_sub(&link, &needle) {
        let id = after_last_slash_exec(&link);
        let mut t = chars_of("https://nyaa.si/download/");
        push_all(&mut t, &id);
        push_all(&mut t, &chars_of(".torrent"));
        Some(
            RssItem {
                title: string_of(&title),
                torrent_link: string_of(&t),
                view_url: string_of(&link),
                pub_date: pd,
                info_hash: string_of(&empty),
                category_id: "1_2".to_owned(),
                size: string_of(&empty),
                seeders: 0,
                leechers: 0,
            },
        )
    } else {
        Some(
            RssItem {
                title: string_of(&title),
                torrent_link: string_of(&link),
                view_url: string_of(&link),
                pub_date: pd,
                info_hash: string_of(&empty),
                category_id: "1_2".to_owned(),
                size: string_of(&empty),
                seeders: 0,
                leechers: 0,
            },
        )
    }
}

/// Builds the row of one searchable-feed item region.
fn build_nyaa_item(region: &Vec<char>) -> (r: Option<RssItem>)
    ensures
        match nyaa_item_of(region@) {
            Some(e) => r matches Some(item) && rss_item_matches(item, e),
            None => r is None,
        },
{
    proof {
        reveal_strlit("title");
        reveal_strlit("link");
        reveal_strlit("guid");
        reveal_strlit("pubDate");
        reveal_strlit("nyaa:infoHash");
        reveal_strlit("nyaa:categoryId");
        reveal_strlit("nyaa:size");
        reveal_strlit("nyaa:seeders");
        reveal_strlit("nyaa:leechers");
    }
    let n_title = chars_of("title");
    let title = match field_of_exec(region, &n_title) {
        Some(t) => t,
        None => {
            return None;
        },
    };
    let seeders_text: Vec<char> = match field_of_exec(region, &chars_of("nyaa:seeders")) {
        Some(t) => t,
        None => Vec::new(),
    };
    let leechers_text: Vec<char> = match field_of_exec(region, &chars_of("nyaa:leechers")) {
        Some(t) => t,
        None => Vec::new(),
    };
    proof {
        assert(seeders_text@ == field_or_empty(region@, "nyaa:seeders"@));
        assert(leechers_text@ == field_or_empty(region@, "nyaa:leechers"@));
    }
    Some(
        RssItem {
            title: string_of(&title),
            torrent_link: field_string(region, &chars_of("link")),
            view_url: field_string(region, &chars_of("guid")),
            pub_date: field_string(region, &chars_of("pubDate")),
            info_hash: field_string(region, &chars_of("nyaa:infoHash")),
            category_id: field_string(region, &chars_of("nyaa:categoryId")),
            size: field_string(region, &chars_of("nyaa:size")),
            seeders: parse_counter(&seeders_text),
            leechers: parse_counter(&leechers_text),
        },
    )
}

/// Parses a firehose feed document into rows.
///
/// The document is walked for item regions; a region without a title is
/// skipped, and a malformed document — an item tag that never closes —
/// is a parse error that the caller treats as zero items this cycle.
pub fn parse_subsplease_rss_xml(xml: &str) -> (r: Result<Vec<RssItem>, TrackerError>)
    ensures
        match items_spec(xml@, 0) {
            Some(regs) => r matches Ok(items) && rss_items_match(items@, sp_items_of(regs)),
            None => r matches Err(e) && e == TrackerError::Parse,
        },
{
    let v = chars_of(xml);
    let regs = match collect_items(&v, 0) {
        Some(regs) => regs,
        None => {
            return Err(TrackerError::Parse);
        },
    };
    let ghost all = regs@.map_values(|x: Vec<char>| x@);
    proof {
        assert(regions_match(regs@, all));
        assert(all =~= items_spec(v@, 0)->0);
    }
    let mut out: Vec<RssItem> = Vec::new();
    let mut i: usize = 0;
    proof {
        assert(all.subrange(0, 0) =~= Seq::<Seq<char>>::empty());
        assert(out@ =~= Seq::<RssItem>::empty());
    }
    while i < regs.len()
        invariant
            0 <= i <= regs@.len(),
            regions_match(regs@, all),
            rss_items_match(out@, sp_items_of(all.subrange(0, i as int))),
        decreases regs@.len() - i,
    {
        proof {
            assert(all.subrange(0, i + 1).drop_last() =~= all.subrange(0, i as int));
            assert(all.subrange(0, i + 1).last() == all[i as int]);
            assert(regs@[i as int]@ == all[i as int]);
        }
        let ghost prev = out@;
        match build_sp_item(&regs[i]) {
            Some(item) => {
                out.push(item);
                proof {
                    assert(out@ =~= prev.push(out@.last()));
                    assert(sp_items_of(all.subrange(0, i + 1)) =~= sp_items_of(
                        all.subrange(0, i as int),
                    ) + seq![sp_item_of(all[i as int])->0]);
                }
            },
            None => {
                proof {
                    assert(sp_items_of(all.subrange(0, i + 1)) =~= sp_items_of(
                        all.subrange(0, i as int),
                    ));
                }
            },
        }
        i = i + 1;
    }
    proof {
        assert(all.subrange(0, all.len() as int) =~= all);
    }
    Ok(out)
}

/// Parses a searchable feed document into rows.
///
/// Like the firehose shape, but the provider's namespaced quality
/// signals are read too; absent optional fields default.
pub fn parse_rss_xml(xml: &str) -> (r: Result<Vec<RssItem>, TrackerError>)
    ensures
        match items_spec(xml@, 0) {
            Some(regs) => r matches Ok(items) && rss_items_match(items@, nyaa_items_of(regs)),
            None => r matches Err(e) && e == TrackerError::Parse,
        },
{
    let v = chars_of(xml);
    let regs = match collect_items(&v, 0) {
        Some(regs) => regs,
        None => {
            return Err(TrackerError::Parse);
        },
    };
    let ghost all = regs@.map_values(|x: Vec<char>| x@);
    proof {
        assert(regions_match(regs@, all));
        assert(all =~= items_spec(v@, 0)->0);
    }
    let mut out: Vec<RssItem> = Vec::new();
    let mut i: usize = 0;
    proof {
        assert(all.subrange(0, 0) =~= Seq::<Seq<char>>::empty());
        assert(out@ =~= Seq::<RssItem>::empty());
    }
    while i < regs.len()
        invariant
            0 <= i <= regs@.len(),
            regions_match(regs@, all),
            rss_items_match(out@, nyaa_items_of(all.subrange(0, i as int))),
        decreases regs@.len() - i,
    {
        proof {
            assert(all.subrange(0, i + 1).drop_last() =~= all.subrange(0, i as int));
            assert(all.subrange(0, i + 1).last() == all[i as int]);
            assert(regs@[i as int]@ == all[i as int]);
        }
        let ghost prev = out@;
        match build_nyaa_item(&regs[i]) {
            Some(item) => {
                out.push(item);
                proof {
                    assert(out@ =~= prev.push(out@.last()));
                    assert(nyaa_items_of(all.subrange(0, i + 1)) =~= nyaa_items_of(
                        all.subrange(0, i as int),
                    ) + seq![nyaa_item_of(all[i as int])->0]);
                }
            },
            None => {
                proof {
                    assert(nyaa_items_of(all.subrange(0, i + 1)) =~= nyaa_items_of(
                        all.subrange(0, i as int),
                    ));
                }
            },
        }
        i = i + 1;
    }
    proof {
        assert(all.subrange(0, all.len() as int) =~= all);
    }
    Ok(out)
}


/// What urlencoding::encode returns for a string; the result depends on
/// the characters alone.
pub uninterp spec fn url_encoded(s: Seq<char>) -> Seq<char>;

/// Relies on urlencoding::encode: percent-encodes every byte of the
/// UTF-8 form except ASCII letters, digits, `-`, `.`, `_` and `~`.
#[verifier::external_body]
fn url_encode(s: &str) -> (r: String)
    ensures
        r@ == url_encoded(s@),
{
    urlencoding::encode(s).into_owned()
}

/// The magnet locator built from a content fingerprint and a display
/// name.
pub open spec fn spec_magnet_url(info_hash: Seq<char>, title: Seq<char>) -> Seq<char> {
    "magnet:?xt=urn:btih:"@ + info_hash + "&dn="@ + url_encoded(title)
}

/// Builds a magnet locator from a fingerprint and a display name.
pub fn construct_magnet_url(info_hash: &str, title: &str) -> (r: String)
    ensures
        r@ == spec_magnet_url(info_hash@, title@),
{
    let mut cs = chars_of("magnet:?xt=urn:btih:");
    push_all(&mut cs, &chars_of(info_hash));
    push_all(&mut cs, &chars_of("&dn="));
    let encoded = url_encode(title);
    push_all(&mut cs, &chars_of(encoded.as_str()));
    string_of(&cs)
}

/// The rows whose title carries the quality token verbatim.
pub open spec fn quality_filtered(items: Seq<RssItem>, q: Seq<char>) -> Seq<RssItem> {
    items.filter(|it: RssItem| has_sub(it.title@, q))
}

/// The rows a vector of borrows points at.
pub open spec fn deref_items(s: Seq<&RssItem>) -> Seq<RssItem> {
    s.map_values(|x: &RssItem| *x)
}

proof fn lemma_quality_filtered_push(items: Seq<RssItem>, q: Seq<char>, it: RssItem)
    ensures
        quality_filtered(items.push(it), q) == if has_sub(it.title@, q) {
            quality_filtered(items, q).push(it)
        } else {
            quality_filtered(items, q)
        },
{
    reveal(Seq::filter);
    assert(items.push(it).drop_last() =~= items);
    assert(items.push(it).last() == it);
}

/// Keeps the rows whose title mentions the wanted quality, in order.
/// The match is verbatim, as providers write the token into titles.
pub fn filter_by_quality<'a>(items: &'a Vec<RssItem>, quality: &str) -> (r: Vec<&'a RssItem>)
    ensures
        deref_items(r@) == quality_filtered(items@, quality@),
{
    let q = chars_of(quality);
    let mut r: Vec<&'a RssItem> = Vec::new();
    let mut i: usize = 0;
    proof {
        reveal(Seq::filter);
        assert(items@.subrange(0, 0) =~= Seq::<RssItem>::empty());
        assert(deref_items(r@) =~= quality_filtered(items@.subrange(0, 0), quality@));
    }
    while i < items.len()
        invariant
            q@ == quality@,
            0 <= i <= items@.len(),
            deref_items(r@) == quality_filtered(items@.subrange(0, i as int), quality@),
        decreases items@.len() - i,
    {
        proof {
            assert(items@.subrange(0, i + 1) =~= items@.subrange(0, i as int).push(
                items@[i as int],
            ));
            lemma_quality_filtered_push(items@.subrange(0, i as int), quality@, items@[i as int]);
        }
        let it = &items[i];
        let title = chars_of(it.title.as_str());
        let ghost prev = r@;
        if crate::text::contains_sub(&title, &q) {
            r.push(it);
            proof {
                assert(deref_items(r@) =~= deref_items(prev).push(items@[i as int]));
            }
        }
        i = i + 1;
    }
    proof {
        assert(items@.subrange(0, items@.len() as int) =~= items@);
    }
    r
}

/// Converts one feed row into a parsed episode, combining the parsed
/// title metadata with the row's fingerprint and locators; rows whose
/// title no pattern family parses yield nothing.
pub fn rss_item_to_parsed_episode(item: &RssItem) -> (r: Option<ParsedEpisode>)
    ensures
        match crate::episodes::spec_parse_full(item.title@) {
            Some(e) => r matches Some(p) && p.show_title@ == e.show && p.episode as int == e.episode
                && p.quality@ == e.quality && p.info_hash@ == item.info_hash@ && p.torrent_url@
                == item.torrent_link@ && p.magnet_url@ == spec_magnet_url(
                item.info_hash@,
                item.title@,
            ),
            None => r is None,
        },
{
    match crate::episodes::parse_episode_info(item.title.as_str()) {
        Some((show_title, episode, quality)) => {
            let magnet_url = construct_magnet_url(item.info_hash.as_str(), item.title.as_str());
            Some(
                ParsedEpisode {
                    show_title,
                    episode,
                    quality,
                    info_hash: item.info_hash.clone(),
                    torrent_url: item.torrent_link.clone(),
                    magnet_url,
                },
            )
        },
        None => None,
    }
}

/// The canonical fansub source of a release title: the bracket-leading
/// group, with a known group's canonical casing; titles without a group
/// default to the main provider.
pub open spec fn spec_fansub_source(s: Seq<char>) -> Seq<char> {
    if s.len() > 0 && s[0] == '[' && 1 < char_find(s, 1, ']') < s.len() {
        let g = trim_spec(s.subrange(1, char_find(s, 1, ']')));
        if lower(g) == "subsplease"@ {
            "subsplease"@
        } else if lower(g) == "erai-raws"@ {
            "Erai-raws"@
        } else if lower(g) == "horriblesubs"@ {
            "horriblesubs"@
        } else if lower(g) == "judas"@ {
            "judas"@
        } else if lower(g) == "yameii"@ {
            "yameii"@
        } else if lower(g) == "ember"@ {
            "ember"@
        } else if lower(g) == "asm"@ {
            "asm"@
        } else {
            g
        }
    } else {
        "subsplease"@
    }
}

/// Detects the fansub group of a release title.
pub fn detect_fansub_source(title: &str) -> (r: String)
    ensures
        r@ == spec_fansub_source(title@),
{
    let v = chars_of(title);
    if v.len() == 0 || v[0] != '[' {
        return "subsplease".to_owned();
    }
    let rb = find_char(&v, 1, ']');
    if rb == v.len() || rb <= 1 {
        return "subsplease".to_owned();
    }
    let g = trim(&subrange_vec(&v, 1, rb));
    let l = to_lower(&g);
    if chars_eq(&l, &chars_of("subsplease")) {
        "subsplease".to_owned()
    } else if chars_eq(&l, &chars_of("erai-raws")) {
        "Erai-raws".to_owned()
    } else if chars_eq(&l, &chars_of("horriblesubs")) {
        "horriblesubs".to_owned()
    } else if chars_eq(&l, &chars_of("judas")) {
        "judas".to_owned()
    } else if chars_eq(&l, &chars_of("yameii")) {
        "yameii".to_owned()
    } else if chars_eq(&l, &chars_of("ember")) {
        "ember".to_owned()
    } else if chars_eq(&l, &chars_of("asm")) {
        "asm".to_owned()
    } else {
        string_of(&g)
    }
}


/// The firehose rows whose title mentions the show, case-insensitively.
pub open spec fn title_filtered(items: Seq<RssItem>, show: Seq<char>) -> Seq<RssItem> {
    items.filter(|it: RssItem| has_sub(lower(it.title@), lower(show)))
}

proof fn lemma_title_filtered_push(items: Seq<RssItem>, show: Seq<char>, it: RssItem)
    ensures
        title_filtered(items.push(it), show) == if has_sub(lower(it.title@), lower(show)) {
            title_filtered(items, show).push(it)
        } else {
            title_filtered(items, show)
        },
{
    reveal(Seq::filter);
    assert(items.push(it).drop_last() =~= items);
    assert(items.push(it).last() == it);
}

/// Client-side filtering of the firehose feed: keeps the rows whose
/// title contains the show's search title, case-insensitively.
pub fn filter_items_by_title(items: Vec<RssItem>, show: &str) -> (r: Vec<RssItem>)
    ensures
        r@ == title_filtered(items@, show@),
{
    let needle = to_lower(&chars_of(show));
    let ghost orig = items@;
    let mut rest = items;
    let ghost mut i: int = 0;
    let mut out: Vec<RssItem> = Vec::new();
    proof {
        reveal(Seq::filter);
        assert(orig.subrange(0, 0) =~= Seq::<RssItem>::empty());
        assert(out@ =~= title_filtered(orig.subrange(0, 0), show@));
    }
    while rest.len() > 0
        invariant
            needle@ == lower(show@),
            0 <= i <= orig.len(),
            rest@ == orig.subrange(i, orig.len() as int),
            out@ == title_filtered(orig.subrange(0, i), show@),
        decreases rest@.len(),
    {
        let it = rest.remove(0);
        proof {
            assert(it == orig[i]);
            assert(rest@ =~= orig.subrange(i + 1, orig.len() as int));
            assert(orig.subrange(0, i + 1) =~= orig.subrange(0, i).push(it));
            lemma_title_filtered_push(orig.subrange(0, i), show@, it);
        }
        let title = to_lower(&chars_of(it.title.as_str()));
        if crate::text::contains_sub(&title, &needle) {
            out.push(it);
        }
        proof {
            i = i + 1;
        }
    }
    proof {
        assert(orig.subrange(0, orig.len() as int) =~= orig);
    }
    out
}

} // verus!
