//! Season number detection from entity titles.
//!
//! When an entity's season metadata is established, a more exhaustive
//! cascade than the per-release episode parser runs over the display
//! title: an `S<N>` prefix, a spelled season word, an ordinal season,
//! `Part <N>` in Arabic or Roman numerals, `Cour <N>`, a trailing Roman
//! numeral of two or more, and finally a trailing single digit behind a
//! separator. The first pattern that yields a season wins; nothing
//! matching means season one. A lone trailing `I` is deliberately not
//! taken as a season: too many titles end in `I` as part of a name.

use vstd::prelude::*;
use crate::text::{
    chars_eq, chars_of, digit_run_end, digit_val, digits_val, is_digit, is_digit_exec, is_space,
    is_space_exec, is_word_char, is_word_char_exec, lemma_digit_run_end_props,
    lemma_digits_val_nonneg, lemma_trailing_spaces_at, lower, lower_char, lower_char_exec, parse_u16,
    push_all, remove_all, remove_all_spec, scan_digits, scan_spaces, space_run_end, string_of,
    subrange_vec, to_lower, trailing_spaces, trim, trim_spec,
};

verus! {

/// Result of season detection: the season, the text that matched, and
/// the title with the season marker removed.
#[derive(Debug, Clone, PartialEq)]
pub struct SeasonInfo {
    pub season: u8,
    pub matched_pattern: Option<String>,
    pub clean_title: Option<String>,
}

impl Default for SeasonInfo {
    /// Season one, nothing matched.
    fn default() -> (r: Self)
        ensures
            r.season == 1,
            r.matched_pattern is None,
            r.clean_title is None,
    {
        SeasonInfo { season: 1, matched_pattern: None, clean_title: None }
    }
}

/// The mathematical value of a detection.
pub ghost struct SpecSeason {
    pub season: int,
    pub matched: Option<Seq<char>>,
    pub clean: Option<Seq<char>>,
}

/// An executable result carries exactly a specified value.
pub open spec fn season_info_matches(info: SeasonInfo, e: SpecSeason) -> bool {
    &&& info.season as int == e.season
    &&& match e.matched {
        Some(m) => info.matched_pattern matches Some(x) && x@ == m,
        None => info.matched_pattern is None,
    }
    &&& match e.clean {
        Some(c) => info.clean_title matches Some(x) && x@ == c,
        None => info.clean_title is None,
    }
}

/// The separator a season word may carry before its number.
pub open spec fn is_sep_char(c: char) -> bool {
    c == '-' || c == '_' || c == '.' || is_space(c)
}

/// A word boundary lies just before position `i`.
pub open spec fn bnd_before(s: Seq<char>, i: int) -> bool {
    i == 0 || !is_word_char(s[i - 1])
}

/// A word boundary lies just after position `k - 1`.
pub open spec fn bnd_after(s: Seq<char>, k: int) -> bool {
    k == s.len() || !is_word_char(s[k])
}

/// The lowercase word `w` occurs at `i`, compared case-insensitively.
pub open spec fn word_ci_at(s: Seq<char>, i: int, w: Seq<char>) -> bool {
    &&& 0 <= i
    &&& i + w.len() <= s.len()
    &&& forall|k: int| 0 <= k < w.len() ==> lower_char(s[i + k]) == w[k]
}

/// A season number of one or two digits with a word boundary after it
/// starts at `k`.
pub open spec fn two_digits_at(s: Seq<char>, k: int) -> bool {
    &&& 0 <= k <= s.len()
    &&& {
        let d = digit_run_end(s, k);
        &&& d > k
        &&& d - k <= 2
        &&& bnd_after(s, d)
    }
}

/// The `word [sep] <digits>` shape with the separator present.
pub open spec fn word_num_sep(s: Seq<char>, i: int, w: Seq<char>) -> bool {
    let j = i + w.len();
    j < s.len() && is_sep_char(s[j]) && two_digits_at(s, j + 1)
}

/// The `word [sep] <digits>` shape starts at `i`.
pub open spec fn word_num_at(s: Seq<char>, i: int, w: Seq<char>) -> bool {
    &&& bnd_before(s, i)
    &&& word_ci_at(s, i, w)
    &&& (word_num_sep(s, i, w) || two_digits_at(s, i + w.len()))
}

/// Where the digits of a `word [sep] <digits>` match start.
pub open spec fn word_num_dstart(s: Seq<char>, i: int, w: Seq<char>) -> int {
    if word_num_sep(s, i, w) {
        i + w.len() + 1
    } else {
        i + w.len()
    }
}

/// First position at or after `i` where the `word [sep] <digits>` shape
/// starts; the length of `s` when there is none.
pub open spec fn word_num_find(s: Seq<char>, i: int, w: Seq<char>) -> int
    decreases s.len() - i,
    when 0 <= i <= s.len()
{
    if i >= s.len() {
        i
    } else if word_num_at(s, i, w) {
        i
    } else {
        word_num_find(s, i + 1, w)
    }
}

/// The detection a `word [sep] <digits>` match yields: the matched text
/// runs from the word through the digits, and every occurrence of it is
/// removed from the clean title.
pub open spec fn word_num_value(s: Seq<char>, w: Seq<char>) -> SpecSeason {
    let i = word_num_find(s, 0, w);
    let ds = word_num_dstart(s, i, w);
    let de = digit_run_end(s, ds);
    let m = s.subrange(i, de);
    SpecSeason {
        season: digits_val(s.subrange(ds, de)),
        matched: Some(m),
        clean: Some(trim_spec(remove_all_spec(s, m))),
    }
}

/// The `S<N>` prefix shape starts at `i`.
pub open spec fn sp_at(s: Seq<char>, i: int) -> bool {
    &&& 0 <= i < s.len()
    &&& bnd_before(s, i)
    &&& (s[i] == 'S' || s[i] == 's')
    &&& two_digits_at(s, i + 1)
}

pub open spec fn sp_find(s: Seq<char>, i: int) -> int
    decreases s.len() - i,
    when 0 <= i <= s.len()
{
    if i >= s.len() {
        i
    } else if sp_at(s, i) {
        i
    } else {
        sp_find(s, i + 1)
    }
}

/// The detection an `S<N>` match yields: the reported pattern is a
/// capital `S` with the digits as written, and only the first occurrence
/// leaves the clean title.
pub open spec fn sp_value(s: Seq<char>) -> SpecSeason {
    let i = sp_find(s, 0);
    let d = digit_run_end(s, i + 1);
    SpecSeason {
        season: digits_val(s.subrange(i + 1, d)),
        matched: Some(seq!['S'] + s.subrange(i + 1, d)),
        clean: Some(trim_spec(s.subrange(0, i) + s.subrange(d, s.len() as int))),
    }
}

/// Any of the spelled season words starts a `word [sep] <digits>` shape
/// at `i`.
pub open spec fn spelled_at(s: Seq<char>, i: int) -> bool {
    ||| word_num_at(s, i, "season"@)
    ||| word_num_at(s, i, "saison"@)
    ||| word_num_at(s, i, "series"@)
    ||| word_num_at(s, i, "stagione"@)
}

/// The word that matched at `i`.
pub open spec fn spelled_word(s: Seq<char>, i: int) -> Seq<char> {
    if word_num_at(s, i, "season"@) {
        "season"@
    } else if word_num_at(s, i, "saison"@) {
        "saison"@
    } else if word_num_at(s, i, "series"@) {
        "series"@
    } else {
        "stagione"@
    }
}

pub open spec fn spelled_find(s: Seq<char>, i: int) -> int
    decreases s.len() - i,
    when 0 <= i <= s.len()
{
    if i >= s.len() {
        i
    } else if spelled_at(s, i) {
        i
    } else {
        spelled_find(s, i + 1)
    }
}

/// The detection a spelled season match yields.
pub open spec fn spelled_value(s: Seq<char>) -> SpecSeason {
    let i = spelled_find(s, 0);
    let w = spelled_word(s, i);
    let ds = word_num_dstart(s, i, w);
    let de = digit_run_end(s, ds);
    let m = s.subrange(i, de);
    SpecSeason {
        season: digits_val(s.subrange(ds, de)),
        matched: Some(m),
        clean: Some(trim_spec(remove_all_spec(s, m))),
    }
}

/// A case-insensitive ordinal suffix starts at `k`.
pub open spec fn ord_suffix_ci_at(s: Seq<char>, k: int) -> bool {
    &&& 0 <= k
    &&& k + 2 <= s.len()
    &&& {
        let a = lower_char(s[k]);
        let b = lower_char(s[k + 1]);
        (a == 's' && b == 't') || (a == 'n' && b == 'd') || (a == 'r' && b == 'd') || (a == 't'
            && b == 'h')
    }
}

/// The `<n>st/nd/rd/th [Season|Cour]` shape starts at `i`.
pub open spec fn ord_at(s: Seq<char>, i: int) -> bool {
    &&& 0 <= i <= s.len()
    &&& bnd_before(s, i)
    &&& {
        let d = digit_run_end(s, i);
        &&& d > i
        &&& d - i <= 2
        &&& ord_suffix_ci_at(s, d)
        &&& ord_tail_ok(s, d + 2)
    }
}

/// What may follow the ordinal suffix: an optional season word with a
/// boundary, or a boundary right after the suffix or its whitespace.
pub open spec fn ord_tail_ok(s: Seq<char>, j0: int) -> bool {
    let w2 = space_run_end(s, j0);
    ||| (word_ci_at(s, w2, "season"@) && bnd_after(s, w2 + 6))
    ||| (word_ci_at(s, w2, "cour"@) && bnd_after(s, w2 + 4))
    ||| w2 > j0
    ||| bnd_after(s, j0)
}

/// Where an ordinal match ends: through the season word when one
/// follows, through the whitespace when a word character follows it,
/// else right after the suffix.
pub open spec fn ord_end(s: Seq<char>, j0: int) -> int {
    let w2 = space_run_end(s, j0);
    if word_ci_at(s, w2, "season"@) && bnd_after(s, w2 + 6) {
        w2 + 6
    } else if word_ci_at(s, w2, "cour"@) && bnd_after(s, w2 + 4) {
        w2 + 4
    } else if w2 > j0 && w2 < s.len() && is_word_char(s[w2]) {
        w2
    } else {
        j0
    }
}

pub open spec fn ord_find(s: Seq<char>, i: int) -> int
    decreases s.len() - i,
    when 0 <= i <= s.len()
{
    if i >= s.len() {
        i
    } else if ord_at(s, i) {
        i
    } else {
        ord_find(s, i + 1)
    }
}

/// The detection an ordinal match yields.
pub open spec fn ord_value(s: Seq<char>) -> SpecSeason {
    let i = ord_find(s, 0);
    let d = digit_run_end(s, i);
    let m = s.subrange(i, ord_end(s, d + 2));
    SpecSeason {
        season: digits_val(s.subrange(i, d)),
        matched: Some(m),
        clean: Some(trim_spec(remove_all_spec(s, m))),
    }
}

/// The value of one Roman numeral up to ten, compared on the lowercased
/// text; anything else has none.
pub open spec fn roman_table(t: Seq<char>) -> Option<int> {
    if t == "i"@ {
        Some(1)
    } else if t == "ii"@ {
        Some(2)
    } else if t == "iii"@ {
        Some(3)
    } else if t == "iv"@ {
        Some(4)
    } else if t == "v"@ {
        Some(5)
    } else if t == "vi"@ {
        Some(6)
    } else if t == "vii"@ {
        Some(7)
    } else if t == "viii"@ {
        Some(8)
    } else if t == "ix"@ {
        Some(9)
    } else if t == "x"@ {
        Some(10)
    } else {
        None
    }
}

/// One candidate of the Part-with-Roman-numeral shape: the lowercase
/// numeral occurs case-insensitively at `k` with a boundary after it.
pub open spec fn cand_at(s: Seq<char>, k: int, w: Seq<char>) -> bool {
    word_ci_at(s, k, w) && bnd_after(s, k + w.len())
}

/// A Roman numeral candidate in the order the alternation tries them.
pub open spec fn proman_cand_ok(s: Seq<char>, k: int) -> bool {
    ||| cand_at(s, k, "iii"@)
    ||| cand_at(s, k, "ii"@)
    ||| cand_at(s, k, "i"@)
    ||| cand_at(s, k, "iv"@)
    ||| cand_at(s, k, "viii"@)
    ||| cand_at(s, k, "vii"@)
    ||| cand_at(s, k, "vi"@)
    ||| cand_at(s, k, "v"@)
    ||| cand_at(s, k, "ix"@)
    ||| cand_at(s, k, "x"@)
}

/// The numeral the alternation picks at `k`.
pub open spec fn proman_cand(s: Seq<char>, k: int) -> Seq<char> {
    if cand_at(s, k, "iii"@) {
        "iii"@
    } else if cand_at(s, k, "ii"@) {
        "ii"@
    } else if cand_at(s, k, "i"@) {
        "i"@
    } else if cand_at(s, k, "iv"@) {
        "iv"@
    } else if cand_at(s, k, "viii"@) {
        "viii"@
    } else if cand_at(s, k, "vii"@) {
        "vii"@
    } else if cand_at(s, k, "vi"@) {
        "vi"@
    } else if cand_at(s, k, "v"@) {
        "v"@
    } else if cand_at(s, k, "ix"@) {
        "ix"@
    } else {
        "x"@
    }
}

/// The `Part <roman>` shape starts at `i`.
pub open spec fn proman_at(s: Seq<char>, i: int) -> bool {
    &&& bnd_before(s, i)
    &&& word_ci_at(s, i, "part"@)
    &&& {
        let j = i + 4;
        (j < s.len() && is_sep_char(s[j]) && proman_cand_ok(s, j + 1)) || proman_cand_ok(s, j)
    }
}

/// Where the Roman numeral of a `Part <roman>` match starts.
pub open spec fn proman_kstart(s: Seq<char>, i: int) -> int {
    let j = i + 4;
    if j < s.len() && is_sep_char(s[j]) && proman_cand_ok(s, j + 1) {
        j + 1
    } else {
        j
    }
}

pub open spec fn proman_find(s: Seq<char>, i: int) -> int
    decreases s.len() - i,
    when 0 <= i <= s.len()
{
    if i >= s.len() {
        i
    } else if proman_at(s, i) {
        i
    } else {
        proman_find(s, i + 1)
    }
}

/// The detection a `Part <roman>` match yields.
pub open spec fn proman_value(s: Seq<char>) -> SpecSeason {
    let i = proman_find(s, 0);
    let k = proman_kstart(s, i);
    let c = proman_cand(s, k);
    let m = s.subrange(i, k + c.len());
    SpecSeason {
        season: roman_table(c)->0,
        matched: Some(m),
        clean: Some(trim_spec(remove_all_spec(s, m))),
    }
}

/// A trailing Roman numeral in the shape the end-of-title pattern
/// accepts, written in capitals.
pub open spec fn roman_end_pat(t: Seq<char>) -> bool {
    ||| t == "I"@
    ||| t == "II"@
    ||| t == "III"@
    ||| t == "IV"@
    ||| t == "VI"@
    ||| t == "VII"@
    ||| t == "VIII"@
    ||| t == "IX"@
    ||| t == "XI"@
    ||| t == "XII"@
    ||| t == "XIII"@
    ||| t == "XIV"@
    ||| t == "XVI"@
    ||| t == "XVII"@
    ||| t == "XVIII"@
    ||| t == "XIX"@
}

/// Where the title's content ends, trailing whitespace excluded.
pub open spec fn t_end(s: Seq<char>) -> int {
    s.len() - trailing_spaces(s)
}

/// Start of the longest trailing Roman numeral match, or -1.
pub open spec fn roman_end_start(s: Seq<char>) -> int {
    let e = t_end(s);
    if e - 5 >= 0 && bnd_before(s, e - 5) && roman_end_pat(s.subrange(e - 5, e)) {
        e - 5
    } else if e - 4 >= 0 && bnd_before(s, e - 4) && roman_end_pat(s.subrange(e - 4, e)) {
        e - 4
    } else if e - 3 >= 0 && bnd_before(s, e - 3) && roman_end_pat(s.subrange(e - 3, e)) {
        e - 3
    } else if e - 2 >= 0 && bnd_before(s, e - 2) && roman_end_pat(s.subrange(e - 2, e)) {
        e - 2
    } else if e - 1 >= 0 && bnd_before(s, e - 1) && roman_end_pat(s.subrange(e - 1, e)) {
        e - 1
    } else {
        -1
    }
}

/// The trailing Roman numeral detector yields a season only for values
/// of two or more; a lone `I` and numerals past ten yield nothing.
pub open spec fn roman_end_fires(s: Seq<char>) -> bool {
    let k = roman_end_start(s);
    &&& k >= 0
    &&& (roman_table(lower(s.subrange(k, t_end(s)))) matches Some(v) && v > 1)
}

/// The detection a trailing Roman numeral yields: everything from the
/// numeral on is removed from the clean title.
pub open spec fn roman_end_value(s: Seq<char>) -> SpecSeason {
    let k = roman_end_start(s);
    let m = s.subrange(k, t_end(s));
    SpecSeason {
        season: roman_table(lower(m))->0,
        matched: Some(m),
        clean: Some(trim_spec(s.subrange(0, k))),
    }
}

/// Start of the whitespace run that ends just before position `m`.
pub open spec fn back_spaces(s: Seq<char>, m: int) -> int
    decreases m,
    when 0 <= m <= s.len()
{
    if m > 0 && is_space(s[m - 1]) {
        back_spaces(s, m - 1)
    } else {
        m
    }
}

/// The trailing single-digit detector: one digit at the very end, behind
/// a dash or colon with optional whitespace, or behind whitespace alone.
pub open spec fn trailing_num_ok(s: Seq<char>) -> bool {
    let e = t_end(s);
    &&& e >= 1
    &&& is_digit(s[e - 1])
    &&& {
        let b = back_spaces(s, e - 1);
        (b > 0 && (s[b - 1] == '-' || s[b - 1] == ':')) || b < e - 1
    }
}

/// Where a trailing single-digit match starts.
pub open spec fn trailing_num_start(s: Seq<char>) -> int {
    let e = t_end(s);
    let b = back_spaces(s, e - 1);
    if b > 0 && (s[b - 1] == '-' || s[b - 1] == ':') {
        b - 1
    } else {
        b
    }
}

/// The detector yields a season only for digits one through nine.
pub open spec fn trailing_fires(s: Seq<char>) -> bool {
    trailing_num_ok(s) && 1 <= crate::text::digit_val(s[t_end(s) - 1]) <= 9
}

/// The detection a trailing digit yields: the reported pattern names the
/// digit, and the matched text, separator and trailing whitespace
/// included, is removed everywhere.
pub open spec fn trailing_value(s: Seq<char>) -> SpecSeason {
    let e = t_end(s);
    let m = s.subrange(trailing_num_start(s), s.len() as int);
    SpecSeason {
        season: crate::text::digit_val(s[e - 1]),
        matched: Some("trailing "@ + seq![s[e - 1]]),
        clean: Some(trim_spec(remove_all_spec(s, m))),
    }
}

proof fn lemma_digits_val_le2(s: Seq<char>)
    requires
        s.len() <= 2,
        forall|k: int| 0 <= k < s.len() ==> is_digit(s[k]),
    ensures
        0 <= digits_val(s) <= 99,
{
    lemma_digits_val_nonneg(s);
    if s.len() == 1 {
        assert(digits_val(s.drop_last()) == 0);
        assert(is_digit(s.last()));
    } else if s.len() == 2 {
        let t = s.drop_last();
        assert(is_digit(t[0]));
        assert(is_digit(s.last()));
        assert(t.drop_last().len() == 0);
        assert(digits_val(t.drop_last()) == 0);
        assert(digits_val(t) == digit_val(t.last()));
        assert(digits_val(t) <= 9);
    }
}

/// Word-boundary test before position `i`.
fn bnd_before_exec(v: &Vec<char>, i: usize) -> (r: bool)
    requires
        i <= v@.len(),
    ensures
        r == bnd_before(v@, i as int),
{
    i == 0 || !is_word_char_exec(v[i - 1])
}

/// Word-boundary test after position `k - 1`.
fn bnd_after_exec(v: &Vec<char>, k: usize) -> (r: bool)
    requires
        k <= v@.len(),
    ensures
        r == bnd_after(v@, k as int),
{
    k == v.len() || !is_word_char_exec(v[k])
}

/// Separator test on one character.
fn is_sep_exec(c: char) -> (r: bool)
    ensures
        r == is_sep_char(c),
{
    c == '-' || c == '_' || c == '.' || is_space_exec(c)
}

/// Case-insensitive test for the lowercase word `w` at `i`.
fn word_ci_exec(v: &Vec<char>, i: usize, w: &Vec<char>) -> (r: bool)
    requires
        i <= v@.len(),
    ensures
        r == word_ci_at(v@, i as int, w@),
{
    if v.len() - i < w.len() {
        return false;
    }
    proof {
        assert(v@.len() == v.len());
    }
    let mut k: usize = 0;
    while k < w.len()
        invariant
            0 <= k <= w@.len(),
            i + w@.len() <= v@.len(),
            v@.len() <= usize::MAX,
            forall|j: int| 0 <= j < k ==> lower_char(v@[i + j]) == w@[j],
        decreases w@.len() - k,
    {
        if lower_char_exec(v[i + k]) != w[k] {
            return false;
        }
        k = k + 1;
    }
    true
}

/// A one-or-two-digit number with a boundary after it starts at `k`.
fn two_digits_exec(v: &Vec<char>, k: usize) -> (r: bool)
    requires
        k <= v@.len(),
    ensures
        r == two_digits_at(v@, k as int),
{
    let d = scan_digits(v, k);
    d > k && d - k <= 2 && bnd_after_exec(v, d)
}

/// The `word [sep] <digits>` shape starts at `i`.
fn word_num_at_exec(v: &Vec<char>, i: usize, w: &Vec<char>) -> (r: bool)
    requires
        i <= v@.len(),
    ensures
        r == word_num_at(v@, i as int, w@),
{
    if !bnd_before_exec(v, i) {
        return false;
    }
    if !word_ci_exec(v, i, w) {
        return false;
    }
    proof {
        assert(v@.len() == v.len());
    }
    let j = i + w.len();
    if j < v.len() && is_sep_exec(v[j]) && two_digits_exec(v, j + 1) {
        true
    } else {
        two_digits_exec(v, j)
    }
}

/// Builds the detection of a `word [sep] <digits>` match at `p`.
fn word_num_build(v: &Vec<char>, p: usize, w: &Vec<char>) -> (r: SeasonInfo)
    requires
        p <= v@.len(),
        1 <= w@.len(),
        word_num_at(v@, p as int, w@),
    ensures
        ({
            let s = v@;
            let ds = word_num_dstart(s, p as int, w@);
            let de = digit_run_end(s, ds);
            let m = s.subrange(p as int, de);
            season_info_matches(
                r,
                SpecSeason {
                    season: digits_val(s.subrange(ds, de)),
                    matched: Some(m),
                    clean: Some(trim_spec(remove_all_spec(s, m))),
                },
            )
        }),
{
    proof {
        assert(v@.len() == v.len());
    }
    let j = p + w.len();
    let sep_case = j < v.len() && is_sep_exec(v[j]) && two_digits_exec(v, j + 1);
    let ds: usize = if sep_case {
        j + 1
    } else {
        j
    };
    proof {
        assert(ds as int == word_num_dstart(v@, p as int, w@));
        assert(two_digits_at(v@, ds as int));
    }
    let de = scan_digits(v, ds);
    proof {
        lemma_digit_run_end_props(v@, ds as int);
        lemma_digits_val_le2(v@.subrange(ds as int, de as int));
    }
    let num: u16 = match parse_u16(v, ds, de) {
        Some(x) => x,
        None => {
            proof {
                assert(false);
            }
            0
        },
    };
    let m = subrange_vec(v, p, de);
    let cleaned = trim(&remove_all(v, &m));
    SeasonInfo {
        season: num as u8,
        matched_pattern: Some(string_of(&m)),
        clean_title: Some(string_of(&cleaned)),
    }
}

/// Scans for the first `word [sep] <digits>` match.
fn det_word_num(v: &Vec<char>, w: &Vec<char>) -> (r: Option<SeasonInfo>)
    requires
        1 <= w@.len(),
    ensures
        match r {
            None => word_num_find(v@, 0, w@) == v@.len(),
            Some(info) => word_num_find(v@, 0, w@) < v@.len() && season_info_matches(info, word_num_value(v@, w@)),
        },
{
    let mut p: usize = 0;
    while p < v.len()
        invariant
            1 <= w@.len(),
            0 <= p <= v@.len(),
            word_num_find(v@, 0, w@) == word_num_find(v@, p as int, w@),
        decreases v@.len() - p,
    {
        if word_num_at_exec(v, p, w) {
            return Some(word_num_build(v, p, w));
        }
        p = p + 1;
    }
    None
}

/// Scans for the `S<N>` prefix.
fn det_s_prefix(v: &Vec<char>) -> (r: Option<SeasonInfo>)
    ensures
        match r {
            None => sp_find(v@, 0) == v@.len(),
            Some(info) => sp_find(v@, 0) < v@.len() && season_info_matches(info, sp_value(v@)),
        },
{
    let mut p: usize = 0;
    while p < v.len()
        invariant
            0 <= p <= v@.len(),
            sp_find(v@, 0) == sp_find(v@, p as int),
        decreases v@.len() - p,
    {
        if bnd_before_exec(v, p) && (v[p] == 'S' || v[p] == 's') && two_digits_exec(v, p + 1) {
            proof {
                assert(sp_at(v@, p as int));
            }
            let d = scan_digits(v, p + 1);
            proof {
                lemma_digit_run_end_props(v@, p + 1);
                lemma_digits_val_le2(v@.subrange(p + 1, d as int));
            }
            let num: u16 = match parse_u16(v, p + 1, d) {
                Some(x) => x,
                None => {
                    proof {
                        assert(false);
                    }
                    0
                },
            };
            let mut m: Vec<char> = Vec::new();
            m.push('S');
            push_all(&mut m, &subrange_vec(v, p + 1, d));
            let mut c = subrange_vec(v, 0, p);
            push_all(&mut c, &subrange_vec(v, d, v.len()));
            let cleaned = trim(&c);
            proof {
                assert(m@ =~= seq!['S'] + v@.subrange(p + 1, d as int));
            }
            return Some(
                SeasonInfo {
                    season: num as u8,
                    matched_pattern: Some(string_of(&m)),
                    clean_title: Some(string_of(&cleaned)),
                },
            );
        }
        proof {
            assert(!sp_at(v@, p as int));
        }
        p = p + 1;
    }
    None
}

/// Scans for a spelled season word.
fn det_spelled(v: &Vec<char>) -> (r: Option<SeasonInfo>)
    ensures
        match r {
            None => spelled_find(v@, 0) == v@.len(),
            Some(info) => spelled_find(v@, 0) < v@.len() && season_info_matches(info, spelled_value(v@)),
        },
{
    let w_season = chars_of("season");
    let w_saison = chars_of("saison");
    let w_series = chars_of("series");
    let w_stagione = chars_of("stagione");
    let mut p: usize = 0;
    while p < v.len()
        invariant
            w_season@ == "season"@,
            w_saison@ == "saison"@,
            w_series@ == "series"@,
            w_stagione@ == "stagione"@,
            0 <= p <= v@.len(),
            spelled_find(v@, 0) == spelled_find(v@, p as int),
        decreases v@.len() - p,
    {
        proof {
            reveal_strlit("season");
            reveal_strlit("saison");
            reveal_strlit("series");
            reveal_strlit("stagione");
        }
        if word_num_at_exec(v, p, &w_season) {
            return Some(word_num_build(v, p, &w_season));
        }
        if word_num_at_exec(v, p, &w_saison) {
            return Some(word_num_build(v, p, &w_saison));
        }
        if word_num_at_exec(v, p, &w_series) {
            return Some(word_num_build(v, p, &w_series));
        }
        if word_num_at_exec(v, p, &w_stagione) {
            return Some(word_num_build(v, p, &w_stagione));
        }
        proof {
            assert(!spelled_at(v@, p as int));
        }
        p = p + 1;
    }
    None
}

/// Scans for an ordinal season marker.
fn det_ordinal(v: &Vec<char>) -> (r: Option<SeasonInfo>)
    ensures
        match r {
            None => ord_find(v@, 0) == v@.len(),
            Some(info) => ord_find(v@, 0) < v@.len() && season_info_matches(info, ord_value(v@)),
        },
{
    let w_season = chars_of("season");
    let w_cour = chars_of("cour");
    let mut p: usize = 0;
    while p < v.len()
        invariant
            w_season@ == "season"@,
            w_cour@ == "cour"@,
            0 <= p <= v@.len(),
            ord_find(v@, 0) == ord_find(v@, p as int),
        decreases v@.len() - p,
    {
        if bnd_before_exec(v, p) {
            let d = scan_digits(v, p);
            if d > p && d - p <= 2 && ord_suffix_ci_exec(v, d) {
                proof {
                    reveal_strlit("season");
                    reveal_strlit("cour");
                }
                let j0 = d + 2;
                let w2 = scan_spaces(v, j0);
                let mut end: usize = 0;
                let mut found = false;
                if word_ci_exec(v, w2, &w_season) && bnd_after_exec(v, w2 + 6) {
                    end = w2 + 6;
                    found = true;
                } else if word_ci_exec(v, w2, &w_cour) && bnd_after_exec(v, w2 + 4) {
                    end = w2 + 4;
                    found = true;
                } else if w2 > j0 && w2 < v.len() && is_word_char_exec(v[w2]) {
                    end = w2;
                    found = true;
                } else if w2 > j0 || bnd_after_exec(v, j0) {
                    end = j0;
                    found = true;
                }
                if found {
                    proof {
                        assert(ord_at(v@, p as int));
                        assert(end as int == ord_end(v@, j0 as int));
                        lemma_digit_run_end_props(v@, p as int);
                        lemma_digits_val_le2(v@.subrange(p as int, d as int));
                    }
                    let num: u16 = match parse_u16(v, p, d) {
                        Some(x) => x,
                        None => {
                            proof {
                                assert(false);
                            }
                            0
                        },
                    };
                    let m = subrange_vec(v, p, end);
                    let cleaned = trim(&remove_all(v, &m));
                    return Some(
                        SeasonInfo {
                            season: num as u8,
                            matched_pattern: Some(string_of(&m)),
                            clean_title: Some(string_of(&cleaned)),
                        },
                    );
                }
            }
        }
        proof {
            assert(!ord_at(v@, p as int));
        }
        p = p + 1;
    }
    None
}

/// Case-insensitive ordinal suffix test at `k`.
fn ord_suffix_ci_exec(v: &Vec<char>, k: usize) -> (r: bool)
    requires
        k <= v@.len(),
    ensures
        r == ord_suffix_ci_at(v@, k as int),
{
    if v.len() - k >= 2 {
        let a = lower_char_exec(v[k]);
        let b = lower_char_exec(v[k + 1]);
        (a == 's' && b == 't') || (a == 'n' && b == 'd') || (a == 'r' && b == 'd') || (a == 't' && b
            == 'h')
    } else {
        false
    }
}

/// Picks the Roman numeral candidate at `k`, in alternation order.
fn proman_cand_exec(v: &Vec<char>, k: usize) -> (r: Option<(usize, u8)>)
    requires
        k <= v@.len(),
    ensures
        match r {
            Some(lv) => proman_cand_ok(v@, k as int) && lv.0 as int == proman_cand(
                v@,
                k as int,
            ).len() && roman_table(proman_cand(v@, k as int)) == Some(lv.1 as int),
            None => !proman_cand_ok(v@, k as int),
        },
{
    proof {
        reveal_strlit("iii");
        reveal_strlit("ii");
        reveal_strlit("i");
        reveal_strlit("iv");
        reveal_strlit("viii");
        reveal_strlit("vii");
        reveal_strlit("vi");
        reveal_strlit("v");
        reveal_strlit("ix");
        reveal_strlit("x");
        assert(v@.len() == v.len());
    }
    let c0 = chars_of("iii");
    if word_ci_exec(v, k, &c0) && bnd_after_exec(v, k + c0.len()) {
        return Some((3, 3));
    }
    let c1 = chars_of("ii");
    if word_ci_exec(v, k, &c1) && bnd_after_exec(v, k + c1.len()) {
        return Some((2, 2));
    }
    let c2 = chars_of("i");
    if word_ci_exec(v, k, &c2) && bnd_after_exec(v, k + c2.len()) {
        return Some((1, 1));
    }
    let c3 = chars_of("iv");
    if word_ci_exec(v, k, &c3) && bnd_after_exec(v, k + c3.len()) {
        return Some((2, 4));
    }
    let c4 = chars_of("viii");
    if word_ci_exec(v, k, &c4) && bnd_after_exec(v, k + c4.len()) {
        return Some((4, 8));
    }
    let c5 = chars_of("vii");
    if word_ci_exec(v, k, &c5) && bnd_after_exec(v, k + c5.len()) {
        return Some((3, 7));
    }
    let c6 = chars_of("vi");
    if word_ci_exec(v, k, &c6) && bnd_after_exec(v, k + c6.len()) {
        return Some((2, 6));
    }
    let c7 = chars_of("v");
    if word_ci_exec(v, k, &c7) && bnd_after_exec(v, k + c7.len()) {
        return Some((1, 5));
    }
    let c8 = chars_of("ix");
    if word_ci_exec(v, k, &c8) && bnd_after_exec(v, k + c8.len()) {
        return Some((2, 9));
    }
    let c9 = chars_of("x");
    if word_ci_exec(v, k, &c9) && bnd_after_exec(v, k + c9.len()) {
        return Some((1, 10));
    }
    None
}

/// Scans for `Part` with a Roman numeral.
fn det_part_roman(v: &Vec<char>) -> (r: Option<SeasonInfo>)
    ensures
        match r {
            None => proman_find(v@, 0) == v@.len(),
            Some(info) => proman_find(v@, 0) < v@.len() && season_info_matches(info, proman_value(v@)),
        },
{
    let w_part = chars_of("part");
    let mut p: usize = 0;
    while p < v.len()
        invariant
            w_part@ == "part"@,
            0 <= p <= v@.len(),
            proman_find(v@, 0) == proman_find(v@, p as int),
        decreases v@.len() - p,
    {
        if bnd_before_exec(v, p) && word_ci_exec(v, p, &w_part) {
            proof {
                reveal_strlit("part");
            }
            let j = p + 4;
            let mut kstart: usize = j;
            let mut ok = false;
            if j < v.len() && is_sep_exec(v[j]) {
                match proman_cand_exec(v, j + 1) {
                    Some(_) => {
                        kstart = j + 1;
                        ok = true;
                    },
                    None => {},
                }
            }
            if !ok {
                match proman_cand_exec(v, j) {
                    Some(_) => {
                        kstart = j;
                        ok = true;
                    },
                    None => {},
                }
            }
            if ok {
                proof {
                    assert(proman_at(v@, p as int));
                    assert(kstart as int == proman_kstart(v@, p as int));
                }
                match proman_cand_exec(v, kstart) {
                    Some((clen, val)) => {
                        let m = subrange_vec(v, p, kstart + clen);
                        let cleaned = trim(&remove_all(v, &m));
                        proof {
                            assert(m@ == v@.subrange(
                                p as int,
                                proman_kstart(v@, p as int) + proman_cand(
                                    v@,
                                    proman_kstart(v@, p as int),
                                ).len(),
                            ));
                        }
                        return Some(
                            SeasonInfo {
                                season: val,
                                matched_pattern: Some(string_of(&m)),
                                clean_title: Some(string_of(&cleaned)),
                            },
                        );
                    },
                    None => {
                        proof {
                            assert(false);
                        }
                    },
                }
            }
        }
        proof {
            assert(!proman_at(v@, p as int));
        }
        p = p + 1;
    }
    None
}

/// Where the title's content ends, trailing whitespace excluded.
fn scan_t_end(v: &Vec<char>) -> (r: usize)
    ensures
        r as int == t_end(v@),
        r <= v@.len(),
{
    let mut e: usize = v.len();
    while e > 0 && is_space_exec(v[e - 1])
        invariant
            0 <= e <= v@.len(),
            forall|k: int| e <= k < v@.len() ==> is_space(v@[k]),
        decreases e,
    {
        e = e - 1;
    }
    proof {
        lemma_trailing_spaces_at(v@, e as int);
    }
    e
}

/// Tests for one of the trailing Roman numeral spellings in `[a, b)`.
fn roman_end_pat_exec(v: &Vec<char>, a: usize, b: usize) -> (r: bool)
    requires
        a <= b <= v@.len(),
    ensures
        r == roman_end_pat(v@.subrange(a as int, b as int)),
{
    let t = subrange_vec(v, a, b);
    chars_eq(&t, &chars_of("I")) || chars_eq(&t, &chars_of("II")) || chars_eq(&t, &chars_of("III"))
        || chars_eq(&t, &chars_of("IV")) || chars_eq(&t, &chars_of("VI")) || chars_eq(
        &t,
        &chars_of("VII"),
    ) || chars_eq(&t, &chars_of("VIII")) || chars_eq(&t, &chars_of("IX")) || chars_eq(
        &t,
        &chars_of("XI"),
    ) || chars_eq(&t, &chars_of("XII")) || chars_eq(&t, &chars_of("XIII")) || chars_eq(
        &t,
        &chars_of("XIV"),
    ) || chars_eq(&t, &chars_of("XVI")) || chars_eq(&t, &chars_of("XVII")) || chars_eq(
        &t,
        &chars_of("XVIII"),
    ) || chars_eq(&t, &chars_of("XIX"))
}

/// The Roman numeral value of a character vector, case-insensitively.
fn roman_value_chars(t: &Vec<char>) -> (r: Option<u8>)
    ensures
        match roman_table(lower(t@)) {
            Some(val) => r matches Some(x) && x as int == val,
            None => r is None,
        },
{
    let l = to_lower(t);
    if chars_eq(&l, &chars_of("i")) {
        Some(1)
    } else if chars_eq(&l, &chars_of("ii")) {
        Some(2)
    } else if chars_eq(&l, &chars_of("iii")) {
        Some(3)
    } else if chars_eq(&l, &chars_of("iv")) {
        Some(4)
    } else if chars_eq(&l, &chars_of("v")) {
        Some(5)
    } else if chars_eq(&l, &chars_of("vi")) {
        Some(6)
    } else if chars_eq(&l, &chars_of("vii")) {
        Some(7)
    } else if chars_eq(&l, &chars_of("viii")) {
        Some(8)
    } else if chars_eq(&l, &chars_of("ix")) {
        Some(9)
    } else if chars_eq(&l, &chars_of("x")) {
        Some(10)
    } else {
        None
    }
}

/// Converts a Roman numeral up to ten; case-insensitive.
pub fn roman_to_arabic(roman: &str) -> (r: Option<u8>)
    ensures
        match roman_table(lower(roman@)) {
            Some(val) => r matches Some(x) && x as int == val,
            None => r is None,
        },
{
    roman_value_chars(&chars_of(roman))
}

/// Detects a trailing Roman numeral of two or more.
fn det_roman_end(v: &Vec<char>) -> (r: Option<SeasonInfo>)
    ensures
        if roman_end_fires(v@) {
            r matches Some(info) && season_info_matches(info, roman_end_value(v@))
        } else {
            r is None
        },
{
    let e = scan_t_end(v);
    let mut k: usize = 0;
    let mut found = false;
    if e >= 5 && bnd_before_exec(v, e - 5) && roman_end_pat_exec(v, e - 5, e) {
        k = e - 5;
        found = true;
    } else if e >= 4 && bnd_before_exec(v, e - 4) && roman_end_pat_exec(v, e - 4, e) {
        k = e - 4;
        found = true;
    } else if e >= 3 && bnd_before_exec(v, e - 3) && roman_end_pat_exec(v, e - 3, e) {
        k = e - 3;
        found = true;
    } else if e >= 2 && bnd_before_exec(v, e - 2) && roman_end_pat_exec(v, e - 2, e) {
        k = e - 2;
        found = true;
    } else if e >= 1 && bnd_before_exec(v, e - 1) && roman_end_pat_exec(v, e - 1, e) {
        k = e - 1;
        found = true;
    }
    if !found {
        proof {
            assert(roman_end_start(v@) == -1);
        }
        return None;
    }
    proof {
        assert(k as int == roman_end_start(v@));
    }
    let m = subrange_vec(v, k, e);
    match roman_value_chars(&m) {
        Some(val) => {
            if val > 1 {
                let cleaned = trim(&subrange_vec(v, 0, k));
                Some(
                    SeasonInfo {
                        season: val,
                        matched_pattern: Some(string_of(&m)),
                        clean_title: Some(string_of(&cleaned)),
                    },
                )
            } else {
                None
            }
        },
        None => None,
    }
}

/// Detects a trailing single digit behind a separator.
fn det_trailing(v: &Vec<char>) -> (r: Option<SeasonInfo>)
    ensures
        if trailing_fires(v@) {
            r matches Some(info) && season_info_matches(info, trailing_value(v@))
        } else {
            r is None
        },
{
    let e = scan_t_end(v);
    if e == 0 {
        return None;
    }
    if !is_digit_exec(v[e - 1]) {
        return None;
    }
    let mut b: usize = e - 1;
    while b > 0 && is_space_exec(v[b - 1])
        invariant
            0 <= b <= e - 1 < v@.len(),
            back_spaces(v@, e - 1) == back_spaces(v@, b as int),
        decreases b,
    {
        b = b - 1;
    }
    proof {
        assert(b as int == back_spaces(v@, e - 1));
    }
    let start: usize;
    if b > 0 && (v[b - 1] == '-' || v[b - 1] == ':') {
        start = b - 1;
    } else if b < e - 1 {
        start = b;
    } else {
        return None;
    }
    proof {
        assert(trailing_num_ok(v@));
        assert(start as int == trailing_num_start(v@));
    }
    let c = v[e - 1];
    if c == '0' {
        return None;
    }
    let season: u8 = ((c as u8) - 48) as u8;
    let mut mp = chars_of("trailing ");
    mp.push(c);
    proof {
        assert(mp@ =~= "trailing "@ + seq![v@[e - 1]]);
    }
    let m = subrange_vec(v, start, v.len());
    let cleaned = trim(&remove_all(v, &m));
    Some(
        SeasonInfo {
            season,
            matched_pattern: Some(string_of(&mp)),
            clean_title: Some(string_of(&cleaned)),
        },
    )
}

/// The whole cascade, in order of specificity; season one with nothing
/// matched when no pattern fires.
pub open spec fn spec_detect_season(s: Seq<char>) -> SpecSeason {
    if sp_find(s, 0) < s.len() {
        sp_value(s)
    } else if spelled_find(s, 0) < s.len() {
        spelled_value(s)
    } else if ord_find(s, 0) < s.len() {
        ord_value(s)
    } else if word_num_find(s, 0, "part"@) < s.len() {
        word_num_value(s, "part"@)
    } else if proman_find(s, 0) < s.len() {
        proman_value(s)
    } else if word_num_find(s, 0, "cour"@) < s.len() {
        word_num_value(s, "cour"@)
    } else if roman_end_fires(s) {
        roman_end_value(s)
    } else if trailing_fires(s) {
        trailing_value(s)
    } else {
        SpecSeason { season: 1, matched: None, clean: None }
    }
}

/// Detects the season number of an entity title, trying each pattern of
/// the cascade in turn; season one when nothing matches.
pub fn detect_season(title: &str) -> (r: SeasonInfo)
    ensures
        season_info_matches(r, spec_detect_season(title@)),
{
    let v = chars_of(title);
    match det_s_prefix(&v) {
        Some(info) => {
            return info;
        },
        None => {},
    }
    match det_spelled(&v) {
        Some(info) => {
            return info;
        },
        None => {},
    }
    match det_ordinal(&v) {
        Some(info) => {
            return info;
        },
        None => {},
    }
    proof {
        reveal_strlit("part");
        reveal_strlit("cour");
    }
    let w_part = chars_of("part");
    match det_word_num(&v, &w_part) {
        Some(info) => {
            return info;
        },
        None => {},
    }
    match det_part_roman(&v) {
        Some(info) => {
            return info;
        },
        None => {},
    }
    let w_cour = chars_of("cour");
    match det_word_num(&v, &w_cour) {
        Some(info) => {
            return info;
        },
        None => {},
    }
    match det_roman_end(&v) {
        Some(info) => {
            return info;
        },
        None => {},
    }
    match det_trailing(&v) {
        Some(info) => {
            return info;
        },
        None => {},
    }
    SeasonInfo { season: 1, matched_pattern: None, clean_title: None }
}


/// Start of the digit run that ends just before position `m`.
pub open spec fn back_digits(s: Seq<char>, m: int) -> int
    decreases m,
    when 0 <= m <= s.len()
{
    if m > 0 && is_digit(s[m - 1]) {
        back_digits(s, m - 1)
    } else {
        m
    }
}

/// Scans backward over digits ending just before `m`.
fn scan_back_digits(v: &Vec<char>, m: usize) -> (r: usize)
    requires
        m <= v@.len(),
    ensures
        r as int == back_digits(v@, m as int),
        r <= m,
{
    let mut b: usize = m;
    while b > 0 && is_digit_exec(v[b - 1])
        invariant
            0 <= b <= m <= v@.len(),
            back_digits(v@, m as int) == back_digits(v@, b as int),
        decreases b,
    {
        b = b - 1;
    }
    b
}

/// Scans backward over whitespace ending just before `m`.
fn scan_back_spaces(v: &Vec<char>, m: usize) -> (r: usize)
    requires
        m <= v@.len(),
    ensures
        r as int == back_spaces(v@, m as int),
        r <= m,
{
    let mut b: usize = m;
    while b > 0 && is_space_exec(v[b - 1])
        invariant
            0 <= b <= m <= v@.len(),
            back_spaces(v@, m as int) == back_spaces(v@, b as int),
        decreases b,
    {
        b = b - 1;
    }
    b
}

/// An ordinal of the search-suffix shape (`2nd`, `3rd`, `4th`…`9th`,
/// case-insensitively) occupies `[i, i+3)`.
pub open spec fn search_ordinal_at(s: Seq<char>, i: int) -> bool {
    &&& 0 <= i
    &&& i + 3 <= s.len()
    &&& {
        let c = s[i];
        let a = lower_char(s[i + 1]);
        let b = lower_char(s[i + 2]);
        (c == '2' && a == 'n' && b == 'd') || (c == '3' && a == 'r' && b == 'd') || ('4' <= c && c
            <= '9' && a == 't' && b == 'h')
    }
}

/// Strips a trailing `<ordinal> Season`.
pub open spec fn strip_ordinal_season(s: Seq<char>) -> Seq<char> {
    let e = t_end(s);
    if e >= 6 && word_ci_at(s, e - 6, "season"@) {
        let w0 = back_spaces(s, e - 6);
        if w0 < e - 6 && w0 >= 3 && search_ordinal_at(s, w0 - 3) {
            let i = back_spaces(s, w0 - 3);
            if i < w0 - 3 {
                s.subrange(0, i)
            } else {
                s
            }
        } else {
            s
        }
    } else {
        s
    }
}

/// Strips a trailing `<word> <digits>` (season, part or cour).
pub open spec fn strip_word_digits(s: Seq<char>, word: Seq<char>) -> Seq<char> {
    let e = t_end(s);
    let d0 = back_digits(s, e);
    if d0 < e {
        let w0 = back_spaces(s, d0);
        if w0 < d0 && w0 >= word.len() && word_ci_at(s, w0 - word.len(), word) {
            let i = back_spaces(s, w0 - word.len());
            if i < w0 - word.len() {
                s.subrange(0, i)
            } else {
                s
            }
        } else {
            s
        }
    } else {
        s
    }
}

/// Strips a trailing `S<digits>`.
pub open spec fn strip_s_suffix(s: Seq<char>) -> Seq<char> {
    let e = t_end(s);
    let d0 = back_digits(s, e);
    if d0 < e && d0 >= 1 && (s[d0 - 1] == 'S' || s[d0 - 1] == 's') {
        let i = back_spaces(s, d0 - 1);
        if i < d0 - 1 {
            s.subrange(0, i)
        } else {
            s
        }
    } else {
        s
    }
}

/// The Roman numerals the search-suffix pattern strips, lowercased.
pub open spec fn search_roman(t: Seq<char>) -> bool {
    ||| t == "ii"@
    ||| t == "iii"@
    ||| t == "iv"@
    ||| t == "v"@
    ||| t == "vi"@
    ||| t == "vii"@
    ||| t == "viii"@
    ||| t == "ix"@
    ||| t == "x"@
}

/// Where a trailing Roman numeral of the search-suffix shape starts,
/// longest first; -1 when there is none.
pub open spec fn search_roman_start(s: Seq<char>) -> int {
    let e = t_end(s);
    if e >= 4 && back_spaces(s, e - 4) < e - 4 && search_roman(lower(s.subrange(e - 4, e))) {
        e - 4
    } else if e >= 3 && back_spaces(s, e - 3) < e - 3 && search_roman(lower(s.subrange(e - 3, e))) {
        e - 3
    } else if e >= 2 && back_spaces(s, e - 2) < e - 2 && search_roman(lower(s.subrange(e - 2, e))) {
        e - 2
    } else if e >= 1 && back_spaces(s, e - 1) < e - 1 && search_roman(lower(s.subrange(e - 1, e))) {
        e - 1
    } else {
        -1
    }
}

/// Strips a trailing Roman numeral.
pub open spec fn strip_roman(s: Seq<char>) -> Seq<char> {
    let a = search_roman_start(s);
    if a >= 0 {
        s.subrange(0, back_spaces(s, a))
    } else {
        s
    }
}

/// The whole search normalization: each season-suffix shape stripped in
/// turn, then the remainder trimmed.
pub open spec fn spec_normalize_title(s: Seq<char>) -> Seq<char> {
    trim_spec(
        strip_word_digits(
            strip_roman(
                strip_word_digits(
                    strip_s_suffix(strip_word_digits(strip_ordinal_season(s), "season"@)),
                    "part"@,
                ),
            ),
            "cour"@,
        ),
    )
}

/// Strips a trailing `<ordinal> Season`.
fn strip_ordinal_season_exec(v: &Vec<char>) -> (r: Vec<char>)
    ensures
        r@ == strip_ordinal_season(v@),
{
    proof {
        reveal_strlit("season");
    }
    let w_season = chars_of("season");
    let e = scan_t_end(v);
    if e >= 6 && word_ci_exec(v, e - 6, &w_season) {
        let w0 = scan_back_spaces(v, e - 6);
        if w0 < e - 6 && w0 >= 3 && search_ordinal_exec(v, w0 - 3) {
            let i = scan_back_spaces(v, w0 - 3);
            if i < w0 - 3 {
                return subrange_vec(v, 0, i);
            }
        }
    }
    subrange_vec(v, 0, v.len())
}

/// The search-suffix ordinal test.
fn search_ordinal_exec(v: &Vec<char>, i: usize) -> (r: bool)
    requires
        i <= v@.len(),
    ensures
        r == search_ordinal_at(v@, i as int),
{
    if v.len() - i >= 3 {
        let c = v[i];
        let a = lower_char_exec(v[i + 1]);
        let b = lower_char_exec(v[i + 2]);
        (c == '2' && a == 'n' && b == 'd') || (c == '3' && a == 'r' && b == 'd') || ('4' <= c && c
            <= '9' && a == 't' && b == 'h')
    } else {
        false
    }
}

/// Strips a trailing `<word> <digits>`.
fn strip_word_digits_exec(v: &Vec<char>, word: &Vec<char>) -> (r: Vec<char>)
    requires
        1 <= word@.len(),
    ensures
        r@ == strip_word_digits(v@, word@),
{
    let e = scan_t_end(v);
    let d0 = scan_back_digits(v, e);
    if d0 < e {
        let w0 = scan_back_spaces(v, d0);
        if w0 < d0 && w0 >= word.len() && word_ci_exec(v, w0 - word.len(), word) {
            let i = scan_back_spaces(v, w0 - word.len());
            if i < w0 - word.len() {
                return subrange_vec(v, 0, i);
            }
        }
    }
    subrange_vec(v, 0, v.len())
}

/// Strips a trailing `S<digits>`.
fn strip_s_suffix_exec(v: &Vec<char>) -> (r: Vec<char>)
    ensures
        r@ == strip_s_suffix(v@),
{
    let e = scan_t_end(v);
    let d0 = scan_back_digits(v, e);
    if d0 < e && d0 >= 1 && (v[d0 - 1] == 'S' || v[d0 - 1] == 's') {
        let i = scan_back_spaces(v, d0 - 1);
        if i < d0 - 1 {
            return subrange_vec(v, 0, i);
        }
    }
    subrange_vec(v, 0, v.len())
}

/// The search-suffix Roman numeral test, on the lowercased token.
fn search_roman_exec(v: &Vec<char>, a: usize, e: usize) -> (r: bool)
    requires
        a <= e <= v@.len(),
    ensures
        r == search_roman(lower(v@.subrange(a as int, e as int))),
{
    let t = to_lower(&subrange_vec(v, a, e));
    chars_eq(&t, &chars_of("ii")) || chars_eq(&t, &chars_of("iii")) || chars_eq(
        &t,
        &chars_of("iv"),
    ) || chars_eq(&t, &chars_of("v")) || chars_eq(&t, &chars_of("vi")) || chars_eq(
        &t,
        &chars_of("vii"),
    ) || chars_eq(&t, &chars_of("viii")) || chars_eq(&t, &chars_of("ix")) || chars_eq(
        &t,
        &chars_of("x"),
    )
}

/// Strips a trailing Roman numeral.
fn strip_roman_exec(v: &Vec<char>) -> (r: Vec<char>)
    ensures
        r@ == strip_roman(v@),
{
    let e = scan_t_end(v);
    if e >= 4 && scan_back_spaces(v, e - 4) < e - 4 && search_roman_exec(v, e - 4, e) {
        return subrange_vec(v, 0, scan_back_spaces(v, e - 4));
    }
    if e >= 3 && scan_back_spaces(v, e - 3) < e - 3 && search_roman_exec(v, e - 3, e) {
        return subrange_vec(v, 0, scan_back_spaces(v, e - 3));
    }
    if e >= 2 && scan_back_spaces(v, e - 2) < e - 2 && search_roman_exec(v, e - 2, e) {
        return subrange_vec(v, 0, scan_back_spaces(v, e - 2));
    }
    if e >= 1 && scan_back_spaces(v, e - 1) < e - 1 && search_roman_exec(v, e - 1, e) {
        return subrange_vec(v, 0, scan_back_spaces(v, e - 1));
    }
    subrange_vec(v, 0, v.len())
}

/// Normalizes a display title for feed search by stripping season
/// suffixes, so queries match providers' terse season tags.
pub fn normalize_title_for_search(title: &str) -> (r: String)
    ensures
        r@ == spec_normalize_title(title@),
{
    proof {
        reveal_strlit("season");
        reveal_strlit("part");
        reveal_strlit("cour");
    }
    let v = chars_of(title);
    let s1 = strip_ordinal_season_exec(&v);
    let s2 = strip_word_digits_exec(&s1, &chars_of("season"));
    let s3 = strip_s_suffix_exec(&s2);
    let s4 = strip_word_digits_exec(&s3, &chars_of("part"));
    let s5 = strip_roman_exec(&s4);
    let s6 = strip_word_digits_exec(&s5, &chars_of("cour"));
    string_of(&trim(&s6))
}

} // verus!
