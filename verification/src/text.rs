//! Character-level text primitives.
//!
//! Release titles are free text, so the parsers and the filter engine work
//! over sequences of characters. This module provides the shared
//! vocabulary: character classes, ASCII lowercasing, substring search,
//! trimming, and decimal digit runs, each with an exact specification.

use vstd::prelude::*;

verus! {

/// The whitespace characters the pattern cascades recognize.
pub open spec fn is_space(c: char) -> bool {
    c == ' ' || c == '\t' || c == '\n' || c == '\r' || c == '\x0b' || c == '\x0c'
}

/// Decimal digit.
pub open spec fn is_digit(c: char) -> bool {
    '0' <= c && c <= '9'
}

/// Word characters, used for the word-boundary checks of the cascades.
pub open spec fn is_word_char(c: char) -> bool {
    ('a' <= c && c <= 'z') || ('A' <= c && c <= 'Z') || is_digit(c) || c == '_'
}

/// Numeric value of a decimal digit character.
pub open spec fn digit_val(c: char) -> int {
    c as int - '0' as int
}

/// ASCII lowercasing of one character; other characters are unchanged.
pub open spec fn lower_char(c: char) -> char {
    if 'A' <= c && c <= 'Z' {
        ((c as u8) + 32) as char
    } else {
        c
    }
}

/// ASCII lowercasing of a character sequence.
pub open spec fn lower(s: Seq<char>) -> Seq<char> {
    s.map_values(|c: char| lower_char(c))
}

/// The needle `n` occurs in `h` starting exactly at index `i`.
pub open spec fn matches_at(h: Seq<char>, n: Seq<char>, i: int) -> bool {
    0 <= i && i + n.len() <= h.len() && h.subrange(i, i + n.len()) == n
}

/// The needle `n` occurs in `h` at some index at or after `from`.
pub open spec fn has_sub_from(h: Seq<char>, n: Seq<char>, from: int) -> bool {
    exists|i: int| from <= i && matches_at(h, n, i)
}

/// The needle `n` occurs somewhere in `h`.
pub open spec fn has_sub(h: Seq<char>, n: Seq<char>) -> bool {
    has_sub_from(h, n, 0)
}

/// Value of a run of decimal digit characters, most significant first.
pub open spec fn digits_val(s: Seq<char>) -> int
    decreases s.len(),
{
    if s.len() == 0 {
        0
    } else {
        10 * digits_val(s.drop_last()) + digit_val(s.last())
    }
}

pub proof fn lemma_digits_val_nonneg(s: Seq<char>)
    requires
        forall|k: int| 0 <= k < s.len() ==> is_digit(s[k]),
    ensures
        digits_val(s) >= 0,
    decreases s.len(),
{
    if s.len() > 0 {
        lemma_digits_val_nonneg(s.drop_last());
    }
}

/// Number of leading whitespace characters.
pub open spec fn leading_spaces(s: Seq<char>) -> int
    decreases s.len(),
{
    if s.len() > 0 && is_space(s[0]) {
        1 + leading_spaces(s.drop_first())
    } else {
        0
    }
}

/// Number of trailing whitespace characters.
pub open spec fn trailing_spaces(s: Seq<char>) -> int
    decreases s.len(),
{
    if s.len() > 0 && is_space(s.last()) {
        1 + trailing_spaces(s.drop_last())
    } else {
        0
    }
}

/// The sequence with leading and trailing whitespace removed.
pub open spec fn trim_spec(s: Seq<char>) -> Seq<char> {
    if leading_spaces(s) == s.len() {
        Seq::empty()
    } else {
        s.subrange(leading_spaces(s), s.len() - trailing_spaces(s))
    }
}

pub proof fn lemma_leading_spaces_at(s: Seq<char>, i: int)
    requires
        0 <= i <= s.len(),
        forall|k: int| 0 <= k < i ==> is_space(s[k]),
        i == s.len() || !is_space(s[i]),
    ensures
        leading_spaces(s) == i,
    decreases i,
{
    if i == 0 {
    } else {
        let t = s.drop_first();
        assert(forall|k: int| 0 <= k < i - 1 ==> s[k + 1] == #[trigger] t[k]);
        lemma_leading_spaces_at(t, i - 1);
    }
}

pub proof fn lemma_trailing_spaces_at(s: Seq<char>, j: int)
    requires
        0 <= j <= s.len(),
        forall|k: int| j <= k < s.len() ==> is_space(s[k]),
        j == 0 || !is_space(s[j - 1]),
    ensures
        trailing_spaces(s) == s.len() - j,
    decreases s.len() - j,
{
    if j == s.len() {
    } else {
        let t = s.drop_last();
        assert(forall|k: int| 0 <= k < t.len() ==> #[trigger] t[k] == s[k]);
        lemma_trailing_spaces_at(t, j);
    }
}

/// Finds the first occurrence of `n` in `h` at or after index `from`.
pub fn find_sub_from(h: &Vec<char>, n: &Vec<char>, from: usize) -> (r: Option<usize>)
    ensures
        match r {
            Some(i) => from <= i && matches_at(h@, n@, i as int) && (forall|j: int|
                from <= j < i ==> !matches_at(h@, n@, j)),
            None => !has_sub_from(h@, n@, from as int),
        },
{
    if n.len() == 0 {
        if from <= h.len() {
            proof {
                assert(h@.subrange(from as int, from as int) =~= n@);
            }
            return Some(from);
        } else {
            return None;
        }
    }
    if n.len() > h.len() {
        return None;
    }
    let last_start: usize = h.len() - n.len();
    if from > last_start {
        proof {
            assert(forall|j: int| from <= j && matches_at(h@, n@, j) ==> j <= last_start);
        }
        return None;
    }
    let mut i: usize = from;
    proof {
        assert(h@.len() == h.len());
    }
    while i <= last_start
        invariant
            from <= i <= last_start + 1,
            h@.len() <= usize::MAX,
            1 <= n@.len() <= h@.len(),
            last_start == h@.len() - n@.len(),
            forall|j: int| from <= j < i ==> !matches_at(h@, n@, j),
        decreases last_start + 1 - i,
    {
        let mut k: usize = 0;
        let mut ok: bool = true;
        proof {
            assert(h@.subrange(i as int, i as int) =~= n@.subrange(0, 0));
        }
        while k < n.len() && ok
            invariant
                0 <= k <= n@.len(),
                from <= i <= last_start,
                h@.len() <= usize::MAX,
                last_start == h@.len() - n@.len(),
                ok ==> h@.subrange(i as int, i + k) == n@.subrange(0, k as int),
                !ok ==> !matches_at(h@, n@, i as int),
            decreases n@.len() - k,
        {
            if h[i + k] != n[k] {
                proof {
                    if matches_at(h@, n@, i as int) {
                        assert(h@.subrange(i as int, i + n@.len())[k as int] == n@[k as int]);
                    }
                }
                ok = false;
            } else {
                proof {
                    assert(h@.subrange(i as int, i + k + 1) =~= h@.subrange(i as int, i + k)
                        + seq![h@[i + k]]);
                    assert(n@.subrange(0, k + 1) =~= n@.subrange(0, k as int) + seq![n@[k as int]]);
                }
            }
            k = k + 1;
        }
        if ok {
            proof {
                assert(n@.subrange(0, n@.len() as int) =~= n@);
            }
            return Some(i);
        }
        i = i + 1;
    }
    proof {
        assert(forall|j: int| from <= j && matches_at(h@, n@, j) ==> j <= last_start);
    }
    None
}

/// Whether `n` occurs anywhere in `h`.
pub fn contains_sub(h: &Vec<char>, n: &Vec<char>) -> (r: bool)
    ensures
        r == has_sub(h@, n@),
{
    match find_sub_from(h, n, 0) {
        Some(_) => true,
        None => false,
    }
}

/// ASCII-lowercases every character.
pub fn to_lower(v: &Vec<char>) -> (r: Vec<char>)
    ensures
        r@ == lower(v@),
{
    let mut r: Vec<char> = Vec::new();
    let mut i: usize = 0;
    while i < v.len()
        invariant
            0 <= i <= v@.len(),
            r@ =~= lower(v@.subrange(0, i as int)),
        decreases v@.len() - i,
    {
        let c = v[i];
        let lc: char = if 'A' <= c && c <= 'Z' {
            ((c as u8) + 32) as char
        } else {
            c
        };
        r.push(lc);
        proof {
            assert(v@.subrange(0, i + 1).drop_last() == v@.subrange(0, i as int));
            assert(lower(v@.subrange(0, i + 1)) =~= lower(v@.subrange(0, i as int)) + seq![
                lower_char(v@[i as int]),
            ]);
        }
        i = i + 1;
    }
    proof {
        assert(v@.subrange(0, v@.len() as int) =~= v@);
    }
    r
}

/// Copies the characters in the range `[from, to)`.
pub fn subrange_vec(v: &Vec<char>, from: usize, to: usize) -> (r: Vec<char>)
    requires
        from <= to <= v@.len(),
    ensures
        r@ == v@.subrange(from as int, to as int),
{
    let mut r: Vec<char> = Vec::new();
    let mut i: usize = from;
    while i < to
        invariant
            from <= i <= to <= v@.len(),
            r@ =~= v@.subrange(from as int, i as int),
        decreases to - i,
    {
        r.push(v[i]);
        proof {
            assert(v@.subrange(from as int, i + 1) =~= v@.subrange(from as int, i as int) + seq![
                v@[i as int],
            ]);
        }
        i = i + 1;
    }
    r
}

/// Appends all characters of `src` to `dst`.
pub fn push_all(dst: &mut Vec<char>, src: &Vec<char>)
    ensures
        final(dst)@ == old(dst)@ + src@,
{
    let mut i: usize = 0;
    while i < src.len()
        invariant
            0 <= i <= src@.len(),
            dst@ =~= old(dst)@ + src@.subrange(0, i as int),
        decreases src@.len() - i,
    {
        dst.push(src[i]);
        proof {
            assert(src@.subrange(0, i + 1) =~= src@.subrange(0, i as int) + seq![src@[i as int]]);
        }
        i = i + 1;
    }
    proof {
        assert(src@.subrange(0, src@.len() as int) =~= src@);
    }
}

/// Removes leading and trailing whitespace.
pub fn trim(v: &Vec<char>) -> (r: Vec<char>)
    ensures
        r@ == trim_spec(v@),
{
    let mut a: usize = 0;
    while a < v.len() && is_space_exec(v[a])
        invariant
            0 <= a <= v@.len(),
            forall|k: int| 0 <= k < a ==> is_space(v@[k]),
        decreases v@.len() - a,
    {
        a = a + 1;
    }
    proof {
        lemma_leading_spaces_at(v@, a as int);
    }
    if a == v.len() {
        return Vec::new();
    }
    let mut b: usize = v.len();
    while b > a + 1 && is_space_exec(v[b - 1])
        invariant
            a < b <= v@.len(),
            forall|k: int| b <= k < v@.len() ==> is_space(v@[k]),
        decreases b,
    {
        b = b - 1;
    }
    proof {
        assert(!is_space(v@[a as int]));
        lemma_trailing_spaces_at(v@, b as int);
    }
    subrange_vec(v, a, b)
}

/// ASCII-lowercases one character.
pub fn lower_char_exec(c: char) -> (r: char)
    ensures
        r == lower_char(c),
{
    if 'A' <= c && c <= 'Z' {
        ((c as u8) + 32) as char
    } else {
        c
    }
}

/// Whitespace test on one character.
pub fn is_space_exec(c: char) -> (r: bool)
    ensures
        r == is_space(c),
{
    c == ' ' || c == '\t' || c == '\n' || c == '\r' || c == '\x0b' || c == '\x0c'
}

/// Digit test on one character.
pub fn is_digit_exec(c: char) -> (r: bool)
    ensures
        r == is_digit(c),
{
    '0' <= c && c <= '9'
}

/// Word-character test on one character.
pub fn is_word_char_exec(c: char) -> (r: bool)
    ensures
        r == is_word_char(c),
{
    ('a' <= c && c <= 'z') || ('A' <= c && c <= 'Z') || ('0' <= c && c <= '9') || c == '_'
}

/// Parses a run of decimal digits; `None` when the value exceeds `u16`.
pub fn parse_u16(v: &Vec<char>, from: usize, to: usize) -> (r: Option<u16>)
    requires
        from <= to <= v@.len(),
        forall|k: int| from <= k < to ==> is_digit(v@[k]),
    ensures
        match r {
            Some(x) => x as int == digits_val(v@.subrange(from as int, to as int)) && x <= 65535,
            None => digits_val(v@.subrange(from as int, to as int)) > 65535,
        },
{
    let mut acc: u32 = 0;
    let mut over: bool = false;
    let mut i: usize = from;
    proof {
        assert(v@.subrange(from as int, from as int) =~= Seq::<char>::empty());
    }
    while i < to
        invariant
            from <= i <= to <= v@.len(),
            forall|k: int| from <= k < to ==> is_digit(v@[k]),
            !over ==> acc as int == digits_val(v@.subrange(from as int, i as int)) && acc <= 65535,
            over ==> digits_val(v@.subrange(from as int, i as int)) > 65535,
        decreases to - i,
    {
        let c = v[i];
        let d: u32 = (c as u32) - 48;
        proof {
            assert(is_digit(v@[i as int]));
            assert(v@.subrange(from as int, i + 1).drop_last() == v@.subrange(from as int, i as int));
            assert(v@.subrange(from as int, i + 1).last() == v@[i as int]);
            lemma_digits_val_nonneg(v@.subrange(from as int, i as int));
        }
        if over {
        } else {
            let t: u32 = acc * 10 + d;
            if t > 65535 {
                over = true;
            } else {
                acc = t;
            }
        }
        i = i + 1;
    }
    if over {
        None
    } else {
        Some(acc as u16)
    }
}

/// Decimal digit characters of `n`, most significant first.
pub open spec fn dec_chars(n: int) -> Seq<char>
    decreases n,
{
    if n < 10 {
        seq![((48 + if n >= 0 { n } else { 0 }) as u8) as char]
    } else {
        dec_chars(n / 10) + seq![((48 + n % 10) as u8) as char]
    }
}

/// Renders an unsigned number in decimal.
pub fn u32_chars(n: u32) -> (r: Vec<char>)
    ensures
        r@ == dec_chars(n as int),
    decreases n,
{
    if n < 10 {
        let c: char = ((48 + n) as u8) as char;
        let mut r: Vec<char> = Vec::new();
        r.push(c);
        proof {
            assert(r@ =~= dec_chars(n as int));
        }
        r
    } else {
        let mut r = u32_chars(n / 10);
        let c: char = ((48 + n % 10) as u8) as char;
        r.push(c);
        proof {
            assert(r@ =~= dec_chars(n as int));
        }
        r
    }
}

/// End of the maximal run of whitespace starting at `i`.
pub open spec fn space_run_end(s: Seq<char>, i: int) -> int
    decreases s.len() - i,
    when 0 <= i <= s.len()
{
    if i < s.len() && is_space(s[i]) {
        space_run_end(s, i + 1)
    } else {
        i
    }
}

/// End of the maximal run of decimal digits starting at `i`.
pub open spec fn digit_run_end(s: Seq<char>, i: int) -> int
    decreases s.len() - i,
    when 0 <= i <= s.len()
{
    if i < s.len() && is_digit(s[i]) {
        digit_run_end(s, i + 1)
    } else {
        i
    }
}

/// Index of the first occurrence of `c` at or after `i`; the length of
/// `s` when there is none.
pub open spec fn char_find(s: Seq<char>, i: int, c: char) -> int
    decreases s.len() - i,
    when 0 <= i <= s.len()
{
    if i >= s.len() {
        i
    } else if s[i] == c {
        i
    } else {
        char_find(s, i + 1, c)
    }
}

pub proof fn lemma_space_run_end_props(s: Seq<char>, i: int)
    requires
        0 <= i <= s.len(),
    ensures
        i <= space_run_end(s, i) <= s.len(),
        forall|k: int| i <= k < space_run_end(s, i) ==> is_space(s[k]),
        space_run_end(s, i) == s.len() || !is_space(s[space_run_end(s, i)]),
    decreases s.len() - i,
{
    if i < s.len() && is_space(s[i]) {
        lemma_space_run_end_props(s, i + 1);
    }
}

pub proof fn lemma_digit_run_end_props(s: Seq<char>, i: int)
    requires
        0 <= i <= s.len(),
    ensures
        i <= digit_run_end(s, i) <= s.len(),
        forall|k: int| i <= k < digit_run_end(s, i) ==> is_digit(s[k]),
        digit_run_end(s, i) == s.len() || !is_digit(s[digit_run_end(s, i)]),
    decreases s.len() - i,
{
    if i < s.len() && is_digit(s[i]) {
        lemma_digit_run_end_props(s, i + 1);
    }
}

/// Skips the whitespace run starting at `i`.
pub fn scan_spaces(v: &Vec<char>, i: usize) -> (r: usize)
    requires
        i <= v@.len(),
    ensures
        r as int == space_run_end(v@, i as int),
        i <= r <= v@.len(),
{
    let mut p: usize = i;
    while p < v.len() && is_space_exec(v[p])
        invariant
            i <= p <= v@.len(),
            space_run_end(v@, i as int) == space_run_end(v@, p as int),
        decreases v@.len() - p,
    {
        p = p + 1;
    }
    proof {
        lemma_space_run_end_props(v@, i as int);
    }
    p
}

/// Skips the digit run starting at `i`.
pub fn scan_digits(v: &Vec<char>, i: usize) -> (r: usize)
    requires
        i <= v@.len(),
    ensures
        r as int == digit_run_end(v@, i as int),
        i <= r <= v@.len(),
{
    let mut p: usize = i;
    while p < v.len() && is_digit_exec(v[p])
        invariant
            i <= p <= v@.len(),
            digit_run_end(v@, i as int) == digit_run_end(v@, p as int),
        decreases v@.len() - p,
    {
        p = p + 1;
    }
    proof {
        lemma_digit_run_end_props(v@, i as int);
    }
    p
}

/// Finds the first occurrence of `c` at or after `i`.
pub fn find_char(v: &Vec<char>, i: usize, c: char) -> (r: usize)
    requires
        i <= v@.len(),
    ensures
        r as int == char_find(v@, i as int, c),
        i <= r <= v@.len(),
        r < v@.len() ==> v@[r as int] == c,
        r == v@.len() ==> forall|k: int| i <= k < v@.len() ==> v@[k] != c,
{
    let mut p: usize = i;
    while p < v.len() && v[p] != c
        invariant
            i <= p <= v@.len(),
            char_find(v@, i as int, c) == char_find(v@, p as int, c),
            forall|k: int| i <= k < p ==> v@[k] != c,
        decreases v@.len() - p,
    {
        p = p + 1;
    }
    p
}

/// First index at or after `i` where `pat` occurs in `s`; the length of
/// `s` when it does not.
pub open spec fn sub_find(s: Seq<char>, pat: Seq<char>, i: int) -> int
    decreases s.len() - i,
    when 0 <= i <= s.len() && 1 <= pat.len()
{
    if i + pat.len() > s.len() {
        s.len() as int
    } else if matches_at(s, pat, i) {
        i
    } else {
        sub_find(s, pat, i + 1)
    }
}

pub proof fn lemma_sub_find_at(s: Seq<char>, pat: Seq<char>, from: int, k: int)
    requires
        1 <= pat.len(),
        0 <= from <= k <= s.len(),
        forall|j: int| from <= j < k ==> !matches_at(s, pat, j),
        k == s.len() || matches_at(s, pat, k),
    ensures
        matches_at(s, pat, k) ==> sub_find(s, pat, from) == k,
        !matches_at(s, pat, k) ==> sub_find(s, pat, from) == s.len() as int,
    decreases k - from,
{
    if from + pat.len() > s.len() {
    } else if matches_at(s, pat, from) {
        assert(k == from);
    } else {
        lemma_sub_find_at(s, pat, from + 1, k);
    }
}

/// The sequence with every occurrence of `pat` removed, scanning left to
/// right over non-overlapping occurrences.
pub open spec fn remove_all_spec(s: Seq<char>, pat: Seq<char>) -> Seq<char>
    decreases s.len(),
    when 1 <= pat.len()
    via remove_all_spec_dec
{
    let k = sub_find(s, pat, 0);
    if k == s.len() {
        s
    } else {
        s.subrange(0, k) + remove_all_spec(s.subrange(k + pat.len(), s.len() as int), pat)
    }
}

pub proof fn lemma_sub_find_range(s: Seq<char>, pat: Seq<char>, i: int)
    requires
        0 <= i <= s.len(),
        1 <= pat.len(),
    ensures
        i <= sub_find(s, pat, i) <= s.len(),
        sub_find(s, pat, i) < s.len() ==> matches_at(s, pat, sub_find(s, pat, i)),
    decreases s.len() - i,
{
    if i + pat.len() > s.len() {
    } else if matches_at(s, pat, i) {
    } else {
        lemma_sub_find_range(s, pat, i + 1);
    }
}

#[via_fn]
proof fn remove_all_spec_dec(s: Seq<char>, pat: Seq<char>) {
    lemma_sub_find_range(s, pat, 0);
}

/// Removes every occurrence of `pat`, scanning left to right.
pub fn remove_all(v: &Vec<char>, pat: &Vec<char>) -> (r: Vec<char>)
    requires
        1 <= pat@.len(),
    ensures
        r@ == remove_all_spec(v@, pat@),
    decreases v@.len(),
{
    match find_sub_from(v, pat, 0) {
        None => {
            proof {
                lemma_sub_find_at(v@, pat@, 0, v@.len() as int);
            }
            subrange_vec(v, 0, v.len())
        },
        Some(k) => {
            proof {
                lemma_sub_find_at(v@, pat@, 0, k as int);
                assert(v@.len() == v.len());
                assert(k + pat@.len() <= v@.len());
            }
            let mut r = subrange_vec(v, 0, k);
            let rest = subrange_vec(v, k + pat.len(), v.len());
            let tail = remove_all(&rest, pat);
            push_all(&mut r, &tail);
            r
        },
    }
}

/// Exact comparison of two character vectors.
pub fn chars_eq(a: &Vec<char>, b: &Vec<char>) -> (r: bool)
    ensures
        r == (a@ == b@),
{
    if a.len() != b.len() {
        return false;
    }
    let mut i: usize = 0;
    while i < a.len()
        invariant
            a@.len() == b@.len(),
            0 <= i <= a@.len(),
            forall|k: int| 0 <= k < i ==> a@[k] == b@[k],
        decreases a@.len() - i,
    {
        if a[i] != b[i] {
            return false;
        }
        i = i + 1;
    }
    proof {
        assert(a@ =~= b@);
    }
    true
}

/// Renders an unsigned 64-bit number in decimal.
pub fn u64_chars(n: u64) -> (r: Vec<char>)
    ensures
        r@ == dec_chars(n as int),
    decreases n,
{
    if n < 10 {
        let c: char = ((48 + n) as u8) as char;
        let mut r: Vec<char> = Vec::new();
        r.push(c);
        proof {
            assert(r@ =~= dec_chars(n as int));
        }
        r
    } else {
        let mut r = u64_chars(n / 10);
        let c: char = ((48 + n % 10) as u8) as char;
        r.push(c);
        proof {
            assert(r@ =~= dec_chars(n as int));
        }
        r
    }
}

/// Exact string comparison at the character level.
pub fn str_eq(a: &str, b: &str) -> (r: bool)
    ensures
        r == (a@ == b@),
{
    broadcast use vstd::utf8::encode_utf8_decode_utf8;

    let ab = a.as_bytes_vec();
    let bb = b.as_bytes_vec();
    if ab.len() != bb.len() {
        return false;
    }
    let mut i: usize = 0;
    while i < ab.len()
        invariant
            ab@ == vstd::utf8::encode_utf8(a@),
            bb@ == vstd::utf8::encode_utf8(b@),
            ab@.len() == bb@.len(),
            0 <= i <= ab@.len(),
            forall|k: int| 0 <= k < i ==> ab@[k] == bb@[k],
        decreases ab@.len() - i,
    {
        if ab[i] != bb[i] {
            return false;
        }
        i = i + 1;
    }
    proof {
        assert(ab@ =~= bb@);
        assert(vstd::utf8::decode_utf8(vstd::utf8::encode_utf8(a@)) == a@);
        assert(vstd::utf8::decode_utf8(vstd::utf8::encode_utf8(b@)) == b@);
    }
    true
}

/// The characters of the string, in order.
pub fn chars_of(s: &str) -> (r: Vec<char>)
    ensures
        r@ == s@,
{
    broadcast use vstd::string::axiom_spec_iter;
    broadcast use vstd::string::next_postcondition;
    broadcast use vstd::std_specs::iter::group_iter_axioms;

    let mut it = s.chars();
    let mut r: Vec<char> = Vec::new();
    proof {
        assert(vstd::std_specs::iter::IteratorSpec::remaining(&it) == s@);
        assert(r@ + vstd::std_specs::iter::IteratorSpec::remaining(&it) =~= s@);
    }
    loop
        invariant
            vstd::std_specs::iter::IteratorSpec::obeys_prophetic_iter_laws(&it),
            vstd::std_specs::iter::IteratorSpec::decrease(&it) is Some,
            r@ + vstd::std_specs::iter::IteratorSpec::remaining(&it) == s@,
        ensures
            r@ == s@,
        decreases vstd::std_specs::iter::IteratorSpec::decrease(&it)->0,
    {
        let ghost prev = it;
        match it.next() {
            Some(c) => {
                r.push(c);
                proof {
                    assert(r@ + vstd::std_specs::iter::IteratorSpec::remaining(&it) =~= s@);
                }
            },
            None => {
                proof {
                    assert(r@ =~= s@);
                }
                break;
            },
        }
    }
    r
}

/// Relies on String's FromIterator over chars: the string made of exactly
/// those characters, in order.
#[verifier::external_body]
pub fn string_of(v: &Vec<char>) -> (r: String)
    ensures
        r@ == v@,
{
    v.iter().collect()
}

} // verus!
