//! Character-level text handling: conversion between `String` and characters,
//! joining, searching, trimming and decimal integers, each with its meaning
//! stated over `Seq<char>`.
use vstd::prelude::*;

verus! {

// ---------------------------------------------------------------------------
// Specifications
// ---------------------------------------------------------------------------

/// `parts` joined with `sep` between neighbours.
pub open spec fn join_seq(parts: Seq<Seq<char>>, sep: Seq<char>) -> Seq<char>
    decreases parts.len(),
{
    if parts.len() == 0 {
        Seq::empty()
    } else if parts.len() == 1 {
        parts[0]
    } else {
        join_seq(parts.drop_last(), sep) + sep + parts.last()
    }
}

/// `needle` occurs in `hay` as a contiguous run.
pub open spec fn contains_seq(hay: Seq<char>, needle: Seq<char>) -> bool {
    exists|i: int| 0 <= i && i + needle.len() <= hay.len() && #[trigger] hay.subrange(i, i + needle.len()) == needle
}

/// `hay` begins with `prefix`.
pub open spec fn starts_with_seq(hay: Seq<char>, prefix: Seq<char>) -> bool {
    prefix.len() <= hay.len() && hay.subrange(0, prefix.len() as int) == prefix
}

/// `hay` ends with `suffix`.
pub open spec fn ends_with_seq(hay: Seq<char>, suffix: Seq<char>) -> bool {
    suffix.len() <= hay.len() && hay.subrange(hay.len() - suffix.len(), hay.len() as int) == suffix
}

/// The characters with the Unicode `White_Space` property, which is what
/// `char::is_whitespace` (and so `str::trim`) tests.
pub open spec fn is_unicode_whitespace(c: char) -> bool {
    ||| '\u{9}' <= c <= '\u{d}'
    ||| c == ' '
    ||| c == '\u{85}'
    ||| c == '\u{a0}'
    ||| c == '\u{1680}'
    ||| '\u{2000}' <= c <= '\u{200a}'
    ||| c == '\u{2028}'
    ||| c == '\u{2029}'
    ||| c == '\u{202f}'
    ||| c == '\u{205f}'
    ||| c == '\u{3000}'
}

pub open spec fn trim_start_seq(s: Seq<char>) -> Seq<char>
    decreases s.len(),
{
    if s.len() > 0 && is_unicode_whitespace(s[0]) {
        trim_start_seq(s.drop_first())
    } else {
        s
    }
}

pub open spec fn trim_end_seq(s: Seq<char>) -> Seq<char>
    decreases s.len(),
{
    if s.len() > 0 && is_unicode_whitespace(s.last()) {
        trim_end_seq(s.drop_last())
    } else {
        s
    }
}

/// `s` without leading and trailing white space.
pub open spec fn trim_seq(s: Seq<char>) -> Seq<char> {
    trim_end_seq(trim_start_seq(s))
}

pub open spec fn is_ascii_digit(c: char) -> bool {
    '0' <= c <= '9'
}

pub open spec fn all_digits(s: Seq<char>) -> bool {
    forall|i: int| 0 <= i < s.len() ==> is_ascii_digit(#[trigger] s[i])
}

/// The value of a run of decimal digits.
pub open spec fn digits_value(s: Seq<char>) -> int
    decreases s.len(),
{
    if s.len() == 0 {
        0
    } else {
        digits_value(s.drop_last()) * 10 + (s.last() as int - '0' as int)
    }
}

/// The integer that `s` writes in the form `str::parse::<i64>` accepts:
/// an optional `+` or `-`, then at least one decimal digit, nothing else.
pub open spec fn parse_int_seq(s: Seq<char>) -> Option<int> {
    if s.len() > 0 && (s[0] == '+' || s[0] == '-') {
        let rest = s.drop_first();
        if rest.len() > 0 && all_digits(rest) {
            Some(if s[0] == '-' { -digits_value(rest) } else { digits_value(rest) })
        } else {
            None
        }
    } else if s.len() > 0 && all_digits(s) {
        Some(digits_value(s))
    } else {
        None
    }
}

/// What `str::parse::<i64>` gives: the written integer where it fits an `i64`.
pub open spec fn parse_i64_seq(s: Seq<char>) -> Option<i64> {
    match parse_int_seq(s) {
        Some(v) => if i64::MIN <= v <= i64::MAX { Some(v as i64) } else { None },
        None => None,
    }
}

pub open spec fn digit_char(d: int) -> char {
    (d + '0' as int) as char
}

/// The shortest decimal numeral of a natural number.
pub open spec fn nat_decimal(n: nat) -> Seq<char>
    decreases n,
{
    if n < 10 {
        seq![digit_char(n as int)]
    } else {
        nat_decimal(n / 10).push(digit_char((n % 10) as int))
    }
}

/// How `i64` displays: a `-` for negative values, then the decimal digits.
pub open spec fn int_decimal(v: int) -> Seq<char> {
    if v < 0 {
        seq!['-'] + nat_decimal((-v) as nat)
    } else {
        nat_decimal(v as nat)
    }
}

/// Consecutive equal elements collapsed to one (what `Vec::dedup` does).
pub open spec fn dedup_seq(s: Seq<Seq<char>>) -> Seq<Seq<char>>
    decreases s.len(),
{
    if s.len() <= 1 {
        s
    } else if s[s.len() - 1] == s[s.len() - 2] {
        dedup_seq(s.drop_last())
    } else {
        dedup_seq(s.drop_last()).push(s.last())
    }
}

/// The text inside an optional string.
pub open spec fn opt_view(s: Option<String>) -> Option<Seq<char>> {
    match s {
        Some(x) => Some(x@),
        None => None,
    }
}

/// What `str::to_lowercase` returns for a string.
pub uninterp spec fn lowercase(s: Seq<char>) -> Seq<char>;

// ---------------------------------------------------------------------------
// Lemmas
// ---------------------------------------------------------------------------

pub proof fn lemma_join_push(parts: Seq<Seq<char>>, sep: Seq<char>, p: Seq<char>)
    ensures
        join_seq(parts.push(p), sep) == (if parts.len() == 0 { p } else { join_seq(parts, sep) + sep + p }),
{
    assert(parts.push(p).drop_last() == parts);
}

proof fn lemma_digits_value_nonneg(s: Seq<char>)
    requires
        all_digits(s),
    ensures
        digits_value(s) >= 0,
    decreases s.len(),
{
    if s.len() > 0 {
        lemma_digits_value_nonneg(s.drop_last());
    }
}

proof fn lemma_digits_value_monotone(s: Seq<char>, k: int)
    requires
        all_digits(s),
        0 <= k <= s.len(),
    ensures
        digits_value(s.take(k)) <= digits_value(s),
    decreases s.len() - k,
{
    if k < s.len() {
        lemma_digits_value_monotone(s, k + 1);
        assert(s.take(k + 1).drop_last() == s.take(k));
        lemma_digits_value_nonneg(s.take(k));
        assert(all_digits(s.take(k)));
    } else {
        assert(s.take(k) == s);
    }
}

// ---------------------------------------------------------------------------
// Executable helpers
// ---------------------------------------------------------------------------

/// Wraps `String::push`, which appends the character at the end of the
/// text.
#[verifier::external_body]
pub(crate) fn push_char(s: &mut String, c: char)
    ensures
        final(s)@ == old(s)@.push(c),
{
    s.push(c);
}

/// Wraps `str::to_lowercase`: its result is the text that `lowercase`
/// names, so equal texts give equal results; the Unicode mapping itself is
/// not stated.
#[verifier::external_body]
pub(crate) fn to_lowercase(s: &str) -> (r: String)
    ensures
        r@ == lowercase(s@),
{
    s.to_lowercase()
}

/// The characters of `s`.
pub fn chars_of(s: &str) -> (r: Vec<char>)
    ensures
        r@ == s@,
{
    let mut out: Vec<char> = Vec::new();
    for c in it: s.chars()
        invariant
            out@ == it.seq().take(it.index() as int),
            it.seq() == s@,
    {
        out.push(c);
    }
    out
}

/// A `String` holding exactly `v`.
pub fn string_of(v: &[char]) -> (r: String)
    ensures
        r@ == v@,
{
    let mut out = String::new();
    let mut i: usize = 0;
    while i < v.len()
        invariant
            i <= v.len(),
            out@ == v@.take(i as int),
        decreases v.len() - i,
    {
        push_char(&mut out, v[i]);
        assert(v@.take(i + 1) == v@.take(i as int).push(v@[i as int]));
        i += 1;
    }
    assert(v@.take(v.len() as int) == v@);
    out
}

/// A copy of `s`.
pub fn owned(s: &str) -> (r: String)
    ensures
        r@ == s@,
{
    let v = chars_of(s);
    string_of(v.as_slice())
}

/// `a` and `b` hold the same characters.
pub fn chars_eq(a: &[char], b: &[char]) -> (r: bool)
    ensures
        r == (a@ == b@),
{
    if a.len() != b.len() {
        return false;
    }
    let mut i: usize = 0;
    while i < a.len()
        invariant
            a.len() == b.len(),
            i <= a.len(),
            forall|j: int| 0 <= j < i ==> a@[j] == b@[j],
        decreases a.len() - i,
    {
        if a[i] != b[i] {
            return false;
        }
        i += 1;
    }
    assert(a@ =~= b@);
    true
}

/// `a` and `b` are the same text.
pub fn str_eq(a: &str, b: &str) -> (r: bool)
    ensures
        r == (a@ == b@),
{
    let x = chars_of(a);
    let y = chars_of(b);
    chars_eq(x.as_slice(), y.as_slice())
}

/// Appends `t` to `s`.
pub fn append_str(s: &mut String, t: &str)
    ensures
        final(s)@ == old(s)@ + t@,
{
    let v = chars_of(t);
    let mut i: usize = 0;
    let ghost start = s@;
    while i < v.len()
        invariant
            i <= v.len(),
            v@ == t@,
            s@ == start + v@.take(i as int),
        decreases v.len() - i,
    {
        push_char(s, v[i]);
        assert(v@.take(i + 1) == v@.take(i as int).push(v@[i as int]));
        i += 1;
    }
    assert(v@.take(v.len() as int) == v@);
}

/// `needle` occurs in `hay`.
pub fn contains_chars(hay: &[char], needle: &[char]) -> (r: bool)
    ensures
        r == contains_seq(hay@, needle@),
{
    if needle.len() > hay.len() {
        return false;
    }
    let last = hay.len() - needle.len();
    let mut i: usize = 0;
    while i <= last
        invariant
            last == hay.len() - needle.len(),
            needle.len() <= hay.len(),
            i <= last + 1,
            forall|k: int| 0 <= k < i ==> #[trigger] hay@.subrange(k, k + needle.len()) != needle@,
        decreases last + 1 - i,
    {
        let mut j: usize = 0;
        let mut same = true;
        while j < needle.len()
            invariant
                i <= last,
                last == hay.len() - needle.len(),
                j <= needle.len(),
                same == (forall|m: int| 0 <= m < j ==> hay@[i + m] == needle@[m]),
            decreases needle.len() - j,
        {
            if hay[i + j] != needle[j] {
                same = false;
            }
            j += 1;
        }
        if same {
            assert(hay@.subrange(i as int, i + needle.len()) =~= needle@);
            return true;
        }
        assert(!(forall|m: int| 0 <= m < needle.len() ==> hay@[i + m] == needle@[m]));
        assert(hay@.subrange(i as int, i + needle.len()) != needle@) by {
            let m = choose|m: int| 0 <= m < needle.len() && hay@[i + m] != needle@[m];
            assert(hay@.subrange(i as int, i + needle.len())[m] == hay@[i + m]);
        }
        i += 1;
    }
    assert forall|k: int| 0 <= k && k + needle.len() <= hay.len() implies #[trigger] hay@.subrange(k, k + needle.len()) != needle@ by {
        assert(k < i);
    }
    false
}

/// `needle` occurs in `hay`.
pub fn str_contains(hay: &str, needle: &str) -> (r: bool)
    ensures
        r == contains_seq(hay@, needle@),
{
    let h = chars_of(hay);
    let n = chars_of(needle);
    contains_chars(h.as_slice(), n.as_slice())
}

/// `hay` begins with `prefix`.
pub fn starts_with_chars(hay: &[char], prefix: &[char]) -> (r: bool)
    ensures
        r == starts_with_seq(hay@, prefix@),
{
    if prefix.len() > hay.len() {
        return false;
    }
    let mut i: usize = 0;
    while i < prefix.len()
        invariant
            prefix.len() <= hay.len(),
            i <= prefix.len(),
            forall|j: int| 0 <= j < i ==> hay@[j] == prefix@[j],
        decreases prefix.len() - i,
    {
        if hay[i] != prefix[i] {
            assert(hay@.subrange(0, prefix.len() as int)[i as int] != prefix@[i as int]);
            return false;
        }
        i += 1;
    }
    assert(hay@.subrange(0, prefix.len() as int) =~= prefix@);
    true
}

/// `hay` ends with `suffix`.
pub fn ends_with_chars(hay: &[char], suffix: &[char]) -> (r: bool)
    ensures
        r == ends_with_seq(hay@, suffix@),
{
    if suffix.len() > hay.len() {
        return false;
    }
    let off = hay.len() - suffix.len();
    let mut i: usize = 0;
    while i < suffix.len()
        invariant
            off == hay.len() - suffix.len(),
            i <= suffix.len(),
            forall|j: int| 0 <= j < i ==> hay@[off + j] == suffix@[j],
        decreases suffix.len() - i,
    {
        if hay[off + i] != suffix[i] {
            assert(hay@.subrange(off as int, hay.len() as int)[i as int] != suffix@[i as int]);
            return false;
        }
        i += 1;
    }
    assert(hay@.subrange(off as int, hay.len() as int) =~= suffix@);
    true
}

/// Whether `c` is white space in the sense of `char::is_whitespace`.
pub fn is_whitespace(c: char) -> (r: bool)
    ensures
        r == is_unicode_whitespace(c),
{
    ('\u{9}' <= c && c <= '\u{d}') || c == ' ' || c == '\u{85}' || c == '\u{a0}' || c == '\u{1680}'
        || ('\u{2000}' <= c && c <= '\u{200a}') || c == '\u{2028}' || c == '\u{2029}'
        || c == '\u{202f}' || c == '\u{205f}' || c == '\u{3000}'
}

proof fn lemma_trim_start_skip(s: Seq<char>, i: int)
    requires
        0 <= i <= s.len(),
        forall|j: int| 0 <= j < i ==> is_unicode_whitespace(#[trigger] s[j]),
    ensures
        trim_start_seq(s) == trim_start_seq(s.subrange(i, s.len() as int)),
    decreases i,
{
    if i > 0 {
        lemma_trim_start_skip(s.drop_first(), i - 1);
        assert(s.drop_first().subrange(i - 1, s.drop_first().len() as int) == s.subrange(i, s.len() as int));
    } else {
        assert(s.subrange(0, s.len() as int) == s);
    }
}

proof fn lemma_trim_end_cut(s: Seq<char>, k: int)
    requires
        0 <= k <= s.len(),
        forall|j: int| k <= j < s.len() ==> is_unicode_whitespace(#[trigger] s[j]),
    ensures
        trim_end_seq(s) == trim_end_seq(s.subrange(0, k)),
    decreases s.len() - k,
{
    if k < s.len() {
        lemma_trim_end_cut(s.drop_last(), k);
        assert(s.drop_last().subrange(0, k) == s.subrange(0, k));
    } else {
        assert(s.subrange(0, k) == s);
    }
}

/// `v` without leading and trailing white space.
pub fn trim_chars(v: &[char]) -> (r: Vec<char>)
    ensures
        r@ == trim_seq(v@),
{
    let mut i: usize = 0;
    while i < v.len() && is_whitespace(v[i])
        invariant
            i <= v.len(),
            forall|j: int| 0 <= j < i ==> is_unicode_whitespace(#[trigger] v@[j]),
        decreases v.len() - i,
    {
        i += 1;
    }
    proof { lemma_trim_start_skip(v@, i as int); }
    let ghost rest = v@.subrange(i as int, v.len() as int);
    assert(trim_start_seq(rest) == rest);
    let mut k: usize = v.len();
    while k > i && is_whitespace(v[k - 1])
        invariant
            i <= k <= v.len(),
            forall|j: int| k <= j < v.len() ==> is_unicode_whitespace(#[trigger] v@[j]),
        decreases k,
    {
        k -= 1;
    }
    proof {
        assert forall|j: int| k - i <= j < rest.len() implies is_unicode_whitespace(#[trigger] rest[j]) by {
            assert(rest[j] == v@[i + j]);
        }
        lemma_trim_end_cut(rest, k - i);
        assert(rest.subrange(0, k - i) == v@.subrange(i as int, k as int));
        let cut = v@.subrange(i as int, k as int);
        if cut.len() > 0 {
            assert(cut.last() == v@[k - 1]);
        }
    }
    let mut out: Vec<char> = Vec::new();
    let mut p: usize = i;
    while p < k
        invariant
            i <= p <= k,
            k <= v.len(),
            out@ == v@.subrange(i as int, p as int),
        decreases k - p,
    {
        out.push(v[p]);
        assert(v@.subrange(i as int, p + 1) == v@.subrange(i as int, p as int).push(v@[p as int]));
        p += 1;
    }
    out
}

/// `s` without leading and trailing white space.
pub fn trim_str(s: &str) -> (r: String)
    ensures
        r@ == trim_seq(s@),
{
    let v = chars_of(s);
    let t = trim_chars(v.as_slice());
    string_of(t.as_slice())
}

/// What `str::parse::<i64>` gives, `None` where it fails.
pub fn parse_i64_chars(s: &[char]) -> (r: Option<i64>)
    ensures
        r == parse_i64_seq(s@),
{
    if s.len() == 0 {
        return None;
    }
    let negative = s[0] == '-';
    let start: usize = if s[0] == '+' || s[0] == '-' { 1 } else { 0 };
    if start >= s.len() {
        return None;
    }
    let ghost digits = s@.subrange(start as int, s.len() as int);
    proof {
        if start == 1 {
            assert(digits == s@.drop_first());
        } else {
            assert(digits == s@);
        }
    }
    let limit: i128 = 9_223_372_036_854_775_808;
    let mut acc: i128 = 0;
    let mut i: usize = start;
    while i < s.len()
        invariant
            start <= i <= s.len(),
            start < s.len(),
            start == (if s@[0] == '+' || s@[0] == '-' { 1usize } else { 0usize }),
            digits == s@.subrange(start as int, s.len() as int),
            forall|j: int| start <= j < i ==> is_ascii_digit(#[trigger] s@[j]),
            limit == 9_223_372_036_854_775_808,
            0 <= acc <= limit,
            acc == digits_value(digits.take(i - start)),
        decreases s.len() - i,
    {
        let c = s[i];
        if !('0' <= c && c <= '9') {
            proof {
                assert(digits[i - start] == c);
                assert(!is_ascii_digit(digits[i - start]));
                assert(!all_digits(digits));
                if start == 0 {
                    assert(!(s@[0] == '+' || s@[0] == '-'));
                }
            }
            return None;
        }
        let d = (c as u32 - '0' as u32) as i128;
        assert(0 <= d <= 9);
        assert(d == c as int - '0' as int);
        assert(digits.take(i + 1 - start).drop_last() == digits.take(i - start));
        assert(digits.take(i + 1 - start).last() == c);
        acc = acc * 10 + d;
        assert(acc == digits_value(digits.take(i + 1 - start)));
        if acc > limit {
            proof {
                assert forall|j: int| 0 <= j < i + 1 - start implies is_ascii_digit(#[trigger] digits.take(i + 1 - start)[j]) by {
                    assert(digits.take(i + 1 - start)[j] == s@[start + j]);
                }
                // A longer run of digits is never smaller; so the whole value is too large,
                // or some later character is not a digit.
                if all_digits(digits) {
                    lemma_digits_value_monotone(digits, i + 1 - start);
                    assert(digits_value(digits) > limit);
                }
                if start == 1 {
                    assert(digits == s@.drop_first());
                } else {
                    assert(digits == s@);
                }
            }
            return None;
        }
        i += 1;
    }
    proof {
        assert(digits.take(s.len() - start) == digits);
        assert(all_digits(digits)) by {
            assert forall|j: int| 0 <= j < digits.len() implies is_ascii_digit(#[trigger] digits[j]) by {
                assert(digits[j] == s@[start + j]);
            }
        }
    }
    if negative {
        Some((-acc) as i64)
    } else if acc == limit {
        None
    } else {
        Some(acc as i64)
    }
}

/// What `str::trim` then `str::parse::<i64>` give.
pub fn parse_trimmed_i64(s: &str) -> (r: Option<i64>)
    ensures
        r == parse_i64_seq(trim_seq(s@)),
{
    let v = chars_of(s);
    let t = trim_chars(v.as_slice());
    parse_i64_chars(t.as_slice())
}

proof fn lemma_nat_decimal_len(n: nat)
    ensures
        nat_decimal(n).len() >= 1,
    decreases n,
{
    if n >= 10 {
        lemma_nat_decimal_len(n / 10);
    }
}

fn nat_decimal_chars(n: u128) -> (r: Vec<char>)
    ensures
        r@ == nat_decimal(n as nat),
    decreases n,
{
    if n < 10 {
        let mut v: Vec<char> = Vec::new();
        v.push(((n as u32) + ('0' as u32)) as u8 as char);
        proof {
            assert(v@ =~= seq![digit_char(n as int)]);
        }
        v
    } else {
        let mut v = nat_decimal_chars(n / 10);
        let d = (n % 10) as u32;
        assert(d < 10);
        v.push((d + ('0' as u32)) as u8 as char);
        v
    }
}

/// The decimal text of `v`, as `i64` displays it.
pub fn decimal_of_i64(v: i64) -> (r: String)
    ensures
        r@ == int_decimal(v as int),
{
    if v < 0 {
        let magnitude: u128 = (-(v as i128)) as u128;
        let digits = nat_decimal_chars(magnitude);
        let mut out: Vec<char> = Vec::new();
        out.push('-');
        let mut i: usize = 0;
        while i < digits.len()
            invariant
                i <= digits.len(),
                out@ == seq!['-'] + digits@.take(i as int),
            decreases digits.len() - i,
        {
            out.push(digits[i]);
            assert(digits@.take(i + 1) == digits@.take(i as int).push(digits@[i as int]));
            i += 1;
        }
        assert(digits@.take(digits.len() as int) == digits@);
        string_of(out.as_slice())
    } else {
        let digits = nat_decimal_chars(v as u128);
        string_of(digits.as_slice())
    }
}

/// The decimal text of `n`.
pub fn decimal_of_u128(n: u128) -> (r: String)
    ensures
        r@ == int_decimal(n as int),
{
    let digits = nat_decimal_chars(n);
    string_of(digits.as_slice())
}

/// `parts` joined with `sep` between neighbours.
pub fn join_strings(parts: &[String], sep: &str) -> (r: String)
    ensures
        r@ == join_seq(parts@.map_values(|p: String| p@), sep@),
{
    let ghost views = parts@.map_values(|p: String| p@);
    let mut out = String::new();
    let mut i: usize = 0;
    while i < parts.len()
        invariant
            i <= parts.len(),
            views == parts@.map_values(|p: String| p@),
            out@ == join_seq(views.take(i as int), sep@),
        decreases parts.len() - i,
    {
        proof {
            assert(views.take(i + 1) == views.take(i as int).push(views[i as int]));
            lemma_join_push(views.take(i as int), sep@, views[i as int]);
        }
        if i > 0 {
            append_str(&mut out, sep);
        }
        append_str(&mut out, parts[i].as_str());
        proof {
            if i == 0 {
                assert(join_seq(views.take(0), sep@) == Seq::<char>::empty());
                assert(out@ == views[0]);
            }
        }
        i += 1;
    }
    assert(views.take(parts.len() as int) == views);
    out
}

/// Consecutive equal strings of `v` collapsed to one.
pub fn dedup_strings(v: Vec<String>) -> (r: Vec<String>)
    ensures
        r@.map_values(|p: String| p@) == dedup_seq(v@.map_values(|p: String| p@)),
{
    let ghost views = v@.map_values(|p: String| p@);
    let mut out: Vec<String> = Vec::new();
    let mut i: usize = 0;
    while i < v.len()
        invariant
            i <= v.len(),
            views == v@.map_values(|p: String| p@),
            out@.map_values(|p: String| p@) == dedup_seq(views.take(i as int)),
            i > 0 ==> out.len() > 0 && out@.last()@ == views[i - 1],
        decreases v.len() - i,
    {
        let cur = v[i].clone();
        proof {
            assert(views.take(i + 1).drop_last() == views.take(i as int));
        }
        let repeat = out.len() > 0 && str_eq(out[out.len() - 1].as_str(), cur.as_str());
        proof {
            if i > 0 {
                assert(views.take(i + 1)[i as int - 1] == views[i - 1]);
            }
        }
        if !repeat {
            proof {
                if i > 0 {
                    assert(out@.last()@ == views[i - 1]);
                }
            }
            out.push(cur);
            assert(out@.map_values(|p: String| p@) =~= dedup_seq(views.take(i as int)).push(views[i as int]));
        }
        proof {
            if i == 0 {
                assert(views.take(1) =~= seq![views[0]]);
            }
        }
        i += 1;
    }
    assert(views.take(v.len() as int) == views);
    out
}

} // verus!
