//! Text as a sequence of characters: trimming, splitting, searching and reading
//! numbers.
//!
//! Each executable function works on a slice of characters and is stated by the
//! specification function of the same meaning on `Seq<char>`.

use vstd::prelude::*;
use vstd::slice::slice_subrange;

verus! {

/// Unicode's `White_Space` characters.
pub open spec fn whitespace(c: char) -> bool {
    ||| '\u{9}' <= c <= '\u{d}'
    ||| c == ' '
    ||| c == '\u{85}'
    ||| c == '\u{a0}'
    ||| c == '\u{1680}'
    ||| '\u{2000}' <= c <= '\u{200a}'
    ||| c == '\u{2028}'
    ||| c == '\u{2029}'
    ||| c == '\u{202f}'
    ||| c == '\u{205f}'
    ||| c == '\u{3000}'
}

/// `s` without the white space at its start.
pub open spec fn trimmed_start(s: Seq<char>) -> Seq<char>
    decreases s.len(),
{
    if s.len() > 0 && whitespace(s.first()) {
        trimmed_start(s.skip(1))
    } else {
        s
    }
}

/// `s` without the white space at its end.
pub open spec fn trimmed_end(s: Seq<char>) -> Seq<char>
    decreases s.len(),
{
    if s.len() > 0 && whitespace(s.last()) {
        trimmed_end(s.drop_last())
    } else {
        s
    }
}

/// `s` without the white space around it.
pub open spec fn trimmed(s: Seq<char>) -> Seq<char> {
    trimmed_end(trimmed_start(s))
}

/// `s` without the copies of `c` at its start.
pub open spec fn stripped_start(s: Seq<char>, c: char) -> Seq<char>
    decreases s.len(),
{
    if s.len() > 0 && s.first() == c {
        stripped_start(s.skip(1), c)
    } else {
        s
    }
}

/// `s` without the copies of `c` at its end.
pub open spec fn stripped_end(s: Seq<char>, c: char) -> Seq<char>
    decreases s.len(),
{
    if s.len() > 0 && s.last() == c {
        stripped_end(s.drop_last(), c)
    } else {
        s
    }
}

/// What follows `prefix` in `s`, where `s` starts with it.
pub open spec fn after_prefix(s: Seq<char>, prefix: Seq<char>) -> Option<Seq<char>> {
    if prefix.is_prefix_of(s) {
        Some(s.skip(prefix.len() as int))
    } else {
        None
    }
}

/// What precedes `suffix` in `s`, where `s` ends with it.
pub open spec fn before_suffix(s: Seq<char>, suffix: Seq<char>) -> Option<Seq<char>> {
    if suffix.is_suffix_of(s) {
        Some(s.take(s.len() - suffix.len()))
    } else {
        None
    }
}

/// The place of the first `c` in `s`, or the length of `s` where it holds none.
pub open spec fn position(s: Seq<char>, c: char) -> nat
    decreases s.len(),
{
    if s.len() == 0 || s.first() == c {
        0
    } else {
        1 + position(s.skip(1), c)
    }
}

/// What stands before and after the first `c` in `s`.
pub open spec fn split_at_first(s: Seq<char>, c: char) -> Option<(Seq<char>, Seq<char>)> {
    let n = position(s, c) as int;
    if n < s.len() {
        Some((s.take(n), s.skip(n + 1)))
    } else {
        None
    }
}

/// A line without the carriage return that its line feed may follow.
pub open spec fn without_cr(line: Seq<char>) -> Seq<char> {
    if line.len() > 0 && line.last() == '\r' {
        line.drop_last()
    } else {
        line
    }
}

/// The lines of `s`. A line ends with a line feed, or with a carriage return and
/// a line feed; the last one may end with the text.
pub open spec fn lines_of(s: Seq<char>) -> Seq<Seq<char>>
    decreases s.len(),
{
    if s.len() == 0 {
        Seq::empty()
    } else {
        match split_at_first(s, '\n') {
            Some((line, rest)) => seq![without_cr(line)] + lines_of(rest),
            None => seq![s],
        }
    }
}

/// How many characters at the start of `s` are no white space.
pub open spec fn word_len(s: Seq<char>) -> nat
    decreases s.len(),
{
    if s.len() == 0 || whitespace(s.first()) {
        0
    } else {
        1 + word_len(s.skip(1))
    }
}

/// The first word of `s`, words being set apart by white space.
pub open spec fn first_word(s: Seq<char>) -> Option<Seq<char>> {
    let t = trimmed_start(s);
    if t.len() == 0 {
        None
    } else {
        Some(t.take(word_len(t) as int))
    }
}

/// Whether `needle` stands in `s` at place `i`.
pub open spec fn occurs_at(s: Seq<char>, needle: Seq<char>, i: int) -> bool {
    0 <= i && i + needle.len() <= s.len() && s.subrange(i, i + needle.len()) == needle
}

/// Whether `needle` stands somewhere in `s`.
pub open spec fn occurs(s: Seq<char>, needle: Seq<char>) -> bool {
    exists|i: int| #[trigger] occurs_at(s, needle, i)
}

/// The value of a decimal digit.
pub open spec fn digit(c: char) -> Option<nat> {
    if '0' <= c <= '9' {
        Some((c as nat - '0' as nat) as nat)
    } else {
        None
    }
}

/// The number that a non-empty row of decimal digits writes.
pub open spec fn decimal(s: Seq<char>) -> Option<nat>
    decreases s.len(),
{
    if s.len() == 0 {
        None
    } else if s.len() == 1 {
        digit(s.last())
    } else {
        match (decimal(s.drop_last()), digit(s.last())) {
            (Some(n), Some(d)) => Some(n * 10 + d),
            _ => None,
        }
    }
}

/// `s` without the plus sign that it may start with.
pub open spec fn without_plus(s: Seq<char>) -> Seq<char> {
    if s.len() > 0 && s.first() == '+' {
        s.skip(1)
    } else {
        s
    }
}

/// The number that `s` writes: decimal digits, after a plus sign or none, and no
/// more than `max`.
pub open spec fn unsigned(s: Seq<char>, max: nat) -> Option<nat> {
    match decimal(without_plus(s)) {
        Some(n) if n <= max => Some(n),
        _ => None,
    }
}

/// `c` with the letters `A` to `Z` in lower case.
pub open spec fn ascii_lower_char(c: char) -> char {
    if 'A' <= c <= 'Z' {
        (c as u32 + 32) as char
    } else {
        c
    }
}

/// `s` with the letters `A` to `Z` in lower case.
pub open spec fn ascii_lower(s: Seq<char>) -> Seq<char> {
    s.map_values(|c: char| ascii_lower_char(c))
}

/// The view of an optional slice.
pub open spec fn viewed(o: Option<&[char]>) -> Option<Seq<char>> {
    match o {
        Some(s) => Some(s@),
        None => None,
    }
}

/// The view of an optional string.
pub open spec fn text_view(o: Option<String>) -> Option<Seq<char>> {
    match o {
        Some(s) => Some(s@),
        None => None,
    }
}

/// Whether `c` is one of Unicode's `White_Space` characters.
pub fn is_whitespace(c: char) -> (r: bool)
    ensures
        r == whitespace(c),
{
    ('\u{9}' <= c && c <= '\u{d}') || c == ' ' || c == '\u{85}' || c == '\u{a0}' || c == '\u{1680}'
        || ('\u{2000}' <= c && c <= '\u{200a}') || c == '\u{2028}' || c == '\u{2029}' || c
        == '\u{202f}' || c == '\u{205f}' || c == '\u{3000}'
}

/// The characters of a string.
pub fn chars_of(s: &str) -> (r: Vec<char>)
    ensures
        r@ == s@,
{
    let mut out: Vec<char> = Vec::new();
    for c in it: s.chars()
        invariant
            it.seq() == s@,
            out@ == s@.take(it.index() as int),
    {
        out.push(c);
    }
    out
}

/// Appends one character to a string: `String::push`.
pub assume_specification[ String::push ](s: &mut String, ch: char)
    ensures
        final(s)@ == old(s)@.push(ch),
;

/// The string that holds the given characters.
pub fn text_of(s: &[char]) -> (r: String)
    ensures
        r@ == s@,
{
    let mut out = String::new();
    let mut i: usize = 0;
    while i < s.len()
        invariant
            i <= s@.len(),
            out@ == s@.take(i as int),
        decreases s@.len() - i,
    {
        out.push(s[i]);
        i += 1;
    }
    assert(s@.take(s@.len() as int) == s@);
    out
}

/// Trimming leaves a text that has no white space at its ends as it is.
pub proof fn lemma_trim_keeps(s: Seq<char>)
    requires
        s.len() > 0 ==> !whitespace(s.first()) && !whitespace(s.last()),
    ensures
        trimmed(s) == s,
{
}

/// A trimmed text has no white space at its ends.
pub proof fn lemma_trimmed_ends(s: Seq<char>)
    ensures
        trimmed(s).len() > 0 ==> !whitespace(trimmed(s).first()) && !whitespace(trimmed(s).last()),
{
    lemma_trimmed_start_first(s);
    lemma_trimmed_end_last(trimmed_start(s));
}

/// A text that is trimmed at its start has no white space there.
proof fn lemma_trimmed_start_first(s: Seq<char>)
    ensures
        trimmed_start(s).len() > 0 ==> !whitespace(trimmed_start(s).first()),
    decreases s.len(),
{
    if s.len() > 0 && whitespace(s.first()) {
        lemma_trimmed_start_first(s.skip(1));
    }
}

/// A text that is trimmed at its end has no white space there, and starts as before.
proof fn lemma_trimmed_end_last(s: Seq<char>)
    ensures
        trimmed_end(s).len() > 0 ==> !whitespace(trimmed_end(s).last()) && s.len() > 0
            && trimmed_end(s).first() == s.first(),
    decreases s.len(),
{
    if s.len() > 0 && whitespace(s.last()) {
        lemma_trimmed_end_last(s.drop_last());
    }
}

/// `str::trim_start` on characters.
fn trim_start(s: &[char]) -> (r: &[char])
    ensures
        r@ == trimmed_start(s@),
{
    let mut i: usize = 0;
    assert(s@.skip(0) == s@);
    while i < s.len() && is_whitespace(s[i])
        invariant
            i <= s@.len(),
            trimmed_start(s@) == trimmed_start(s@.skip(i as int)),
        decreases s@.len() - i,
    {
        assert(s@.skip(i as int).skip(1) == s@.skip(i + 1));
        i += 1;
    }
    slice_subrange(s, i, s.len())
}

/// `str::trim_end` on characters.
fn trim_end(s: &[char]) -> (r: &[char])
    ensures
        r@ == trimmed_end(s@),
{
    let mut n: usize = s.len();
    assert(s@.take(n as int) == s@);
    while n > 0 && is_whitespace(s[n - 1])
        invariant
            n <= s@.len(),
            trimmed_end(s@) == trimmed_end(s@.take(n as int)),
        decreases n,
    {
        assert(s@.take(n as int).drop_last() == s@.take(n - 1));
        n -= 1;
    }
    slice_subrange(s, 0, n)
}

/// The characters without the white space around them.
pub fn trim(s: &[char]) -> (r: &[char])
    ensures
        r@ == trimmed(s@),
{
    trim_end(trim_start(s))
}

/// The characters without the copies of `c` at their start.
pub fn strip_start(s: &[char], c: char) -> (r: &[char])
    ensures
        r@ == stripped_start(s@, c),
{
    let mut i: usize = 0;
    assert(s@.skip(0) == s@);
    while i < s.len() && s[i] == c
        invariant
            i <= s@.len(),
            stripped_start(s@, c) == stripped_start(s@.skip(i as int), c),
        decreases s@.len() - i,
    {
        assert(s@.skip(i as int).skip(1) == s@.skip(i + 1));
        i += 1;
    }
    slice_subrange(s, i, s.len())
}

/// The characters without the copies of `c` at their end.
pub fn strip_end(s: &[char], c: char) -> (r: &[char])
    ensures
        r@ == stripped_end(s@, c),
{
    let mut n: usize = s.len();
    assert(s@.take(n as int) == s@);
    while n > 0 && s[n - 1] == c
        invariant
            n <= s@.len(),
            stripped_end(s@, c) == stripped_end(s@.take(n as int), c),
        decreases n,
    {
        assert(s@.take(n as int).drop_last() == s@.take(n - 1));
        n -= 1;
    }
    slice_subrange(s, 0, n)
}

/// Whether `needle` stands in `s` at place `i`.
fn stands_at(s: &[char], needle: &[char], i: usize) -> (r: bool)
    requires
        i <= s@.len(),
    ensures
        r == occurs_at(s@, needle@, i as int),
{
    if needle.len() > s.len() - i {
        return false;
    }
    let mut k: usize = 0;
    while k < needle.len()
        invariant
            k <= needle@.len(),
            i + needle@.len() <= s.len(),
            forall|j: int| 0 <= j < k ==> s@[i + j] == #[trigger] needle@[j],
        decreases needle@.len() - k,
    {
        if s[i + k] != needle[k] {
            assert(s@.subrange(i as int, i + needle@.len())[k as int] != needle@[k as int]);
            return false;
        }
        k += 1;
    }
    assert(s@.subrange(i as int, i + needle@.len()) =~= needle@);
    true
}

/// Whether the two hold the same characters.
pub fn same(a: &[char], b: &[char]) -> (r: bool)
    ensures
        r == (a@ == b@),
{
    let r = a.len() == b.len() && stands_at(a, b, 0);
    assert(a@.subrange(0, a@.len() as int) == a@);
    r
}

/// Whether `needle` stands somewhere in `s`.
pub fn contains(s: &[char], needle: &[char]) -> (r: bool)
    ensures
        r == occurs(s@, needle@),
{
    let mut i: usize = 0;
    while i < s.len()
        invariant
            i <= s@.len(),
            forall|j: int| 0 <= j < i ==> !occurs_at(s@, needle@, j),
        decreases s@.len() - i,
    {
        if stands_at(s, needle, i) {
            return true;
        }
        i += 1;
    }
    stands_at(s, needle, s.len())
}

/// What follows `prefix` in `s`, where `s` starts with it.
pub fn strip_prefix<'a>(s: &'a [char], prefix: &str) -> (r: Option<&'a [char]>)
    ensures
        viewed(r) == after_prefix(s@, prefix@),
{
    let p = chars_of(prefix);
    if stands_at(s, p.as_slice(), 0) {
        assert(s@.subrange(0, p@.len() as int) == s@.take(p@.len() as int));
        Some(slice_subrange(s, p.len(), s.len()))
    } else {
        assert(p@.len() <= s@.len() ==> s@.subrange(0, p@.len() as int) == s@.take(p@.len() as int));
        None
    }
}

/// What precedes `suffix` in `s`, where `s` ends with it.
pub fn strip_suffix<'a>(s: &'a [char], suffix: &str) -> (r: Option<&'a [char]>)
    ensures
        viewed(r) == before_suffix(s@, suffix@),
{
    let p = chars_of(suffix);
    if p.len() <= s.len() && stands_at(s, p.as_slice(), s.len() - p.len()) {
        Some(slice_subrange(s, 0, s.len() - p.len()))
    } else {
        None
    }
}

/// The place of the first `c`, or the length where there is none.
fn find(s: &[char], c: char) -> (r: usize)
    ensures
        r == position(s@, c),
        r <= s@.len(),
{
    let mut i: usize = 0;
    assert(s@.skip(0) == s@);
    while i < s.len() && s[i] != c
        invariant
            i <= s@.len(),
            position(s@, c) == i + position(s@.skip(i as int), c),
        decreases s@.len() - i,
    {
        assert(s@.skip(i as int).skip(1) == s@.skip(i + 1));
        i += 1;
    }
    i
}

/// What stands before and after the first `c`.
pub fn split_once(s: &[char], c: char) -> (r: Option<(&[char], &[char])>)
    ensures
        match r {
            Some((a, b)) => split_at_first(s@, c) == Some((a@, b@)),
            None => split_at_first(s@, c) is None,
        },
{
    let n = find(s, c);
    if n < s.len() {
        Some((slice_subrange(s, 0, n), slice_subrange(s, n + 1, s.len())))
    } else {
        None
    }
}

/// The views of a list of slices.
pub open spec fn views(v: Seq<&[char]>) -> Seq<Seq<char>> {
    v.map_values(|s: &[char]| s@)
}

/// The lines of a text.
pub fn lines(s: &[char]) -> (r: Vec<&[char]>)
    ensures
        views(r@) == lines_of(s@),
{
    let mut out: Vec<&[char]> = Vec::new();
    let mut rest: &[char] = s;
    assert(views(out@) + lines_of(rest@) =~= lines_of(s@));
    while rest.len() > 0
        invariant
            views(out@) + lines_of(rest@) == lines_of(s@),
        decreases rest@.len(),
    {
        let ghost before = out@;
        let ghost left = rest@;
        match split_once(rest, '\n') {
            Some((line, after)) => {
                if line.len() > 0 && line[line.len() - 1] == '\r' {
                    out.push(slice_subrange(line, 0, line.len() - 1));
                } else {
                    out.push(line);
                }
                rest = after;
                assert(views(out@) == views(before).push(without_cr(line@)));
                assert(views(out@) + lines_of(rest@) =~= views(before) + lines_of(left));
            },
            None => {
                out.push(rest);
                rest = slice_subrange(rest, rest.len(), rest.len());
                assert(views(out@) == views(before).push(left));
                assert(views(out@) + lines_of(rest@) =~= views(before) + lines_of(left));
            },
        }
    }
    assert(views(out@) + lines_of(rest@) =~= views(out@));
    out
}

/// The first word of a text.
pub fn word(s: &[char]) -> (r: Option<&[char]>)
    ensures
        viewed(r) == first_word(s@),
{
    let t = trim_start(s);
    if t.len() == 0 {
        return None;
    }
    let mut i: usize = 0;
    assert(t@.skip(0) == t@);
    while i < t.len() && !is_whitespace(t[i])
        invariant
            i <= t@.len(),
            word_len(t@) == i + word_len(t@.skip(i as int)),
        decreases t@.len() - i,
    {
        assert(t@.skip(i as int).skip(1) == t@.skip(i + 1));
        i += 1;
    }
    Some(slice_subrange(t, 0, i))
}

/// A row of digits starts with a digit.
pub proof fn lemma_decimal_digits(s: Seq<char>)
    ensures
        decimal(s) is Some ==> s.len() > 0 && digit(s.first()) is Some,
{
    if decimal(s) is Some {
        lemma_decimal_prefix(s, 1);
    }
}

/// A prefix of a row of digits writes no more than the row.
proof fn lemma_decimal_prefix(s: Seq<char>, k: int)
    requires
        decimal(s) is Some,
        0 < k <= s.len(),
    ensures
        decimal(s.take(k)) is Some,
        decimal(s.take(k))->0 <= decimal(s)->0,
    decreases s.len(),
{
    if k == s.len() {
        assert(s.take(k) == s);
    } else {
        lemma_decimal_prefix(s.drop_last(), k);
        assert(s.drop_last().take(k) == s.take(k));
    }
}

/// `str::parse::<u64>` on characters.
pub fn parse_u64(s: &[char]) -> (r: Option<u64>)
    ensures
        match r {
            Some(n) => unsigned(s@, u64::MAX as nat) == Some(n as nat),
            None => unsigned(s@, u64::MAX as nat) is None,
        },
{
    let d: &[char] = if s.len() > 0 && s[0] == '+' {
        slice_subrange(s, 1, s.len())
    } else {
        s
    };
    if d.len() == 0 {
        return None;
    }
    let mut n: u64 = 0;
    let mut i: usize = 0;
    while i < d.len()
        invariant
            i <= d@.len(),
            0 < d@.len(),
            d@ == without_plus(s@),
            i == 0 ==> n == 0,
            i > 0 ==> decimal(d@.take(i as int)) == Some(n as nat),
        decreases d@.len() - i,
    {
        let c = d[i];
        assert(d@.take(i + 1).drop_last() == d@.take(i as int));
        assert(d@.take(i + 1).last() == c);
        proof {
            if decimal(d@) is Some {
                lemma_decimal_prefix(d@, i + 1);
            }
        }
        if c < '0' || '9' < c {
            return None;
        }
        let v: u64 = (c as u32 - '0' as u32) as u64;
        if n > (u64::MAX - v) / 10 {
            return None;
        }
        n = n * 10 + v;
        i += 1;
    }
    assert(d@.take(d@.len() as int) == d@);
    Some(n)
}

/// `str::parse::<u32>` on characters.
pub fn parse_u32(s: &[char]) -> (r: Option<u32>)
    ensures
        match r {
            Some(n) => unsigned(s@, u32::MAX as nat) == Some(n as nat),
            None => unsigned(s@, u32::MAX as nat) is None,
        },
{
    match parse_u64(s) {
        Some(n) if n <= u32::MAX as u64 => Some(n as u32),
        _ => None,
    }
}

/// The character of a decimal digit.
pub open spec fn digit_char(d: nat) -> char {
    ('0' as nat + d) as char
}

/// A number in decimal digits.
pub open spec fn written(n: nat) -> Seq<char>
    decreases n,
{
    if n < 10 {
        seq![digit_char(n)]
    } else {
        written(n / 10).push(digit_char(n % 10))
    }
}

/// A number that is written in decimal digits reads back as itself.
pub proof fn law_written_reads_back(n: nat)
    ensures
        decimal(written(n)) == Some(n),
    decreases n,
{
    if n >= 10 {
        law_written_reads_back(n / 10);
        assert(written(n).drop_last() =~= written(n / 10));
    }
}

/// A number in decimal digits.
pub fn number_text(n: u64) -> (r: String)
    ensures
        r@ == written(n as nat),
    decreases n,
{
    let mut out = if n < 10 {
        String::new()
    } else {
        number_text(n / 10)
    };
    out.push((48 + (n % 10) as u8) as char);
    out
}

/// `str::to_ascii_lowercase` on characters.
pub fn to_ascii_lower(s: &[char]) -> (r: Vec<char>)
    ensures
        r@ == ascii_lower(s@),
{
    let mut out: Vec<char> = Vec::new();
    let mut i: usize = 0;
    while i < s.len()
        invariant
            i <= s@.len(),
            out@ == ascii_lower(s@.take(i as int)),
        decreases s@.len() - i,
    {
        let c = s[i];
        let l = if 'A' <= c && c <= 'Z' {
            (c as u8 + 32) as char
        } else {
            c
        };
        out.push(l);
        assert(out@ =~= ascii_lower(s@.take(i + 1)));
        i += 1;
    }
    assert(s@.take(s@.len() as int) == s@);
    out
}

// -- Laws --

/// Whether a text is nothing but white space.
pub open spec fn blank(s: Seq<char>) -> bool {
    forall|k: int| 0 <= k < s.len() ==> whitespace(#[trigger] s[k])
}

/// Whether a text is nothing but copies of one character.
pub open spec fn copies(s: Seq<char>, c: char) -> bool {
    forall|k: int| 0 <= k < s.len() ==> #[trigger] s[k] == c
}

/// White space before a text does not reach what is left of it.
proof fn lemma_trimmed_start_blank(gap: Seq<char>, s: Seq<char>)
    requires
        blank(gap),
    ensures
        trimmed_start(gap + s) == trimmed_start(s),
    decreases gap.len(),
{
    if gap.len() == 0 {
        assert(gap + s =~= s);
    } else {
        assert(whitespace(gap[0]));
        assert((gap + s).skip(1) =~= gap.skip(1) + s);
        assert forall|k: int| 0 <= k < gap.skip(1).len() implies whitespace(
            #[trigger] gap.skip(1)[k],
        ) by {
            assert(whitespace(gap[k + 1]));
        }
        lemma_trimmed_start_blank(gap.skip(1), s);
    }
}

/// White space after a text does not reach what is left of it.
proof fn lemma_trimmed_end_blank(s: Seq<char>, gap: Seq<char>)
    requires
        blank(gap),
    ensures
        trimmed_end(s + gap) == trimmed_end(s),
    decreases gap.len(),
{
    if gap.len() == 0 {
        assert(s + gap =~= s);
    } else {
        assert(whitespace(gap[gap.len() - 1]));
        assert((s + gap).drop_last() =~= s + gap.drop_last());
        assert forall|k: int| 0 <= k < gap.drop_last().len() implies whitespace(
            #[trigger] gap.drop_last()[k],
        ) by {
            assert(whitespace(gap[k]));
        }
        lemma_trimmed_end_blank(s, gap.drop_last());
    }
}

/// Trimming takes away the white space around a text, all of it and nothing else: the
/// white space within stays.
pub proof fn law_trimmed(before: Seq<char>, core: Seq<char>, behind: Seq<char>)
    requires
        blank(before),
        blank(behind),
        core.len() > 0 ==> !whitespace(core.first()) && !whitespace(core.last()),
    ensures
        trimmed(before + core + behind) == core,
{
    assert(before + core + behind =~= before + (core + behind));
    lemma_trimmed_start_blank(before, core + behind);
    if core.len() > 0 {
        lemma_trimmed_end_blank(core, behind);
    } else {
        assert(core + behind =~= behind + core);
        lemma_trimmed_start_blank(behind, core);
    }
}

/// Stripping a character takes its copies off the one end, all of them and nothing
/// else.
pub proof fn law_stripped(core: Seq<char>, tail: Seq<char>, c: char)
    requires
        copies(tail, c),
    ensures
        core.len() > 0 ==> core.last() != c ==> stripped_end(core + tail, c) == core,
        core.len() > 0 ==> core.first() != c ==> stripped_start(tail + core, c) == core,
        core.len() == 0 ==> stripped_end(core + tail, c) == core && stripped_start(tail + core, c)
            == core,
    decreases tail.len(),
{
    if tail.len() == 0 {
        assert(core + tail =~= core);
        assert(tail + core =~= core);
    } else {
        assert(tail[0] == c && tail[tail.len() - 1] == c);
        assert((core + tail).drop_last() =~= core + tail.drop_last());
        assert((tail + core).skip(1) =~= tail.skip(1) + core);
        assert forall|k: int| 0 <= k < tail.drop_last().len() implies #[trigger] tail.drop_last()[k]
            == c by {
            assert(tail[k] == c);
        }
        assert(tail.skip(1) =~= tail.drop_last()) by {
            assert forall|k: int| 0 <= k < tail.skip(1).len() implies #[trigger] tail.skip(1)[k]
                == tail.drop_last()[k] by {
                assert(tail[k + 1] == c && tail[k] == c);
            }
        }
        law_stripped(core, tail.drop_last(), c);
    }
}

/// What follows a prefix is what was put behind it, and a text has something behind a
/// prefix only where it starts with it.
pub proof fn law_after_prefix(s: Seq<char>, prefix: Seq<char>, rest: Seq<char>)
    ensures
        after_prefix(prefix + rest, prefix) == Some(rest),
        after_prefix(s, prefix) matches Some(r) ==> s == prefix + r,
{
    assert((prefix + rest).subrange(0, prefix.len() as int) =~= prefix);
    assert((prefix + rest).skip(prefix.len() as int) =~= rest);
    if prefix.is_prefix_of(s) {
        assert(s =~= prefix + s.skip(prefix.len() as int)) by {
            assert(s.subrange(0, prefix.len() as int) == prefix);
        }
    }
}

/// What precedes a suffix is what was put before it, and a text has something before a
/// suffix only where it ends with it.
pub proof fn law_before_suffix(s: Seq<char>, front: Seq<char>, suffix: Seq<char>)
    ensures
        before_suffix(front + suffix, suffix) == Some(front),
        before_suffix(s, suffix) matches Some(f) ==> s == f + suffix,
{
    let t = front + suffix;
    assert(t.subrange(t.len() - suffix.len(), t.len() as int) =~= suffix);
    assert(t.take(t.len() - suffix.len()) =~= front);
    if suffix.is_suffix_of(s) {
        assert(s =~= s.take(s.len() - suffix.len()) + suffix) by {
            assert(s.subrange(s.len() - suffix.len(), s.len() as int) == suffix);
        }
    }
}

/// The place of a character behind a text without it is the text's length.
proof fn lemma_position(a: Seq<char>, c: char, b: Seq<char>)
    requires
        !a.contains(c),
    ensures
        position(a + seq![c] + b, c) == a.len(),
        position(a, c) == a.len(),
    decreases a.len(),
{
    if a.len() > 0 {
        assert(a.contains(a[0]));
        assert forall|x: char| a.skip(1).contains(x) implies a.contains(x) by {
            let i = choose|i: int| 0 <= i < a.skip(1).len() && a.skip(1)[i] == x;
            assert(a[i + 1] == x);
        }
        assert((a + seq![c] + b).skip(1) =~= a.skip(1) + seq![c] + b);
        lemma_position(a.skip(1), c, b);
    }
}

/// A text is split at the first of the characters: what precedes it holds none, and
/// what follows it is kept whole, further ones included.
pub proof fn law_split_at_first(a: Seq<char>, c: char, b: Seq<char>)
    requires
        !a.contains(c),
    ensures
        split_at_first(a + seq![c] + b, c) == Some((a, b)),
        split_at_first(a, c) is None,
{
    lemma_position(a, c, b);
    let s = a + seq![c] + b;
    assert(s.take(a.len() as int) =~= a);
    assert(s.skip(a.len() as int + 1) =~= b);
}

/// The lines of a text are what stands between its line feeds. A carriage return before
/// the line feed belongs to the line's end, and the last line needs none.
pub proof fn law_lines(line: Seq<char>, rest: Seq<char>)
    requires
        !line.contains('\n'),
    ensures
        lines_of(Seq::empty()) == Seq::<Seq<char>>::empty(),
        line.len() > 0 ==> lines_of(line) == seq![line],
        line.len() == 0 || line.last() != '\r' ==> lines_of(line + seq!['\n'] + rest) == seq![line]
            + lines_of(rest),
        lines_of(line + seq!['\r', '\n'] + rest) == seq![line] + lines_of(rest),
{
    law_split_at_first(line, '\n', rest);
    let cr = line.push('\r');
    assert forall|x: char| cr.contains(x) implies line.contains(x) || x == '\r' by {
        let i = choose|i: int| 0 <= i < cr.len() && cr[i] == x;
        if i < line.len() {
            assert(line[i] == x);
        }
    }
    law_split_at_first(cr, '\n', rest);
    assert(line + seq!['\r', '\n'] + rest =~= cr + seq!['\n'] + rest);
    assert(cr.drop_last() =~= line);
}

/// A word ends where the text ends or white space follows.
proof fn lemma_word_len(w: Seq<char>, rest: Seq<char>)
    requires
        forall|k: int| 0 <= k < w.len() ==> !whitespace(#[trigger] w[k]),
        rest.len() > 0 ==> whitespace(rest.first()),
    ensures
        word_len(w + rest) == w.len(),
    decreases w.len(),
{
    if w.len() == 0 {
        assert(w + rest =~= rest);
    } else {
        assert(!whitespace(w[0]));
        assert((w + rest).skip(1) =~= w.skip(1) + rest);
        assert forall|k: int| 0 <= k < w.skip(1).len() implies !whitespace(
            #[trigger] w.skip(1)[k],
        ) by {
            assert(!whitespace(w[k + 1]));
        }
        lemma_word_len(w.skip(1), rest);
    }
}

/// The first word of a text is what stands behind the white space at its start, up to
/// the next white space or the text's end. White space alone has no word.
pub proof fn law_first_word(gap: Seq<char>, w: Seq<char>, rest: Seq<char>)
    requires
        blank(gap),
        forall|k: int| 0 <= k < w.len() ==> !whitespace(#[trigger] w[k]),
        rest.len() > 0 ==> whitespace(rest.first()),
    ensures
        w.len() > 0 ==> first_word(gap + w + rest) == Some(w),
        first_word(gap) is None,
{
    assert(gap + w + rest =~= gap + (w + rest));
    lemma_trimmed_start_blank(gap, w + rest);
    lemma_word_len(w, rest);
    if w.len() > 0 {
        assert(!whitespace(w[0]));
        assert((w + rest).take(w.len() as int) =~= w);
    }
    assert(gap + Seq::empty() =~= gap);
    lemma_trimmed_start_blank(gap, Seq::empty());
}

/// A text occurs in another wherever something, or nothing, stands before and behind it,
/// and nowhere else.
pub proof fn law_occurs(s: Seq<char>, front: Seq<char>, needle: Seq<char>, behind: Seq<char>)
    ensures
        occurs(front + needle + behind, needle),
        occurs(s, needle) ==> exists|a: Seq<char>, b: Seq<char>| s == #[trigger] (a + needle + b),
{
    let whole = front + needle + behind;
    assert(whole.subrange(front.len() as int, (front.len() + needle.len()) as int) =~= needle);
    assert(occurs_at(whole, needle, front.len() as int));
    if occurs(s, needle) {
        let i = choose|i: int| #[trigger] occurs_at(s, needle, i);
        let a = s.take(i);
        let b = s.skip(i + needle.len());
        assert(s =~= a + needle + b) by {
            assert(s.subrange(i, i + needle.len()) == needle);
        }
    }
}

/// A row of decimal digits writes the number that place value gives it: one more digit
/// multiplies by ten and adds the digit. Anything but a digit, and an empty row, writes
/// none.
pub proof fn law_decimal(s: Seq<char>, c: char)
    ensures
        decimal(Seq::empty()) is None,
        '0' <= c <= '9' ==> decimal(seq![c]) == Some((c as nat - 48) as nat),
        !('0' <= c <= '9') ==> decimal(seq![c]) is None,
        '0' <= c <= '9' && s.len() > 0 ==> match decimal(s) {
            Some(n) => decimal(s.push(c)) == Some((n * 10 + (c as nat - 48)) as nat),
            None => decimal(s.push(c)) is None,
        },
        !('0' <= c <= '9') ==> decimal(s.push(c)) is None,
{
    assert(s.push(c).drop_last() =~= s);
}

/// An unsigned number is a row of digits, with a plus sign before it or none, that
/// writes no more than the greatest number there is room for.
pub proof fn law_unsigned(s: Seq<char>, max: nat)
    ensures
        !(s.len() > 0 && s.first() == '+') ==> unsigned(s, max) == match decimal(s) {
            Some(n) => if n <= max {
                Some(n)
            } else {
                None
            },
            None => None,
        },
        unsigned(seq!['+'] + s, max) == match decimal(s) {
            Some(n) => if n <= max {
                Some(n)
            } else {
                None
            },
            None => None,
        },
{
    assert((seq!['+'] + s).skip(1) =~= s);
}

/// Lower case in ASCII replaces the letters `A` to `Z`, each in its place, and keeps every
/// other character.
pub proof fn law_ascii_lower(s: Seq<char>, i: int)
    requires
        0 <= i < s.len(),
    ensures
        ascii_lower(s).len() == s.len(),
        'A' <= s[i] <= 'Z' ==> ascii_lower(s)[i] as int == s[i] as int + 32,
        !('A' <= s[i] <= 'Z') ==> ascii_lower(s)[i] == s[i],
{
}

/// A number is written without a zero before its other digits, and such a row of digits
/// is how its number is written.
pub proof fn law_written_once(s: Seq<char>, n: nat)
    ensures
        written(n).len() > 0,
        written(n).len() > 1 ==> written(n).first() != '0',
        decimal(s) == Some(n) && (s.len() > 1 ==> s.first() != '0') ==> s == written(n),
    decreases n, s.len(),
{
    if n >= 10 {
        law_written_once(s, n / 10);
        assert(written(n).first() == written(n / 10).first());
        if n / 10 >= 10 {
            law_written_once(s, n / 10 / 10);
            assert(written(n / 10).len() > 1);
        }
    }
    if decimal(s) == Some(n) && (s.len() > 1 ==> s.first() != '0') {
        if s.len() == 1 {
            assert(s =~= seq![s.last()]);
        } else {
            let front = s.drop_last();
            lemma_decimal_prefix(front, 1);
            assert(front.take(1) =~= seq![s.first()]);
            lemma_decimal_digits(s);
            let m = decimal(front)->0;
            let d = digit(s.last())->0;
            assert(m >= 1);
            assert(n / 10 == m && n % 10 == d);
            law_written_once(front, m);
            assert(s =~= written(m).push(s.last()));
        }
    }
}

/// What a slice, or a list of slices, is: its characters, and theirs in order.
pub proof fn law_views(s: &[char], v: Seq<&[char]>, i: int)
    requires
        0 <= i < v.len(),
    ensures
        viewed(Some(s)) == Some(s@),
        viewed(None) == None::<Seq<char>>,
        views(v).len() == v.len(),
        views(v)[i] == v[i]@,
{
}

/// What an optional text is: its characters, where there is one.
pub proof fn law_text_view(s: String)
    ensures
        text_view(Some(s)) == Some(s@),
        text_view(None) == None::<Seq<char>>,
{
}

} // verus!
