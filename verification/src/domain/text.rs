//! Character-level text primitives shared by the parsers and the renderers.
//!
//! Strings are modelled by their view, a `Seq<char>`. Parsers work on a
//! `Vec<char>` so that every position is read in constant time.

use vstd::prelude::*;
use vstd::std_specs::iter::IteratorSpec;
use vstd::string::*;

verus! {

broadcast use vstd::string::group_string_axioms;

/// The characters of `s`, in order.
pub fn chars_of(s: &str) -> (out: Vec<char>)
    ensures
        out@ == s@,
{
    let mut out: Vec<char> = Vec::new();
    for c in it: s.chars()
        invariant
            it.seq() == s@,
            out@ == it.seq().take(it.index()),
    {
        out.push(c);
    }
    out
}

/// `String::push`: the character is appended to the string.
#[verifier::external_body]
fn push_char(text: &mut String, c: char)
    ensures
        final(text)@ == old(text)@.push(c),
{
    text.push(c);
}

/// The string made of `chars[from..to]`.
pub fn string_of_range(chars: &Vec<char>, from: usize, to: usize) -> (out: String)
    requires
        from <= to <= chars.len(),
    ensures
        out@ == chars@.subrange(from as int, to as int),
{
    let mut out = String::new();
    let mut i: usize = from;
    while i < to
        invariant
            from <= i <= to <= chars.len(),
            out@ == chars@.subrange(from as int, i as int),
        decreases to - i,
    {
        push_char(&mut out, chars[i]);
        i += 1;
    }
    out
}

/// The string made of `chars`.
pub fn string_from_chars(chars: &Vec<char>) -> (out: String)
    ensures
        out@ == chars@,
{
    assert(chars@.subrange(0, chars@.len() as int) == chars@);
    string_of_range(chars, 0, chars.len())
}

/// Whether two strings hold the same characters.
pub fn str_eq(a: &str, b: &str) -> (r: bool)
    ensures
        r == (a@ == b@),
{
    let mut ia = a.chars();
    let mut ib = b.chars();
    let ghost mut done: int = 0;
    loop
        invariant
            0 <= done <= a@.len(),
            done <= b@.len(),
            ia.remaining() == a@.skip(done),
            ib.remaining() == b@.skip(done),
            a@.take(done) == b@.take(done),
        decreases a@.len() - done,
    {
        let ca = ia.next();
        let cb = ib.next();
        match (ca, cb) {
            (None, None) => {
                proof {
                    assert(a@.take(done) == a@);
                    assert(b@.take(done) == b@);
                }
                return true;
            },
            (Some(x), Some(y)) => {
                if x != y {
                    assert(a@[done] != b@[done]);
                    return false;
                }
                proof {
                    assert(a@.take(done + 1) == a@.take(done).push(a@[done]));
                    assert(b@.take(done + 1) == b@.take(done).push(b@[done]));
                    assert(a@.skip(done).drop_first() == a@.skip(done + 1));
                    assert(b@.skip(done).drop_first() == b@.skip(done + 1));
                    done = done + 1;
                }
            },
            _ => {
                assert(a@.len() != b@.len());
                return false;
            },
        }
    }
}

/// Strict lexicographic order on character sequences, compared from
/// position `i` on. Characters compare by code point, which is the order
/// of the UTF-8 bytes that `str` itself compares by.
pub open spec fn lex_less_from(a: Seq<char>, b: Seq<char>, i: int) -> bool
    decreases a.len() - i,
{
    if i < 0 || i >= b.len() {
        false
    } else if i >= a.len() {
        true
    } else if a[i] != b[i] {
        a[i] < b[i]
    } else {
        lex_less_from(a, b, i + 1)
    }
}

/// Strict lexicographic order on character sequences.
pub open spec fn lex_less(a: Seq<char>, b: Seq<char>) -> bool {
    lex_less_from(a, b, 0)
}

proof fn lemma_lex_irreflexive_from(a: Seq<char>, i: int)
    requires
        0 <= i,
    ensures
        !lex_less_from(a, a, i),
    decreases a.len() - i,
{
    if i < a.len() {
        lemma_lex_irreflexive_from(a, i + 1);
    }
}

proof fn lemma_lex_transitive_from(a: Seq<char>, b: Seq<char>, c: Seq<char>, i: int)
    requires
        0 <= i,
        lex_less_from(a, b, i),
        lex_less_from(b, c, i),
    ensures
        lex_less_from(a, c, i),
    decreases a.len() - i,
{
    if i < a.len() && i < b.len() && i < c.len() && a[i] == b[i] && b[i] == c[i] {
        lemma_lex_transitive_from(a, b, c, i + 1);
    }
}

proof fn lemma_lex_connected_from(a: Seq<char>, b: Seq<char>, i: int)
    requires
        0 <= i <= a.len(),
        i <= b.len(),
        a.take(i) == b.take(i),
    ensures
        lex_less_from(a, b, i) || lex_less_from(b, a, i) || a == b,
    decreases a.len() - i,
{
    if i < a.len() && i < b.len() {
        if a[i] == b[i] {
            assert(a.take(i + 1) == a.take(i).push(a[i]));
            assert(b.take(i + 1) == b.take(i).push(b[i]));
            lemma_lex_connected_from(a, b, i + 1);
        }
    } else if i == a.len() && i == b.len() {
        assert(a.take(i) == a);
        assert(b.take(i) == b);
    }
}

/// No sequence sorts before itself.
pub proof fn lemma_lex_irreflexive(a: Seq<char>)
    ensures
        !lex_less(a, a),
{
    lemma_lex_irreflexive_from(a, 0);
}

/// The order is transitive.
pub proof fn lemma_lex_transitive(a: Seq<char>, b: Seq<char>, c: Seq<char>)
    requires
        lex_less(a, b),
        lex_less(b, c),
    ensures
        lex_less(a, c),
{
    lemma_lex_transitive_from(a, b, c, 0);
}

/// Of two different sequences one sorts before the other.
pub proof fn lemma_lex_connected(a: Seq<char>, b: Seq<char>)
    ensures
        lex_less(a, b) || lex_less(b, a) || a == b,
{
    assert(a.take(0) == b.take(0));
    lemma_lex_connected_from(a, b, 0);
}

/// Two sequences never sort before each other.
pub proof fn lemma_lex_asymmetric(a: Seq<char>, b: Seq<char>)
    requires
        lex_less(a, b),
    ensures
        !lex_less(b, a),
        a != b,
{
    lemma_lex_irreflexive(a);
    if lex_less(b, a) {
        lemma_lex_transitive(a, b, a);
    }
}

/// Whether `a` sorts strictly before `b`.
pub fn str_less(a: &str, b: &str) -> (r: bool)
    ensures
        r == lex_less(a@, b@),
{
    let mut ia = a.chars();
    let mut ib = b.chars();
    let ghost mut done: int = 0;
    loop
        invariant
            0 <= done <= a@.len(),
            done <= b@.len(),
            ia.remaining() == a@.skip(done),
            ib.remaining() == b@.skip(done),
            lex_less(a@, b@) == lex_less_from(a@, b@, done),
        decreases a@.len() - done,
    {
        let ca = ia.next();
        let cb = ib.next();
        match (ca, cb) {
            (_, None) => {
                return false;
            },
            (None, Some(_)) => {
                return true;
            },
            (Some(x), Some(y)) => {
                assert(x == a@[done] && y == b@[done]);
                if x != y {
                    return x < y;
                }
                proof {
                    assert(a@.skip(done).drop_first() == a@.skip(done + 1));
                    assert(b@.skip(done).drop_first() == b@.skip(done + 1));
                    done = done + 1;
                }
            },
        }
    }
}

/// Whether `p` is a prefix of `s`.
pub fn has_prefix(s: &Vec<char>, p: &Vec<char>) -> (r: bool)
    ensures
        r == p@.is_prefix_of(s@),
{
    if p.len() > s.len() {
        return false;
    }
    let mut i: usize = 0;
    while i < p.len()
        invariant
            i <= p.len() <= s.len(),
            p@.take(i as int) == s@.take(i as int),
        decreases p.len() - i,
    {
        if p[i] != s[i] {
            assert(s@.subrange(0, p@.len() as int)[i as int] != p@[i as int]);
            return false;
        }
        proof {
            assert(p@.take(i + 1) == p@.take(i as int).push(p@[i as int]));
            assert(s@.take(i + 1) == s@.take(i as int).push(s@[i as int]));
        }
        i += 1;
    }
    assert(p@.take(p@.len() as int) == p@);
    true
}

/// The code points that Unicode gives the property `White_Space`.
pub open spec fn is_whitespace(c: char) -> bool {
    ('\u{9}' <= c <= '\u{D}') || c == ' ' || c == '\u{85}' || c == '\u{A0}' || c == '\u{1680}'
        || ('\u{2000}' <= c <= '\u{200A}') || c == '\u{2028}' || c == '\u{2029}' || c
        == '\u{202F}' || c == '\u{205F}' || c == '\u{3000}'
}

/// Whether `c` is white space.
pub fn char_is_whitespace(c: char) -> (r: bool)
    ensures
        r == is_whitespace(c),
{
    ('\u{9}' <= c && c <= '\u{D}') || c == ' ' || c == '\u{85}' || c == '\u{A0}' || c
        == '\u{1680}' || ('\u{2000}' <= c && c <= '\u{200A}') || c == '\u{2028}' || c
        == '\u{2029}' || c == '\u{202F}' || c == '\u{205F}' || c == '\u{3000}'
}

/// The first position at or after `from` that holds no white space, or the
/// length of `s` where there is none.
pub open spec fn skip_whitespace(s: Seq<char>, from: int) -> int
    decreases s.len() - from,
{
    if 0 <= from < s.len() && is_whitespace(s[from]) {
        skip_whitespace(s, from + 1)
    } else {
        from
    }
}

/// The end of `s[..to]` once its trailing white space is dropped.
pub open spec fn skip_whitespace_back(s: Seq<char>, to: int) -> int
    decreases to,
{
    if 0 < to <= s.len() && is_whitespace(s[to - 1]) {
        skip_whitespace_back(s, to - 1)
    } else {
        to
    }
}

/// Where the trimmed part of `s` starts.
pub open spec fn trim_start_index(s: Seq<char>) -> int {
    skip_whitespace(s, 0)
}

/// Where the trimmed part of `s` ends.
pub open spec fn trim_end_index(s: Seq<char>) -> int {
    let end = skip_whitespace_back(s, s.len() as int);
    if end < trim_start_index(s) {
        trim_start_index(s)
    } else {
        end
    }
}

/// `s` without its leading and trailing white space.
pub open spec fn trim(s: Seq<char>) -> Seq<char> {
    s.subrange(trim_start_index(s), trim_end_index(s))
}

proof fn lemma_skip_whitespace_bounds(s: Seq<char>, from: int)
    requires
        0 <= from <= s.len(),
    ensures
        from <= skip_whitespace(s, from) <= s.len(),
    decreases s.len() - from,
{
    if from < s.len() && is_whitespace(s[from]) {
        lemma_skip_whitespace_bounds(s, from + 1);
    }
}

proof fn lemma_skip_whitespace_back_bounds(s: Seq<char>, to: int)
    requires
        0 <= to <= s.len(),
    ensures
        0 <= skip_whitespace_back(s, to) <= to,
    decreases to,
{
    if 0 < to && is_whitespace(s[to - 1]) {
        lemma_skip_whitespace_back_bounds(s, to - 1);
    }
}

/// The bounds `(start, end)` of the trimmed part of `chars`.
pub fn trim_bounds(chars: &Vec<char>) -> (r: (usize, usize))
    ensures
        r.0 == trim_start_index(chars@),
        r.1 == trim_end_index(chars@),
        r.0 <= r.1 <= chars.len(),
{
    let mut start: usize = 0;
    while start < chars.len() && char_is_whitespace(chars[start])
        invariant
            start <= chars.len(),
            skip_whitespace(chars@, 0) == skip_whitespace(chars@, start as int),
        decreases chars.len() - start,
    {
        start += 1;
    }
    let mut end: usize = chars.len();
    while end > start && char_is_whitespace(chars[end - 1])
        invariant
            start <= end <= chars.len(),
            skip_whitespace_back(chars@, chars@.len() as int) == skip_whitespace_back(
                chars@,
                end as int,
            ),
        decreases end,
    {
        end -= 1;
    }
    proof {
        lemma_skip_whitespace_back_bounds(chars@, end as int);
    }
    (start, end)
}

/// `s` without its leading and trailing white space.
pub fn trim_str(s: &str) -> (out: String)
    ensures
        out@ == trim(s@),
{
    let chars = chars_of(s);
    let (start, end) = trim_bounds(&chars);
    string_of_range(&chars, start, end)
}

/// The character of the decimal digit `d`.
pub open spec fn digit_char(d: int) -> char {
    ((48 + d) as u8) as char
}

/// Whether `c` is one of `0` to `9`.
pub open spec fn is_digit(c: char) -> bool {
    '0' <= c <= '9'
}

/// The value of the decimal digit `c`.
pub open spec fn digit_value(c: char) -> int {
    c as u32 - 48
}

/// The decimal numeral of `n`, without leading zeros.
pub open spec fn decimal(n: nat) -> Seq<char>
    decreases n,
{
    if n < 10 {
        seq![digit_char(n as int)]
    } else {
        decimal(n / 10).push(digit_char((n % 10) as int))
    }
}

/// The decimal numeral of `n`, with a minus sign where it is negative.
pub open spec fn signed_decimal(n: int) -> Seq<char> {
    if n < 0 {
        seq!['-'] + decimal((-n) as nat)
    } else {
        decimal(n as nat)
    }
}

fn digit_to_char(d: u8) -> (c: char)
    requires
        d < 10,
    ensures
        c == digit_char(d as int),
{
    (48u8 + d) as char
}

/// The decimal digits of `n`.
pub fn decimal_chars(n: u64) -> (out: Vec<char>)
    ensures
        out@ == decimal(n as nat),
{
    let mut out: Vec<char> = Vec::new();
    let mut rest: u64 = n;
    while rest >= 10
        invariant
            decimal(n as nat) == decimal(rest as nat) + out@,
        decreases rest,
    {
        let d: u8 = (rest % 10) as u8;
        out.insert(0, digit_to_char(d));
        proof {
            assert(decimal(rest as nat) == decimal((rest / 10) as nat).push(
                digit_char((rest % 10) as int),
            ));
            assert(decimal(n as nat) == decimal((rest / 10) as nat) + out@);
        }
        rest = rest / 10;
    }
    let ghost low = out@;
    out.insert(0, digit_to_char(rest as u8));
    assert(out@ == decimal(rest as nat) + low);
    out
}

/// The decimal numeral of `n`.
pub fn u64_to_string(n: u64) -> (out: String)
    ensures
        out@ == decimal(n as nat),
{
    let digits = decimal_chars(n);
    string_from_chars(&digits)
}

/// The decimal numeral of `n`.
pub fn u32_to_string(n: u32) -> (out: String)
    ensures
        out@ == decimal(n as nat),
{
    u64_to_string(n as u64)
}

/// The decimal numeral of `n`, with a minus sign where it is negative.
pub fn i64_to_string(n: i64) -> (out: String)
    ensures
        out@ == signed_decimal(n as int),
{
    if n < 0 {
        let magnitude: u64 = if n == i64::MIN {
            9223372036854775808u64
        } else {
            (-n) as u64
        };
        let mut digits = decimal_chars(magnitude);
        digits.insert(0, '-');
        assert(digits@ == seq!['-'] + decimal((-n) as nat));
        string_from_chars(&digits)
    } else {
        u64_to_string(n as u64)
    }
}

/// The first position at or after `from` that holds `c`, or the length of
/// `s` where there is none.
pub open spec fn find_char(s: Seq<char>, c: char, from: int) -> int
    decreases s.len() - from,
{
    if 0 <= from < s.len() && s[from] != c {
        find_char(s, c, from + 1)
    } else {
        from
    }
}

/// `find_char` stays within the sequence.
pub proof fn lemma_find_char_bounds(s: Seq<char>, c: char, from: int)
    requires
        0 <= from <= s.len(),
    ensures
        from <= find_char(s, c, from) <= s.len(),
    decreases s.len() - from,
{
    if from < s.len() && s[from] != c {
        lemma_find_char_bounds(s, c, from + 1);
    }
}

/// The place of the first `c` at or after `from` in `chars`.
pub fn find_in(chars: &Vec<char>, c: char, from: usize) -> (at: usize)
    requires
        from <= chars.len(),
    ensures
        at == find_char(chars@, c, from as int),
        from <= at <= chars.len(),
        at < chars.len() ==> chars@[at as int] == c,
        forall|i: int| from <= i < at ==> chars@[i] != c,
{
    let mut at: usize = from;
    while at < chars.len() && chars[at] != c
        invariant
            from <= at <= chars.len(),
            find_char(chars@, c, from as int) == find_char(chars@, c, at as int),
            forall|i: int| from <= i < at ==> chars@[i] != c,
        decreases chars.len() - at,
    {
        at += 1;
    }
    at
}

/// The pieces of `s[from..]` between the occurrences of `sep`: one more
/// piece than there are separators.
pub open spec fn split_from(s: Seq<char>, sep: char, from: int) -> Seq<Seq<char>>
    decreases s.len() - from,
{
    let end = find_char(s, sep, from);
    if 0 <= from <= end < s.len() {
        seq![s.subrange(from, end)] + split_from(s, sep, end + 1)
    } else if 0 <= from <= s.len() {
        seq![s.subrange(from, s.len() as int)]
    } else {
        seq![Seq::empty()]
    }
}

/// The pieces of `s` between the occurrences of `sep`.
pub open spec fn split(s: Seq<char>, sep: char) -> Seq<Seq<char>> {
    split_from(s, sep, 0)
}

/// The views of the strings of a list.
pub open spec fn texts(list: Seq<String>) -> Seq<Seq<char>> {
    list.map_values(|s: String| s@)
}

/// The pieces of `chars` between the occurrences of `sep`.
pub fn split_chars(chars: &Vec<char>, sep: char) -> (pieces: Vec<String>)
    ensures
        texts(pieces@) == split(chars@, sep),
        pieces.len() >= 1,
{
    let mut pieces: Vec<String> = Vec::new();
    let mut from: usize = 0;
    loop
        invariant
            from <= chars.len(),
            split(chars@, sep) == texts(pieces@) + split_from(chars@, sep, from as int),
        decreases chars.len() - from,
    {
        let end = find_in(chars, sep, from);
        let piece = string_of_range(chars, from, end);
        let ghost before = pieces@;
        pieces.push(piece);
        proof {
            assert(texts(pieces@) == texts(before) + seq![chars@.subrange(from as int, end as int)]);
        }
        if end >= chars.len() {
            proof {
                assert(split_from(chars@, sep, from as int) == seq![
                    chars@.subrange(from as int, chars@.len() as int),
                ]);
                assert(split(chars@, sep) == texts(pieces@));
            }
            return pieces;
        }
        proof {
            assert(split_from(chars@, sep, from as int) == seq![
                chars@.subrange(from as int, end as int),
            ] + split_from(chars@, sep, end + 1));
            assert(split(chars@, sep) == texts(pieces@) + split_from(chars@, sep, end + 1));
        }
        from = end + 1;
    }
}

/// `line` without the carriage return that ends it, if one does.
pub open spec fn strip_carriage_return(line: Seq<char>) -> Seq<char> {
    if line.len() > 0 && line.last() == '\r' {
        line.drop_last()
    } else {
        line
    }
}

/// The lines of a text. A line ends at a newline, or at a carriage return
/// right before one; the end of the text ends the last line, which is
/// left out where it is empty.
pub open spec fn lines_of(s: Seq<char>) -> Seq<Seq<char>> {
    let pieces = split(s, '\n');
    let ended = pieces.drop_last().map_values(|line: Seq<char>| strip_carriage_return(line));
    if pieces.last().len() == 0 {
        ended
    } else {
        ended.push(pieces.last())
    }
}

/// The lines of a text.
pub fn lines(text: &str) -> (out: Vec<String>)
    ensures
        texts(out@) == lines_of(text@),
{
    let chars = chars_of(text);
    let pieces = split_chars(&chars, '\n');
    let ghost all = split(text@, '\n');
    let mut out: Vec<String> = Vec::new();
    let last = pieces.len() - 1;
    let mut i: usize = 0;
    while i < last
        invariant
            i <= last,
            last == pieces.len() - 1,
            texts(pieces@) == all,
            texts(out@) == all.take(i as int).map_values(
                |line: Seq<char>| strip_carriage_return(line),
            ),
        decreases last - i,
    {
        let line = chars_of(pieces[i].as_str());
        let end = if line.len() > 0 && line[line.len() - 1] == '\r' {
            line.len() - 1
        } else {
            line.len()
        };
        let kept = string_of_range(&line, 0, end);
        let ghost before = out@;
        out.push(kept);
        proof {
            assert(all[i as int] == pieces@[i as int]@);
            assert(line@.subrange(0, line@.len() as int) == line@);
            assert(kept@ == strip_carriage_return(all[i as int]));
            assert(texts(out@) == texts(before).push(kept@));
            assert(all.take(i + 1) == all.take(i as int).push(all[i as int]));
            assert(texts(out@) == all.take(i + 1).map_values(
                |line: Seq<char>| strip_carriage_return(line),
            ));
        }
        i += 1;
    }
    proof {
        assert(all.take(last as int) == all.drop_last());
        assert(all.last() == pieces@[last as int]@);
    }
    if pieces[last].as_str().unicode_len() > 0 {
        let ghost before = out@;
        out.push(pieces[last].clone());
        proof {
            assert(texts(out@) == texts(before).push(pieces@[last as int]@));
        }
    }
    out
}

/// Whether a line holds nothing but white space.
pub open spec fn is_blank(line: Seq<char>) -> bool {
    trim(line).len() == 0
}

/// Whether a line holds nothing but white space.
pub fn line_is_blank(line: &str) -> (r: bool)
    ensures
        r == is_blank(line@),
{
    let chars = chars_of(line);
    let (start, end) = trim_bounds(&chars);
    start == end
}

/// Whether every character of `s` is a decimal digit.
pub open spec fn all_digits(s: Seq<char>) -> bool {
    forall|i: int| 0 <= i < s.len() ==> is_digit(#[trigger] s[i])
}

/// The number that a run of decimal digits spells.
pub open spec fn decimal_value(digits: Seq<char>) -> nat
    decreases digits.len(),
{
    if digits.len() == 0 {
        0
    } else {
        decimal_value(digits.drop_last()) * 10 + digit_value(digits.last()) as nat
    }
}

/// The integer that `s` spells: an optional sign and one or more decimal
/// digits. `None` for any other text.
pub open spec fn integer_of_text(s: Seq<char>) -> Option<int> {
    let signed = s.len() > 0 && (s[0] == '+' || s[0] == '-');
    let digits = if signed {
        s.skip(1)
    } else {
        s
    };
    if digits.len() == 0 || !all_digits(digits) {
        None
    } else if signed && s[0] == '-' {
        Some(-(decimal_value(digits) as int))
    } else {
        Some(decimal_value(digits) as int)
    }
}

/// The value of `s` as an `i64`: the integer it spells, where it fits.
pub open spec fn i64_of_text(s: Seq<char>) -> Option<i64> {
    match integer_of_text(s) {
        Some(n) => if i64::MIN <= n <= i64::MAX {
            Some(n as i64)
        } else {
            None
        },
        None => None,
    }
}

/// The value of `s` as a `u32`: the integer it spells without a minus
/// sign, where it fits.
pub open spec fn u32_of_text(s: Seq<char>) -> Option<u32> {
    if s.len() > 0 && s[0] == '-' {
        None
    } else {
        match integer_of_text(s) {
            Some(n) => if n <= u32::MAX {
                Some(n as u32)
            } else {
                None
            },
            None => None,
        }
    }
}

/// The value of the digits is built up digit by digit.
pub proof fn lemma_decimal_value_step(s: Seq<char>, from: int, end: int)
    requires
        0 <= from <= end < s.len(),
    ensures
        decimal_value(s.subrange(from, end + 1)) == decimal_value(s.subrange(from, end)) * 10
            + digit_value(s[end]) as nat,
{
    assert(s.subrange(from, end + 1).drop_last() == s.subrange(from, end));
}

/// More digits never spell a smaller number.
pub proof fn lemma_decimal_value_monotone(s: Seq<char>, from: int, mid: int, end: int)
    requires
        0 <= from <= mid <= end <= s.len(),
        forall|i: int| from <= i < end ==> is_digit(s[i]),
    ensures
        decimal_value(s.subrange(from, mid)) <= decimal_value(s.subrange(from, end)),
    decreases end - mid,
{
    if mid < end {
        lemma_decimal_value_monotone(s, from, mid, end - 1);
        lemma_decimal_value_step(s, from, end - 1);
    }
}

/// The number that the digits `chars[from..]` spell, up to `limit`:
/// `None` where a character is no digit, where there is none at all, or
/// where the number is larger than `limit`.
fn read_digits(chars: &Vec<char>, from: usize, limit: u64) -> (r: Option<u64>)
    requires
        from <= chars.len(),
    ensures
        match r {
            Some(n) => {
                &&& from < chars.len()
                &&& all_digits(chars@.skip(from as int))
                &&& n == decimal_value(chars@.skip(from as int))
                &&& n <= limit
            },
            None => from == chars.len() || !all_digits(chars@.skip(from as int)) || decimal_value(
                chars@.skip(from as int),
            ) > limit,
        },
{
    if from == chars.len() {
        return None;
    }
    let ghost digits = chars@.skip(from as int);
    let mut value: u64 = 0;
    let mut at: usize = from;
    while at < chars.len()
        invariant
            from <= at <= chars.len(),
            digits == chars@.skip(from as int),
            forall|i: int| from <= i < at ==> is_digit(chars@[i]),
            value == decimal_value(chars@.subrange(from as int, at as int)),
            value <= limit,
        decreases chars.len() - at,
    {
        let c = chars[at];
        if !('0' <= c && c <= '9') {
            proof {
                assert(digits[at - from] == c);
            }
            return None;
        }
        let digit: u64 = (c as u32 - 48) as u64;
        proof {
            lemma_decimal_value_step(chars@, from as int, at as int);
        }
        let next = match value.checked_mul(10) {
            Some(shifted) => shifted.checked_add(digit),
            None => None,
        };
        match next {
            Some(n) if n <= limit => {
                value = n;
            },
            _ => {
                proof {
                    if all_digits(digits) {
                        assert forall|i: int| from <= i < chars@.len() implies is_digit(
                            chars@[i],
                        ) by {
                            assert(digits[i - from] == chars@[i]);
                        }
                        lemma_decimal_value_monotone(
                            chars@,
                            from as int,
                            at + 1,
                            chars@.len() as int,
                        );
                        assert(chars@.subrange(from as int, chars@.len() as int) == digits);
                    }
                }
                return None;
            },
        }
        at += 1;
    }
    proof {
        assert(chars@.subrange(from as int, chars@.len() as int) == digits);
        assert forall|i: int| 0 <= i < digits.len() implies is_digit(#[trigger] digits[i]) by {
            assert(digits[i] == chars@[from + i]);
        }
    }
    Some(value)
}

/// Reads a `u32`: an optional plus sign and decimal digits.
pub fn parse_u32(text: &str) -> (r: Option<u32>)
    ensures
        r == u32_of_text(text@),
{
    let chars = chars_of(text);
    let from: usize = if chars.len() > 0 && chars[0] == '+' {
        1
    } else {
        0
    };
    proof {
        if from == 0 {
            assert(chars@.skip(0) == chars@);
            if chars@.len() > 0 && chars@[0] == '-' {
                assert(!is_digit(chars@[0]));
            }
        }
    }
    match read_digits(&chars, from, 4294967295u64) {
        Some(n) => Some(n as u32),
        None => {
            proof {
                if chars@.len() > 0 && chars@[0] == '-' {
                } else if from == 0 && chars@.len() > 0 {
                    assert(chars@.skip(0) == chars@);
                }
            }
            None
        },
    }
}

/// Reads an `i64`: an optional sign and decimal digits.
pub fn parse_i64(text: &str) -> (r: Option<i64>)
    ensures
        r == i64_of_text(text@),
{
    let chars = chars_of(text);
    let negative = chars.len() > 0 && chars[0] == '-';
    let from: usize = if chars.len() > 0 && (chars[0] == '+' || chars[0] == '-') {
        1
    } else {
        0
    };
    proof {
        if from == 0 {
            assert(chars@.skip(0) == chars@);
        }
    }
    let limit: u64 = if negative {
        9223372036854775808u64
    } else {
        9223372036854775807u64
    };
    match read_digits(&chars, from, limit) {
        Some(n) => {
            if negative {
                if n == 9223372036854775808u64 {
                    Some(i64::MIN)
                } else {
                    Some(-(n as i64))
                }
            } else {
                Some(n as i64)
            }
        },
        None => None,
    }
}

/// `c` in lower case, where it is an ASCII capital.
pub open spec fn ascii_lower(c: char) -> char {
    if 'A' <= c <= 'Z' {
        ((c as u8) + 32) as char
    } else {
        c
    }
}

/// `c` in lower case, where it is an ASCII capital.
pub fn lower_char(c: char) -> (r: char)
    ensures
        r == ascii_lower(c),
{
    if 'A' <= c && c <= 'Z' {
        ((c as u8) + 32) as char
    } else {
        c
    }
}

/// Whether `needle` stands in `s` at position `at`.
pub open spec fn occurs_at(s: Seq<char>, needle: Seq<char>, at: int) -> bool {
    0 <= at && at + needle.len() <= s.len() && s.subrange(at, at + needle.len()) == needle
}

/// Whether `needle` stands somewhere in `s`.
pub open spec fn contains_text(s: Seq<char>, needle: Seq<char>) -> bool {
    exists|at: int| occurs_at(s, needle, at)
}

fn occurs_here(s: &Vec<char>, needle: &Vec<char>, at: usize) -> (r: bool)
    requires
        at + needle.len() <= s.len(),
    ensures
        r == occurs_at(s@, needle@, at as int),
{
    let mut k: usize = 0;
    while k < needle.len()
        invariant
            k <= needle.len(),
            at + needle.len() <= s.len(),
            forall|j: int| 0 <= j < k ==> s@[at + j] == needle@[j],
        decreases needle.len() - k,
    {
        if s[at + k] != needle[k] {
            assert(s@.subrange(at as int, at + needle@.len())[k as int] != needle@[k as int]);
            return false;
        }
        k += 1;
    }
    assert(s@.subrange(at as int, at + needle@.len()) == needle@);
    true
}

/// Whether `needle` stands somewhere in `text`.
pub fn text_contains(text: &str, needle: &str) -> (r: bool)
    ensures
        r == contains_text(text@, needle@),
{
    let s = chars_of(text);
    let n = chars_of(needle);
    if n.len() > s.len() {
        return false;
    }
    let last = s.len() - n.len();
    let mut at: usize = 0;
    loop
        invariant
            s@ == text@,
            n@ == needle@,
            at <= last,
            last == s.len() - n.len(),
            forall|j: int| 0 <= j < at ==> !occurs_at(s@, n@, j),
        decreases last - at,
    {
        if occurs_here(&s, &n, at) {
            return true;
        }
        if at == last {
            return false;
        }
        at += 1;
    }
}

} // verus!
