//! Text: decimal rendering, trimming, case folding, searching and number
//! parsing on `&str` and `String`, specified over sequences of characters.

use vstd::prelude::*;

verus! {

/// `String::push` appends one character.
pub assume_specification[ String::push ](s: &mut String, c: char)
    ensures
        final(s)@ == old(s)@.push(c),
;

// ---------------------------------------------------------------------------
// Decimal rendering
// ---------------------------------------------------------------------------

/// The ASCII digit for `d`.
pub open spec fn digit_char(d: nat) -> char {
    (48 + d) as char
}

/// `n` in decimal, without leading zeros (`0` is `"0"`).
pub open spec fn dec(n: nat) -> Seq<char>
    decreases n,
{
    if n < 10 {
        seq![digit_char(n)]
    } else {
        dec(n / 10).push(digit_char(n % 10))
    }
}

/// `i` in decimal, with a leading minus sign where it is negative.
pub open spec fn signed_dec(i: int) -> Seq<char> {
    if i < 0 {
        seq!['-'] + dec((-i) as nat)
    } else {
        dec(i as nat)
    }
}

/// Append `n` in decimal.
pub fn push_dec(out: &mut String, n: u64)
    ensures
        final(out)@ == old(out)@ + dec(n as nat),
    decreases n,
{
    if n >= 10 {
        push_dec(out, n / 10);
    }
    let d: u8 = (n % 10) as u8;
    let c = (48u8 + d) as char;
    out.push(c);
    proof {
        assert(c == digit_char((n % 10) as nat));
        if n < 10 {
            assert(out@ =~= old(out)@ + dec(n as nat));
        } else {
            assert(out@ =~= old(out)@ + dec(n as nat));
        }
    }
}

/// Append `i` in decimal.
pub fn push_signed_dec(out: &mut String, i: i64)
    ensures
        final(out)@ == old(out)@ + signed_dec(i as int),
{
    if i < 0 {
        out.push('-');
        let magnitude: u64 = (-(i as i128)) as u64;
        push_dec(out, magnitude);
        assert(out@ =~= old(out)@ + (seq!['-'] + dec((-(i as int)) as nat)));
    } else {
        push_dec(out, i as u64);
    }
}

// ---------------------------------------------------------------------------
// Equality, searching, joining
// ---------------------------------------------------------------------------

/// Whether two strings hold the same characters.
pub fn same(a: &str, b: &str) -> (r: bool)
    ensures
        r == (a@ == b@),
{
    a.to_owned() == b.to_owned()
}

/// Whether `needle` occurs in `hay` starting at `i`.
pub open spec fn occurs_at(hay: Seq<char>, needle: Seq<char>, i: int) -> bool {
    0 <= i && i + needle.len() <= hay.len() && hay.subrange(i, i + needle.len()) == needle
}

/// Whether `needle` occurs somewhere in `hay`.
pub open spec fn has_substring(hay: Seq<char>, needle: Seq<char>) -> bool {
    exists|i: int| occurs_at(hay, needle, i)
}

/// Whether `needle` occurs somewhere in `hay`.
pub fn contains(hay: &str, needle: &str) -> (r: bool)
    ensures
        r == has_substring(hay@, needle@),
{
    let n: usize = hay.unicode_len();
    let m: usize = needle.unicode_len();
    if m > n {
        assert forall|i: int| !occurs_at(hay@, needle@, i) by {}
        return false;
    }
    let mut i: usize = 0;
    while i <= n - m
        invariant
            n == hay@.len(),
            m == needle@.len(),
            m <= n,
            i <= n - m + 1,
            forall|j: int| j < i ==> !occurs_at(hay@, needle@, j),
        decreases n - m + 1 - i,
    {
        let part = hay.substring_char(i, i + m);
        if same(part, needle) {
            assert(occurs_at(hay@, needle@, i as int));
            return true;
        }
        if i == n - m {
            assert forall|j: int| !occurs_at(hay@, needle@, j) by {}
            return false;
        }
        i = i + 1;
    }
    false
}

/// Whether `s` begins with `prefix`.
pub open spec fn has_prefix(s: Seq<char>, prefix: Seq<char>) -> bool {
    prefix.len() <= s.len() && s.subrange(0, prefix.len() as int) == prefix
}

/// `s` without `prefix`, or nothing where it does not begin with it.
pub fn strip_prefix<'a>(s: &'a str, prefix: &str) -> (r: Option<&'a str>)
    ensures
        r is Some <==> has_prefix(s@, prefix@),
        r matches Some(rest) ==> rest@ == s@.skip(prefix@.len() as int),
{
    let n: usize = s.unicode_len();
    let m: usize = prefix.unicode_len();
    if m > n || !same(s.substring_char(0, m), prefix) {
        return None;
    }
    let rest = s.substring_char(m, n);
    assert(rest@ =~= s@.skip(m as int));
    Some(rest)
}

/// `parts` in order, with `sep` between neighbours.
pub open spec fn joined(parts: Seq<Seq<char>>, sep: Seq<char>) -> Seq<char>
    decreases parts.len(),
{
    if parts.len() == 0 {
        Seq::empty()
    } else if parts.len() == 1 {
        parts[0]
    } else {
        joined(parts.drop_last(), sep) + sep + parts.last()
    }
}

/// The characters of each string in turn.
pub open spec fn texts(parts: Seq<String>) -> Seq<Seq<char>> {
    Seq::new(parts.len(), |i: int| parts[i]@)
}

/// The strings in order, with `sep` between neighbours.
pub fn join(parts: &Vec<String>, sep: &str) -> (r: String)
    ensures
        r@ == joined(texts(parts@), sep@),
{
    let mut out = String::new();
    let mut i: usize = 0;
    while i < parts.len()
        invariant
            i <= parts.len(),
            out@ == joined(texts(parts@).take(i as int), sep@),
        decreases parts.len() - i,
    {
        proof {
            let upto = texts(parts@).take(i + 1);
            assert(upto.drop_last() =~= texts(parts@).take(i as int));
            assert(upto.last() == parts@[i as int]@);
        }
        if i > 0 {
            out.append(sep);
        }
        out.append(parts[i].as_str());
        proof {
            if i == 0 {
                assert(out@ =~= parts@[0]@);
            }
        }
        i = i + 1;
    }
    assert(texts(parts@).take(i as int) =~= texts(parts@));
    out
}

// ---------------------------------------------------------------------------
// White space
// ---------------------------------------------------------------------------

/// The characters with Unicode's `White_Space` property.
pub open spec fn white(c: char) -> bool {
    ||| '\u{9}' <= c <= '\u{d}'
    ||| c == '\u{20}' || c == '\u{85}' || c == '\u{a0}' || c == '\u{1680}'
    ||| '\u{2000}' <= c <= '\u{200a}'
    ||| c == '\u{2028}' || c == '\u{2029}' || c == '\u{202f}' || c == '\u{205f}' || c == '\u{3000}'
}

/// Whether `c` is white space.
pub fn is_white(c: char) -> (r: bool)
    ensures
        r == white(c),
{
    ('\u{9}' <= c && c <= '\u{d}') || c == '\u{20}' || c == '\u{85}' || c == '\u{a0}' || c
        == '\u{1680}' || ('\u{2000}' <= c && c <= '\u{200a}') || c == '\u{2028}' || c == '\u{2029}'
        || c == '\u{202f}' || c == '\u{205f}' || c == '\u{3000}'
}

/// `s` without its leading white space.
pub open spec fn trimmed_start(s: Seq<char>) -> Seq<char>
    decreases s.len(),
{
    if s.len() > 0 && white(s[0]) {
        trimmed_start(s.skip(1))
    } else {
        s
    }
}

/// `s` without its trailing white space.
pub open spec fn trimmed_end(s: Seq<char>) -> Seq<char>
    decreases s.len(),
{
    if s.len() > 0 && white(s.last()) {
        trimmed_end(s.drop_last())
    } else {
        s
    }
}

/// `s` without its leading and trailing white space.
pub open spec fn trimmed(s: Seq<char>) -> Seq<char> {
    trimmed_end(trimmed_start(s))
}

/// `s` without its leading and trailing white space.
pub fn trim<'a>(s: &'a str) -> (r: &'a str)
    ensures
        r@ == trimmed(s@),
{
    let n: usize = s.unicode_len();
    let mut from: usize = 0;
    assert(s@.skip(0) =~= s@);
    while from < n && is_white(s.get_char(from))
        invariant
            n == s@.len(),
            from <= n,
            trimmed_start(s@) == trimmed_start(s@.skip(from as int)),
        decreases n - from,
    {
        assert(s@.skip(from as int).skip(1) =~= s@.skip(from + 1));
        from = from + 1;
    }
    let ghost rest = s@.skip(from as int);
    assert(trimmed_start(s@) == rest);
    let mut to: usize = n;
    assert(rest =~= s@.subrange(from as int, to as int));
    while to > from && is_white(s.get_char(to - 1))
        invariant
            n == s@.len(),
            from <= to <= n,
            trimmed_end(rest) == trimmed_end(s@.subrange(from as int, to as int)),
        decreases to,
    {
        assert(s@.subrange(from as int, to as int).drop_last() =~= s@.subrange(
            from as int,
            to - 1,
        ));
        to = to - 1;
    }
    s.substring_char(from, to)
}

/// `s` without its trailing white space.
pub fn trim_end<'a>(s: &'a str) -> (r: &'a str)
    ensures
        r@ == trimmed_end(s@),
{
    let n: usize = s.unicode_len();
    let mut to: usize = n;
    assert(s@.subrange(0, n as int) =~= s@);
    while to > 0 && is_white(s.get_char(to - 1))
        invariant
            n == s@.len(),
            to <= n,
            trimmed_end(s@) == trimmed_end(s@.subrange(0, to as int)),
        decreases to,
    {
        assert(s@.subrange(0, to as int).drop_last() =~= s@.subrange(0, to - 1));
        to = to - 1;
    }
    s.substring_char(0, to)
}

/// How many characters `s` holds before its first white space.
pub open spec fn word_len(s: Seq<char>) -> nat
    decreases s.len(),
{
    if s.len() > 0 && !white(s[0]) {
        1 + word_len(s.skip(1))
    } else {
        0
    }
}

pub proof fn lemma_word_len_bound(s: Seq<char>)
    ensures
        word_len(s) <= s.len(),
        s.len() > 0 && !white(s[0]) ==> word_len(s) > 0,
    decreases s.len(),
{
    if s.len() > 0 && !white(s[0]) {
        lemma_word_len_bound(s.skip(1));
    }
}

pub proof fn lemma_trimmed_start_len(s: Seq<char>)
    ensures
        trimmed_start(s).len() <= s.len(),
        trimmed_start(s).len() > 0 ==> !white(trimmed_start(s)[0]),
    decreases s.len(),
{
    if s.len() > 0 && white(s[0]) {
        lemma_trimmed_start_len(s.skip(1));
    }
}

/// The maximal runs of characters that are not white space, in order.
pub open spec fn words(s: Seq<char>) -> Seq<Seq<char>>
    decreases s.len(),
{
    let t = trimmed_start(s);
    if t.len() == 0 {
        Seq::empty()
    } else {
        let n = word_len(t) as int;
        proof {
            lemma_trimmed_start_len(s);
            lemma_word_len_bound(t);
        }
        seq![t.take(n)] + words(t.skip(n))
    }
}

/// The maximal runs of characters that are not white space, in order.
pub fn split_whitespace(s: &str) -> (r: Vec<String>)
    ensures
        texts(r@) == words(s@),
{
    let n: usize = s.unicode_len();
    let mut out: Vec<String> = Vec::new();
    let mut i: usize = 0;
    assert(s@.skip(0) =~= s@);
    assert(texts(out@) + words(s@) =~= words(s@));
    while i < n
        invariant
            n == s@.len(),
            i <= n,
            texts(out@) + words(s@.skip(i as int)) == words(s@),
        decreases n - i,
    {
        let ghost here = s@.skip(i as int);
        if is_white(s.get_char(i)) {
            proof {
                assert(here.skip(1) =~= s@.skip(i + 1));
                assert(trimmed_start(here) == trimmed_start(here.skip(1)));
            }
            i = i + 1;
        } else {
            let mut j: usize = i;
            while j < n && !is_white(s.get_char(j))
                invariant
                    n == s@.len(),
                    i <= j <= n,
                    here == s@.skip(i as int),
                    word_len(here) == (j - i) + word_len(s@.skip(j as int)),
                decreases n - j,
            {
                assert(s@.skip(j as int).skip(1) =~= s@.skip(j + 1));
                j = j + 1;
            }
            let word = s.substring_char(i, j).to_owned();
            let ghost before = out@;
            out.push(word);
            proof {
                let k = (j - i) as int;
                assert(word_len(here) == k);
                assert(trimmed_start(here) == here);
                assert(here.take(k) =~= word@);
                assert(here.skip(k) =~= s@.skip(j as int));
                assert(words(here) == seq![word@] + words(s@.skip(j as int)));
                assert(texts(out@) =~= texts(before) + seq![word@]);
                assert(texts(out@) + words(s@.skip(j as int)) =~= texts(before) + words(here));
            }
            i = j;
        }
    }
    assert(s@.skip(n as int) =~= Seq::empty());
    assert(texts(out@) + words(s@.skip(n as int)) =~= texts(out@));
    out
}

// ---------------------------------------------------------------------------
// Lines
// ---------------------------------------------------------------------------

/// Where the first line feed of `s` stands; its length where there is none.
pub open spec fn line_len(s: Seq<char>) -> nat
    decreases s.len(),
{
    if s.len() > 0 && s[0] != '\n' {
        1 + line_len(s.skip(1))
    } else {
        0
    }
}

pub proof fn lemma_line_len_bound(s: Seq<char>)
    ensures
        line_len(s) <= s.len(),
    decreases s.len(),
{
    if s.len() > 0 && s[0] != '\n' {
        lemma_line_len_bound(s.skip(1));
    }
}

/// `line` without one trailing carriage return.
pub open spec fn without_carriage_return(line: Seq<char>) -> Seq<char> {
    if line.len() > 0 && line.last() == '\r' {
        line.drop_last()
    } else {
        line
    }
}

/// The lines of `s`. A line ends in a line feed, which may follow a carriage
/// return and may be missing at the end of `s`; neither belongs to the line.
pub open spec fn lines_of(s: Seq<char>) -> Seq<Seq<char>>
    decreases s.len(),
{
    if s.len() == 0 {
        Seq::empty()
    } else {
        let n = line_len(s) as int;
        proof {
            lemma_line_len_bound(s);
        }
        if n < s.len() {
            seq![without_carriage_return(s.take(n))] + lines_of(s.skip(n + 1))
        } else {
            seq![s]
        }
    }
}

/// The lines of `s`.
pub fn lines(s: &str) -> (r: Vec<String>)
    ensures
        texts(r@) == lines_of(s@),
{
    let n: usize = s.unicode_len();
    let mut out: Vec<String> = Vec::new();
    let mut i: usize = 0;
    assert(s@.skip(0) =~= s@);
    assert(texts(out@) + lines_of(s@) =~= lines_of(s@));
    while i < n
        invariant
            n == s@.len(),
            i <= n,
            texts(out@) + lines_of(s@.skip(i as int)) == lines_of(s@),
        decreases n - i,
    {
        let ghost here = s@.skip(i as int);
        let ghost before = out@;
        let mut j: usize = i;
        while j < n && s.get_char(j) != '\n'
            invariant
                n == s@.len(),
                i <= j <= n,
                here == s@.skip(i as int),
                line_len(here) == (j - i) + line_len(s@.skip(j as int)),
            decreases n - j,
        {
            assert(s@.skip(j as int).skip(1) =~= s@.skip(j + 1));
            j = j + 1;
        }
        let ghost k = (j - i) as int;
        assert(line_len(here) == k);
        let mut end: usize = j;
        if j < n && j > i && s.get_char(j - 1) == '\r' {
            end = j - 1;
        }
        let line = s.substring_char(i, end).to_owned();
        out.push(line);
        proof {
            assert(texts(out@) =~= texts(before) + seq![line@]);
            if j < n {
                assert(here.take(k) =~= s@.subrange(i as int, j as int));
                assert(line@ =~= without_carriage_return(here.take(k)));
                assert(here.skip(k + 1) =~= s@.skip(j + 1));
                assert(texts(out@) + lines_of(s@.skip(j + 1)) =~= texts(before) + lines_of(here));
            } else {
                assert(line@ =~= here);
                assert(s@.skip(n as int) =~= Seq::empty());
                assert(texts(out@) + lines_of(s@.skip(n as int)) =~= texts(before) + lines_of(here));
            }
        }
        i = if j < n {
            j + 1
        } else {
            n
        };
    }
    assert(s@.skip(n as int) =~= Seq::empty());
    assert(texts(out@) + lines_of(s@.skip(n as int)) =~= texts(out@));
    out
}

// ---------------------------------------------------------------------------
// Number parsing
// ---------------------------------------------------------------------------

/// Whether `c` is an ASCII digit.
pub open spec fn is_digit(c: char) -> bool {
    '0' <= c <= '9'
}

/// Whether `s` is one or more ASCII digits.
pub open spec fn is_number(s: Seq<char>) -> bool {
    s.len() > 0 && forall|i: int| 0 <= i < s.len() ==> is_digit(#[trigger] s[i])
}

/// The number that a row of digits stands for.
pub open spec fn number_value(s: Seq<char>) -> nat
    decreases s.len(),
{
    if s.len() == 0 {
        0
    } else {
        number_value(s.drop_last()) * 10 + (s.last() as nat - 48) as nat
    }
}

/// The value of an unsigned decimal: digits, after an optional plus sign.
pub open spec fn unsigned_value(s: Seq<char>) -> Option<nat> {
    let body = if s.len() > 0 && s[0] == '+' {
        s.skip(1)
    } else {
        s
    };
    if is_number(body) {
        Some(number_value(body))
    } else {
        None
    }
}

/// The value of a signed decimal: digits, after an optional plus or minus sign.
pub open spec fn signed_value(s: Seq<char>) -> Option<int> {
    if s.len() > 0 && s[0] == '-' {
        if is_number(s.skip(1)) {
            Some(-(number_value(s.skip(1)) as int))
        } else {
            None
        }
    } else {
        match unsigned_value(s) {
            Some(v) => Some(v as int),
            None => None,
        }
    }
}

/// The value of an unsigned decimal that is at most `max`.
pub open spec fn bounded_value(s: Seq<char>, max: nat) -> Option<nat> {
    match unsigned_value(s) {
        Some(v) => if v <= max {
            Some(v)
        } else {
            None
        },
        None => None,
    }
}


/// The value of the digits of `s` from `from` on, at most `max`.
fn parse_digits(s: &str, from: usize, max: u64) -> (r: Option<u64>)
    requires
        from <= s@.len(),
    ensures
        r matches Some(v) ==> is_number(s@.skip(from as int)) && v == number_value(
            s@.skip(from as int),
        ) && v <= max,
        r is None ==> !is_number(s@.skip(from as int)) || number_value(s@.skip(from as int)) > max,
{
    let n: usize = s.unicode_len();
    let ghost body = s@.skip(from as int);
    if from == n {
        return None;
    }
    let mut value: u64 = 0;
    let mut i: usize = from;
    assert(body.take(0) =~= Seq::<char>::empty());
    let mut over = false;
    while i < n
        invariant
            n == s@.len(),
            from <= i <= n,
            body == s@.skip(from as int),
            forall|k: int| 0 <= k < i - from ==> is_digit(#[trigger] body[k]),
            !over ==> value == number_value(body.take(i - from)) && value <= max,
            over ==> number_value(body.take(i - from)) > max,
        decreases n - i,
    {
        let c = s.get_char(i);
        assert(body[i - from] == c);
        if !('0' <= c && c <= '9') {
            return None;
        }
        let d: u64 = (c as u64) - 48;
        proof {
            let longer = body.take(i + 1 - from);
            assert(longer.drop_last() =~= body.take(i - from));
            assert(longer.last() == c);
        }
        if !over {
            let wide: u128 = (value as u128) * 10 + (d as u128);
            if wide > max as u128 {
                over = true;
            } else {
                value = wide as u64;
            }
        }
        i = i + 1;
    }
    assert(body.take(n - from) =~= body);
    if over {
        None
    } else {
        Some(value)
    }
}

/// The value of an unsigned decimal that is at most `max`: digits, after an
/// optional plus sign.
pub fn parse_unsigned(s: &str, max: u64) -> (r: Option<u64>)
    ensures
        r is Some <==> bounded_value(s@, max as nat) is Some,
        r matches Some(v) ==> v == bounded_value(s@, max as nat)->0 && v <= max,
{
    let n: usize = s.unicode_len();
    if n > 0 && s.get_char(0) == '+' {
        parse_digits(s, 1, max)
    } else {
        assert(s@.skip(0) =~= s@);
        parse_digits(s, 0, max)
    }
}

/// The value of a signed decimal that fits in an `i32`: digits, after an
/// optional plus or minus sign.
pub fn parse_i32(s: &str) -> (r: Option<i32>)
    ensures
        r is Some <==> (signed_value(s@) matches Some(v) && i32::MIN <= v <= i32::MAX),
        r matches Some(v) ==> signed_value(s@) == Some(v as int),
{
    let n: usize = s.unicode_len();
    if n > 0 && s.get_char(0) == '-' {
        match parse_digits(s, 1, 0x8000_0000) {
            Some(v) => Some((-(v as i64)) as i32),
            None => None,
        }
    } else {
        match parse_unsigned(s, 0x7fff_ffff) {
            Some(v) => Some(v as i32),
            None => None,
        }
    }
}

/// How many ASCII digits `s` begins with.
pub open spec fn digit_len(s: Seq<char>) -> nat
    decreases s.len(),
{
    if s.len() > 0 && is_digit(s[0]) {
        1 + digit_len(s.skip(1))
    } else {
        0
    }
}

/// The ASCII digits that `s` begins with.
pub open spec fn leading_digits(s: Seq<char>) -> Seq<char> {
    s.take(digit_len(s) as int)
}

/// The ASCII digits that `s` begins with.
pub fn take_digits<'a>(s: &'a str) -> (r: &'a str)
    ensures
        r@ == leading_digits(s@),
{
    let n: usize = s.unicode_len();
    let mut i: usize = 0;
    assert(s@.skip(0) =~= s@);
    while i < n && '0' <= s.get_char(i) && s.get_char(i) <= '9'
        invariant
            n == s@.len(),
            i <= n,
            digit_len(s@) == i + digit_len(s@.skip(i as int)),
        decreases n - i,
    {
        assert(s@.skip(i as int).skip(1) =~= s@.skip(i + 1));
        i = i + 1;
    }
    let r = s.substring_char(0, i);
    assert(r@ =~= leading_digits(s@));
    r
}

/// Whether `s` ends with `suffix`.
pub open spec fn has_suffix(s: Seq<char>, suffix: Seq<char>) -> bool {
    suffix.len() <= s.len() && s.skip(s.len() - suffix.len()) == suffix
}

/// Whether `s` ends with `suffix`.
pub fn ends_with(s: &str, suffix: &str) -> (r: bool)
    ensures
        r == has_suffix(s@, suffix@),
{
    let n: usize = s.unicode_len();
    let m: usize = suffix.unicode_len();
    if m > n {
        return false;
    }
    let tail = s.substring_char(n - m, n);
    assert(tail@ =~= s@.skip(n - m));
    same(tail, suffix)
}

// ---------------------------------------------------------------------------
// Letter case
// ---------------------------------------------------------------------------

/// `c` with `A` to `Z` mapped to `a` to `z`.
pub open spec fn ascii_lower_char(c: char) -> char {
    if 'A' <= c <= 'Z' {
        (c as u32 + 32) as char
    } else {
        c
    }
}

/// `s` with `A` to `Z` mapped to `a` to `z`.
pub open spec fn ascii_lower(s: Seq<char>) -> Seq<char> {
    s.map_values(|c: char| ascii_lower_char(c))
}

fn lower_char(c: char) -> (r: char)
    ensures
        r == ascii_lower_char(c),
{
    if 'A' <= c && c <= 'Z' {
        let code: u8 = c as u8;
        (code + 32) as char
    } else {
        c
    }
}

/// `s` with `A` to `Z` mapped to `a` to `z`.
pub fn to_ascii_lowercase(s: &str) -> (r: String)
    ensures
        r@ == ascii_lower(s@),
{
    let n: usize = s.unicode_len();
    let mut out = String::new();
    let mut i: usize = 0;
    while i < n
        invariant
            n == s@.len(),
            i <= n,
            out@ == ascii_lower(s@.take(i as int)),
        decreases n - i,
    {
        out.push(lower_char(s.get_char(i)));
        assert(out@ =~= ascii_lower(s@.take(i + 1)));
        i = i + 1;
    }
    assert(s@.take(n as int) =~= s@);
    out
}

/// Whether two strings are equal once `A` to `Z` are read as `a` to `z`.
pub fn same_ignoring_ascii_case(a: &str, b: &str) -> (r: bool)
    ensures
        r == (ascii_lower(a@) == ascii_lower(b@)),
{
    to_ascii_lowercase(a) == to_ascii_lowercase(b)
}

/// What `str::to_lowercase` makes of a string with characters beyond ASCII.
pub uninterp spec fn unicode_lowercase(s: Seq<char>) -> Seq<char>;

/// `s` in lower case.
pub open spec fn folded(s: Seq<char>) -> Seq<char> {
    if vstd::utf8::is_ascii_chars(s) {
        ascii_lower(s)
    } else {
        unicode_lowercase(s)
    }
}

/// `str::to_lowercase`: Unicode lower case, a function of the string alone. On
/// a string of ASCII characters it maps `A` to `Z` to `a` to `z`.
#[verifier::external_body]
pub(crate) fn to_lowercase(s: &str) -> (r: String)
    ensures
        r@ == (if vstd::utf8::is_ascii_chars(s@) {
            ascii_lower(s@)
        } else {
            unicode_lowercase(s@)
        }),
{
    s.to_lowercase()
}

/// `c`, with `a` to `z` mapped to `A` to `Z`.
pub open spec fn ascii_upper_char(c: char) -> char {
    if 'a' <= c <= 'z' {
        (c as u32 - 32) as char
    } else {
        c
    }
}

/// `s` with `a` to `z` mapped to `A` to `Z`.
pub open spec fn ascii_upper(s: Seq<char>) -> Seq<char> {
    s.map_values(|c: char| ascii_upper_char(c))
}

/// What `str::to_uppercase` makes of a string with characters beyond ASCII.
pub uninterp spec fn unicode_uppercase(s: Seq<char>) -> Seq<char>;

/// `s` in upper case.
pub open spec fn capitalized(s: Seq<char>) -> Seq<char> {
    if vstd::utf8::is_ascii_chars(s) {
        ascii_upper(s)
    } else {
        unicode_uppercase(s)
    }
}

/// `str::to_uppercase`: Unicode upper case, a function of the string alone. On
/// a string of ASCII characters it maps `a` to `z` to `A` to `Z`.
#[verifier::external_body]
pub(crate) fn to_uppercase(s: &str) -> (r: String)
    ensures
        r@ == (if vstd::utf8::is_ascii_chars(s@) {
            ascii_upper(s@)
        } else {
            unicode_uppercase(s@)
        }),
{
    s.to_uppercase()
}

/// `s` with every `from` replaced by `to`, from the left.
pub open spec fn replaced(s: Seq<char>, from: Seq<char>, to: Seq<char>) -> Seq<char>
    decreases s.len(),
{
    if s.len() == 0 || from.len() == 0 {
        s
    } else if has_prefix(s, from) {
        to + replaced(s.skip(from.len() as int), from, to)
    } else {
        seq![s[0]] + replaced(s.skip(1), from, to)
    }
}

/// `s` with every `from` replaced by `to`, from the left.
pub fn replace(s: &str, from: &str, to: &str) -> (r: String)
    requires
        from@.len() > 0,
    ensures
        r@ == replaced(s@, from@, to@),
{
    let n: usize = s.unicode_len();
    let m: usize = from.unicode_len();
    let mut out = String::new();
    let mut i: usize = 0;
    assert(s@.skip(0) =~= s@);
    assert(out@ + replaced(s@, from@, to@) =~= replaced(s@, from@, to@));
    while i < n
        invariant
            n == s@.len(),
            m == from@.len(),
            m > 0,
            i <= n,
            out@ + replaced(s@.skip(i as int), from@, to@) == replaced(s@, from@, to@),
        decreases n - i,
    {
        let rest = s.substring_char(i, n);
        assert(rest@ =~= s@.skip(i as int));
        let ghost before = out@;
        if strip_prefix(rest, from).is_some() {
            out.append(to);
            assert(s@.skip(i as int).skip(m as int) =~= s@.skip(i + m));
            assert(before + (to@ + replaced(s@.skip(i + m), from@, to@)) =~= out@ + replaced(
                s@.skip(i + m),
                from@,
                to@,
            ));
            i = i + m;
        } else {
            let c = s.get_char(i);
            out.push(c);
            assert(s@.skip(i as int).skip(1) =~= s@.skip(i + 1));
            assert(before + (seq![c] + replaced(s@.skip(i + 1), from@, to@)) =~= out@ + replaced(
                s@.skip(i + 1),
                from@,
                to@,
            ));
            i = i + 1;
        }
    }
    assert(s@.skip(i as int) =~= Seq::empty());
    assert(out@ + Seq::<char>::empty() =~= out@);
    out
}

/// `s` with spaces in front of it, up to a width.
pub open spec fn padded(s: Seq<char>, width: nat) -> Seq<char>
    decreases width - s.len(),
{
    if s.len() >= width {
        s
    } else {
        padded(seq![' '] + s, width)
    }
}

/// `part`, `count` times in a row.
pub open spec fn repeated(part: Seq<char>, count: nat) -> Seq<char>
    decreases count,
{
    if count == 0 {
        Seq::empty()
    } else {
        repeated(part, (count - 1) as nat) + part
    }
}

/// Append `part` to `out`, `count` times.
pub fn push_repeated(out: &mut String, part: &str, count: usize)
    ensures
        final(out)@ == old(out)@ + repeated(part@, count as nat),
{
    let ghost start = out@;
    let mut i: usize = 0;
    assert(out@ =~= start + repeated(part@, 0));
    while i < count
        invariant
            i <= count,
            out@ == start + repeated(part@, i as nat),
        decreases count - i,
    {
        out.append(part);
        assert(out@ =~= start + repeated(part@, (i + 1) as nat));
        i = i + 1;
    }
}

/// Append `s` to `out`, with spaces in front of it up to a width.
pub fn push_padded(out: &mut String, s: &str, width: usize)
    ensures
        final(out)@ == old(out)@ + padded(s@, width as nat),
{
    let n: usize = s.unicode_len();
    let missing: usize = if n < width {
        width - n
    } else {
        0
    };
    proof {
        lemma_padded(s@, width as nat);
    }
    let ghost start = out@;
    push_repeated(out, " ", missing);
    out.append(s);
    assert(out@ =~= start + (repeated(" "@, missing as nat) + s@));
}

proof fn lemma_padded(s: Seq<char>, width: nat)
    ensures
        padded(s, width) == repeated(
            " "@,
            if s.len() < width {
                (width - s.len()) as nat
            } else {
                0
            },
        ) + s,
    decreases width - s.len(),
{
    reveal_strlit(" ");
    if s.len() >= width {
        assert(repeated(" "@, 0) + s =~= s);
    } else {
        let longer = seq![' '] + s;
        lemma_padded(longer, width);
        let k = (width - s.len()) as nat;
        assert(" "@ =~= seq![' ']);
        assert(repeated(" "@, (k - 1) as nat) + (seq![' '] + s) =~= repeated(" "@, k) + s);
    }
}

// ---------------------------------------------------------------------------
// Laws
// ---------------------------------------------------------------------------

/// What is written in decimal is digits, stands for the number that was written, and has
/// no white space around it.
pub proof fn decimals_are_read_back(n: nat)
    ensures
        is_number(dec(n)),
        number_value(dec(n)) == n,
        unsigned_value(dec(n)) == Some(n),
        signed_value(dec(n)) == Some(n as int),
        trimmed(dec(n)) == dec(n),
{
    lemma_dec_digits(n);
    let s = dec(n);
    assert(is_digit(s[0]));
    assert(is_digit(s.last()));
}

proof fn lemma_dec_digits(n: nat)
    ensures
        is_number(dec(n)),
        number_value(dec(n)) == n,
    decreases n,
{
    let d = digit_char(n % 10);
    assert(is_digit(d) && d as nat - 48 == n % 10);
    if n < 10 {
        let s = dec(n);
        assert(s.drop_last() =~= Seq::<char>::empty());
        assert(number_value(s.drop_last()) == 0);
        assert(n % 10 == n);
    } else {
        let front = dec(n / 10);
        lemma_dec_digits(n / 10);
        assert(front.push(d).drop_last() =~= front);
        assert forall|i: int| 0 <= i < front.push(d).len() implies is_digit(
            #[trigger] front.push(d)[i],
        ) by {
            if i < front.len() {
                assert(front.push(d)[i] == front[i]);
            }
        }
    }
}

/// What is written in decimal with its sign stands for the number that was written.
pub proof fn signed_decimals_are_read_back(i: int)
    ensures
        signed_value(signed_dec(i)) == Some(i),
        trimmed(signed_dec(i)) == signed_dec(i),
{
    if i < 0 {
        let n = (-i) as nat;
        decimals_are_read_back(n);
        let s = signed_dec(i);
        assert(s.skip(1) =~= dec(n));
        assert(is_digit(dec(n).last()));
        assert(s.last() == dec(n).last());
        assert(s[0] == '-');
    } else {
        decimals_are_read_back(i as nat);
    }
}

/// Different numbers are written differently.
pub proof fn decimals_differ(a: nat, b: nat)
    ensures
        dec(a) == dec(b) <==> a == b,
{
    decimals_are_read_back(a);
    decimals_are_read_back(b);
}

/// The digits before a unit are the number, whatever the unit is, as long as it does not
/// begin with a digit.
pub proof fn numbers_are_read_before_their_unit(n: nat, unit: Seq<char>)
    requires
        unit.len() == 0 || !is_digit(unit[0]),
    ensures
        leading_digits(dec(n) + unit) == dec(n),
{
    decimals_are_read_back(n);
    lemma_digits_end(dec(n), unit);
    assert((dec(n) + unit).take(dec(n).len() as int) =~= dec(n));
}

proof fn lemma_digits_end(digits: Seq<char>, rest: Seq<char>)
    requires
        forall|i: int| 0 <= i < digits.len() ==> is_digit(#[trigger] digits[i]),
        rest.len() == 0 || !is_digit(rest[0]),
    ensures
        digit_len(digits + rest) == digits.len(),
    decreases digits.len(),
{
    if digits.len() == 0 {
        assert(digits + rest =~= rest);
    } else {
        let s = digits + rest;
        assert(s[0] == digits[0]);
        assert(s.skip(1) =~= digits.skip(1) + rest);
        assert forall|i: int| 0 <= i < digits.skip(1).len() implies is_digit(
            #[trigger] digits.skip(1)[i],
        ) by {
            assert(digits.skip(1)[i] == digits[i + 1]);
        }
        lemma_digits_end(digits.skip(1), rest);
    }
}

/// Whether every character is white space.
pub open spec fn all_white(s: Seq<char>) -> bool {
    forall|i: int| 0 <= i < s.len() ==> white(#[trigger] s[i])
}

/// Trimming takes white space off both ends and nothing else: what is left neither begins nor
/// ends with any.
pub proof fn trimming_takes_white_space_off_the_ends(s: &str, r: &str)
    requires
        call_ensures(trim, (s,), r),
    ensures
        exists|a: Seq<char>, b: Seq<char>|
            #![trigger all_white(a), all_white(b)]
            s@ == a + r@ + b && all_white(a) && all_white(b),
        r@.len() > 0 ==> !white(r@[0]) && !white(r@.last()),
{
    let t = trimmed_start(s@);
    let a = lemma_trimmed_start(s@);
    let b = lemma_trimmed_end(t);
    assert(s@ =~= a + r@ + b);
    if r@.len() > 0 {
        assert(t[0] == r@[0]);
    }
}

proof fn lemma_trimmed_start(s: Seq<char>) -> (a: Seq<char>)
    ensures
        s == a + trimmed_start(s),
        all_white(a),
        trimmed_start(s).len() > 0 ==> !white(trimmed_start(s)[0]),
    decreases s.len(),
{
    if s.len() > 0 && white(s[0]) {
        let a = lemma_trimmed_start(s.skip(1));
        let t = trimmed_start(s.skip(1));
        assert(s =~= seq![s[0]] + s.skip(1));
        assert(seq![s[0]] + (a + t) =~= (seq![s[0]] + a) + t);
        seq![s[0]] + a
    } else {
        assert(s =~= Seq::<char>::empty() + s);
        Seq::empty()
    }
}

proof fn lemma_trimmed_end(s: Seq<char>) -> (b: Seq<char>)
    ensures
        s == trimmed_end(s) + b,
        all_white(b),
        trimmed_end(s).len() > 0 ==> !white(trimmed_end(s).last()),
    decreases s.len(),
{
    if s.len() > 0 && white(s.last()) {
        let b = lemma_trimmed_end(s.drop_last());
        let t = trimmed_end(s.drop_last());
        assert(s =~= s.drop_last().push(s.last()));
        assert((t + b).push(s.last()) =~= t + b.push(s.last()));
        b.push(s.last())
    } else {
        assert(s =~= s + Seq::<char>::empty());
        Seq::empty()
    }
}

/// The usual white space is white, and no printable ASCII character is.
pub proof fn printable_ascii_is_not_white(c: char, r: bool)
    requires
        call_ensures(is_white, (c,), r),
    ensures
        c == ' ' || c == '\t' || c == '\n' || c == '\r' ==> r,
        '!' <= c <= '~' ==> !r,
{
}

/// `s` without its white space.
pub open spec fn inked(s: Seq<char>) -> Seq<char>
    decreases s.len(),
{
    if s.len() == 0 {
        s
    } else if white(s[0]) {
        inked(s.skip(1))
    } else {
        seq![s[0]] + inked(s.skip(1))
    }
}

/// Texts, one after the other.
pub open spec fn run_together(parts: Seq<Seq<char>>) -> Seq<char>
    decreases parts.len(),
{
    if parts.len() == 0 {
        Seq::empty()
    } else {
        parts[0] + run_together(parts.skip(1))
    }
}

/// Whether a text has characters and no white space among them.
pub open spec fn is_word(s: Seq<char>) -> bool {
    s.len() > 0 && forall|i: int| 0 <= i < s.len() ==> !white(#[trigger] s[i])
}

/// Words have no white space in them and are not empty, and together they hold every other
/// character of the text in its order.
pub proof fn words_are_what_is_not_white(s: &str, r: Vec<String>)
    requires
        call_ensures(split_whitespace, (s,), r),
    ensures
        forall|i: int| 0 <= i < r@.len() ==> is_word((#[trigger] r@[i])@),
        run_together(texts(r@)) == inked(s@),
{
    lemma_words(s@);
    assert forall|i: int| 0 <= i < r@.len() implies is_word((#[trigger] r@[i])@) by {
        assert(texts(r@)[i] == r@[i]@);
    }
}

proof fn lemma_words(s: Seq<char>)
    ensures
        forall|i: int| 0 <= i < words(s).len() ==> is_word(#[trigger] words(s)[i]),
        run_together(words(s)) == inked(s),
    decreases s.len(),
{
    let t = trimmed_start(s);
    lemma_trimmed_start_len(s);
    lemma_inked_start(s);
    if t.len() > 0 {
        let n = word_len(t) as int;
        lemma_word_len_bound(t);
        lemma_word_inked(t);
        lemma_words(t.skip(n));
        let rest = words(t.skip(n));
        assert(words(s) == seq![t.take(n)] + rest);
        assert(words(s).skip(1) =~= rest);
        assert forall|i: int| 0 <= i < words(s).len() implies is_word(#[trigger] words(s)[i]) by {
            if i > 0 {
                assert(words(s)[i] == rest[i - 1]);
            }
        }
    }
}

proof fn lemma_inked_start(s: Seq<char>)
    ensures
        inked(trimmed_start(s)) == inked(s),
        trimmed_start(s).len() > 0 ==> !white(trimmed_start(s)[0]),
    decreases s.len(),
{
    if s.len() > 0 && white(s[0]) {
        lemma_inked_start(s.skip(1));
    }
}

proof fn lemma_word_inked(t: Seq<char>)
    ensures
        ({
            let n = word_len(t) as int;
            &&& n <= t.len()
            &&& forall|i: int| 0 <= i < n ==> !white(#[trigger] t[i])
            &&& inked(t) == t.take(n) + inked(t.skip(n))
        }),
    decreases t.len(),
{
    lemma_word_len_bound(t);
    let n = word_len(t) as int;
    if t.len() > 0 && !white(t[0]) {
        let rest = t.skip(1);
        lemma_word_inked(rest);
        assert forall|i: int| 0 <= i < n implies !white(#[trigger] t[i]) by {
            if i > 0 {
                assert(rest[i - 1] == t[i]);
            }
        }
        assert(rest.skip(n - 1) =~= t.skip(n));
        assert(t.take(n) =~= seq![t[0]] + rest.take(n - 1));
        assert(inked(t) =~= t.take(n) + inked(t.skip(n)));
    } else {
        assert(t.take(0) =~= Seq::<char>::empty());
        assert(t.skip(0) =~= t);
        assert(inked(t) =~= t.take(0) + inked(t));
    }
}

/// Two texts with a line feed between them have the lines of the first and then those of the
/// second, where the first is one line without a carriage return at its end; and no line has
/// a line feed in it.
pub proof fn lines_end_at_line_feeds(line: Seq<char>, rest: Seq<char>)
    requires
        forall|i: int| 0 <= i < line.len() ==> #[trigger] line[i] != '\n',
        line.len() > 0 ==> line.last() != '\r',
    ensures
        lines_of(line + seq!['\n'] + rest) == seq![line] + lines_of(rest),
        line.len() > 0 ==> lines_of(line) == seq![line],
        lines_of(line + seq!['\r', '\n'] + rest) == seq![line] + lines_of(rest),
{
    let s = line + seq!['\n'] + rest;
    lemma_line_len(line, seq!['\n'] + rest);
    assert(s =~= line + (seq!['\n'] + rest));
    assert(s.take(line.len() as int) =~= line);
    assert(s.skip(line.len() as int + 1) =~= rest);
    lemma_line_len(line, Seq::empty());
    assert(line =~= line + Seq::<char>::empty());
    let with = line.push('\r');
    let w = line + seq!['\r', '\n'] + rest;
    assert forall|i: int| 0 <= i < with.len() implies #[trigger] with[i] != '\n' by {
        if i < line.len() {
            assert(with[i] == line[i]);
        }
    }
    lemma_line_len(with, seq!['\n'] + rest);
    assert(w =~= with + (seq!['\n'] + rest));
    assert(w.take(with.len() as int) =~= with);
    assert(w.skip(with.len() as int + 1) =~= rest);
    assert(with.drop_last() =~= line);
}

proof fn lemma_line_len(line: Seq<char>, rest: Seq<char>)
    requires
        forall|i: int| 0 <= i < line.len() ==> #[trigger] line[i] != '\n',
        rest.len() == 0 || rest[0] == '\n',
    ensures
        line_len(line + rest) == line.len(),
    decreases line.len(),
{
    let s = line + rest;
    if line.len() == 0 {
        assert(s =~= rest);
    } else {
        assert(s[0] == line[0]);
        assert(s.skip(1) =~= line.skip(1) + rest);
        assert forall|i: int| 0 <= i < line.skip(1).len() implies #[trigger] line.skip(1)[i]
            != '\n' by {
            assert(line.skip(1)[i] == line[i + 1]);
        }
        lemma_line_len(line.skip(1), rest);
    }
}

/// What is left of a text without its prefix is what followed the prefix, and a text ends
/// with whatever was put behind it.
pub proof fn prefixes_and_suffixes_are_taken_apart(
    s: &str,
    affix: &str,
    rest: Option<&str>,
    ends: bool,
)
    requires
        call_ensures(strip_prefix, (s, affix), rest),
        call_ensures(ends_with, (s, affix), ends),
    ensures
        rest matches Some(after) ==> s@ == affix@ + after@,
        forall|after: Seq<char>| s@ == #[trigger] (affix@ + after) ==> rest is Some,
        ends ==> exists|before: Seq<char>| s@ == #[trigger] (before + affix@),
        forall|before: Seq<char>| s@ == #[trigger] (before + affix@) ==> ends,
{
    let n = affix@.len() as int;
    if let Some(after) = rest {
        assert(s@ =~= affix@ + after@);
    }
    assert forall|after: Seq<char>| s@ == #[trigger] (affix@ + after) implies rest is Some by {
        assert((affix@ + after).subrange(0, n) =~= affix@);
    }
    if ends {
        let before = s@.take(s@.len() - n);
        assert(s@ =~= before + affix@);
    }
    assert forall|before: Seq<char>| s@ == #[trigger] (before + affix@) implies ends by {
        assert((before + affix@).skip(before.len() as int) =~= affix@);
    }
}

/// A text is found wherever it stands, and only where it does.
pub proof fn texts_are_found_where_they_stand(hay: &str, needle: &str, r: bool)
    requires
        call_ensures(contains, (hay, needle), r),
    ensures
        r ==> exists|a: Seq<char>, b: Seq<char>| hay@ == #[trigger] (a + needle@ + b),
        forall|a: Seq<char>, b: Seq<char>| hay@ == #[trigger] (a + needle@ + b) ==> r,
{
    if r {
        let i = choose|i: int| occurs_at(hay@, needle@, i);
        let (a, b) = (hay@.take(i), hay@.skip(i + needle@.len()));
        assert(hay@ =~= a + needle@ + b);
    }
    assert forall|a: Seq<char>, b: Seq<char>| hay@ == #[trigger] (a + needle@ + b) implies r by {
        assert(hay@.subrange(a.len() as int, (a.len() + needle@.len()) as int) =~= needle@);
        assert(occurs_at(hay@, needle@, a.len() as int));
    }
}

/// Lower case keeps the length, changes letters from `A` to `Z` alone, and once is enough.
pub proof fn lower_case_changes_capitals_alone(s: &str, r: String, again: String, i: int)
    requires
        call_ensures(to_ascii_lowercase, (s,), r),
        ascii_lower(r@) == again@,
        0 <= i < s@.len(),
    ensures
        r@.len() == s@.len(),
        !('A' <= s@[i] <= 'Z') ==> r@[i] == s@[i],
        'A' <= s@[i] <= 'Z' ==> 'a' <= r@[i] <= 'z' && r@[i] as u32 - 'a' as u32 == s@[i] as u32
            - 'A' as u32,
        again@ == r@,
{
    assert forall|k: int| 0 <= k < r@.len() implies ascii_lower(r@)[k] == #[trigger] r@[k] by {}
    assert(again@ =~= r@);
}

/// Joining puts the separator between neighbours: two lists join to their joins with it in
/// between.
pub proof fn joins_are_joined(a: Seq<Seq<char>>, b: Seq<Seq<char>>, sep: Seq<char>)
    requires
        a.len() > 0,
        b.len() > 0,
    ensures
        joined(a + b, sep) == joined(a, sep) + sep + joined(b, sep),
    decreases b.len(),
{
    let all = a + b;
    assert(all.last() == b.last());
    if b.len() == 1 {
        assert(all.drop_last() =~= a);
    } else {
        assert(all.drop_last() =~= a + b.drop_last());
        joins_are_joined(a, b.drop_last(), sep);
        assert(joined(all, sep) =~= joined(a, sep) + sep + joined(b, sep));
    }
}

/// Padding puts blanks before a text that is too short, up to the width, and leaves any other
/// text as it is.
pub proof fn padding_fills_up_to_the_width(s: Seq<char>, width: nat)
    ensures
        s.len() >= width ==> padded(s, width) == s,
        s.len() < width ==> padded(s, width).len() == width && padded(s, width).skip(
            width - s.len(),
        ) == s && forall|i: int|
            0 <= i < width - s.len() ==> #[trigger] padded(s, width)[i] == ' ',
    decreases width - s.len(),
{
    if s.len() < width {
        let more = seq![' '] + s;
        padding_fills_up_to_the_width(more, width);
        let p = padded(more, width);
        if more.len() < width {
            let d = width - s.len();
            assert(p.skip(d - 1) == more);
            assert(p[d - 1] == p.skip(d - 1)[0]);
            assert(p.skip(d) =~= more.skip(1));
        }
        assert(more.skip(1) =~= s);
    }
}

/// A repeated text is as long as all of its copies, and has the same part in each place.
pub proof fn copies_are_counted(part: Seq<char>, count: nat)
    ensures
        repeated(part, count).len() == part.len() * count,
        repeated(part, count + 1) == repeated(part, count) + part,
    decreases count,
{
    if count > 0 {
        copies_are_counted(part, (count - 1) as nat);
        assert(part.len() * count == part.len() * (count - 1) + part.len()) by (nonlinear_arith)
            requires
                count > 0,
        ;
    } else {
        assert(part.len() * 0 == 0);
    }
}

} // verus!
