//! Character-sequence primitives shared by the parsers and the renderers:
//! substring search, line splitting, white-space-delimited tokens, and
//! numbers in hexadecimal and decimal digits.

use vstd::prelude::*;
use vstd::string::StringExecFns;

verus! {

/// `needle` occurs in `hay` starting at offset `at`.
pub open spec fn occurs_at(hay: Seq<char>, needle: Seq<char>, at: int) -> bool {
    &&& 0 <= at
    &&& at + needle.len() <= hay.len()
    &&& hay.subrange(at, at + needle.len()) == needle
}

/// `needle` occurs somewhere in `hay`. The empty needle occurs everywhere.
pub open spec fn contains(hay: Seq<char>, needle: Seq<char>) -> bool {
    exists|at: int| occurs_at(hay, needle, at)
}

/// The characters of a string slice, in order.
pub fn chars_of(s: &str) -> (out: Vec<char>)
    ensures
        out@ == s@,
{
    let mut out: Vec<char> = Vec::new();
    for c in it: s.chars()
        invariant
            it.seq() == s@,
            out@ =~= it.seq().take(it.index()),
    {
        out.push(c);
    }
    assert(out@ =~= s@);
    out
}

/// Whether `needle` occurs in `hay` at offset `at`.
pub fn matches_at(hay: &[char], needle: &[char], at: usize) -> (b: bool)
    ensures
        b == occurs_at(hay@, needle@, at as int),
{
    let h = hay.len();
    let n = needle.len();
    if at > h || n > h - at {
        return false;
    }
    let mut k: usize = 0;
    while k < n
        invariant
            h == hay@.len(),
            n == needle@.len(),
            at + n <= h,
            k <= n,
            forall|j: int| 0 <= j < k ==> hay@[at + j] == needle@[j],
        decreases n - k,
    {
        if hay[at + k] != needle[k] {
            proof {
                let window = hay@.subrange(at as int, at + n);
                assert(window[k as int] == hay@[at + k]);
            }
            return false;
        }
        k += 1;
    }
    assert(hay@.subrange(at as int, at + n) =~= needle@);
    true
}

/// The least offset at which `needle` occurs in `hay`, if it occurs at all.
pub fn find(hay: &[char], needle: &[char]) -> (r: Option<usize>)
    ensures
        r is None <==> !contains(hay@, needle@),
        r matches Some(at) ==> {
            &&& occurs_at(hay@, needle@, at as int)
            &&& forall|j: int| 0 <= j < at ==> !occurs_at(hay@, needle@, j)
        },
{
    let h = hay.len();
    let n = needle.len();
    if n > h {
        return None;
    }
    let last = h - n;
    let mut at: usize = 0;
    loop
        invariant
            h == hay@.len(),
            n == needle@.len(),
            last == h - n,
            at <= last,
            forall|j: int| 0 <= j < at ==> !occurs_at(hay@, needle@, j),
        decreases last - at,
    {
        if matches_at(hay, needle, at) {
            return Some(at);
        }
        if at == last {
            return None;
        }
        at += 1;
    }
}

/// Whether `needle` occurs somewhere in `hay`.
pub fn has_substring(hay: &[char], needle: &[char]) -> (b: bool)
    ensures
        b == contains(hay@, needle@),
{
    find(hay, needle).is_some()
}

/// Whether two texts hold the same characters.
pub fn same_text(a: &[char], b: &[char]) -> (same: bool)
    ensures
        same == (a@ == b@),
{
    if a.len() != b.len() {
        return false;
    }
    let same = matches_at(a, b, 0);
    assert(a@.subrange(0, a@.len() as int) =~= a@);
    same
}

/// The lower-case form of an ASCII capital; any other character unchanged.
pub open spec fn ascii_lower(c: char) -> char {
    if 'A' <= c <= 'Z' {
        ((c as u8) + 32) as char
    } else {
        c
    }
}

/// A text with its ASCII capitals turned to lower case.
pub open spec fn lowered(s: Seq<char>) -> Seq<char> {
    s.map_values(|c: char| ascii_lower(c))
}

/// `needle` occurs in `hay` when the case of ASCII letters is ignored.
pub open spec fn contains_ignoring_case(hay: Seq<char>, needle: Seq<char>) -> bool {
    contains(lowered(hay), lowered(needle))
}

/// Turns the ASCII capitals of a text to lower case.
pub fn to_lowered(s: &[char]) -> (out: Vec<char>)
    ensures
        out@ == lowered(s@),
{
    let mut out: Vec<char> = Vec::new();
    let mut i: usize = 0;
    while i < s.len()
        invariant
            i <= s@.len(),
            out@ == lowered(s@.take(i as int)),
        decreases s@.len() - i,
    {
        let c = s[i];
        let low = if 'A' <= c && c <= 'Z' {
            ((c as u8) + 32) as char
        } else {
            c
        };
        out.push(low);
        assert(out@ =~= lowered(s@.take(i + 1)));
        i += 1;
    }
    assert(s@.take(i as int) =~= s@);
    out
}

/// Whether `needle` occurs in `hay` when the case of ASCII letters is ignored.
pub fn has_substring_ignoring_case(hay: &[char], needle: &[char]) -> (b: bool)
    ensures
        b == contains_ignoring_case(hay@, needle@),
{
    let hay_low = to_lowered(hay);
    let needle_low = to_lowered(needle);
    has_substring(hay_low.as_slice(), needle_low.as_slice())
}

/// Length of the longest prefix of `s` whose characters all satisfy `keep`.
pub open spec fn prefix_len(s: Seq<char>, keep: spec_fn(char) -> bool) -> nat
    decreases s.len(),
{
    if s.len() > 0 && keep(s[0]) {
        1 + prefix_len(s.drop_first(), keep)
    } else {
        0
    }
}

/// `prefix_len` is the one offset that ends a run of kept characters.
pub proof fn lemma_prefix_len(s: Seq<char>, keep: spec_fn(char) -> bool, k: int)
    requires
        0 <= k <= s.len(),
        forall|j: int| 0 <= j < k ==> keep(#[trigger] s[j]),
        k < s.len() ==> !keep(s[k]),
    ensures
        prefix_len(s, keep) == k,
    decreases k,
{
    if k > 0 {
        let rest = s.drop_first();
        assert forall|j: int| 0 <= j < k - 1 implies keep(#[trigger] rest[j]) by {
            assert(rest[j] == s[j + 1]);
        }
        if k - 1 < rest.len() {
            assert(rest[k - 1] == s[k]);
        }
        lemma_prefix_len(rest, keep, k - 1);
    }
}

/// Every character before `prefix_len` is kept, and the one at it, if any, is not.
pub proof fn lemma_prefix_len_bounds(s: Seq<char>, keep: spec_fn(char) -> bool)
    ensures
        prefix_len(s, keep) <= s.len(),
        forall|j: int| 0 <= j < prefix_len(s, keep) ==> keep(#[trigger] s[j]),
        prefix_len(s, keep) < s.len() ==> !keep(s[prefix_len(s, keep) as int]),
    decreases s.len(),
{
    if s.len() > 0 && keep(s[0]) {
        let rest = s.drop_first();
        lemma_prefix_len_bounds(rest, keep);
        assert forall|j: int| 0 <= j < prefix_len(s, keep) implies keep(#[trigger] s[j]) by {
            if j > 0 {
                assert(s[j] == rest[j - 1]);
            }
        }
        if prefix_len(s, keep) < s.len() {
            assert(s[prefix_len(s, keep) as int] == rest[prefix_len(rest, keep) as int]);
        }
    }
}

/// Number of characters before the first line feed of `s`, or all of `s`
/// when it holds none.
pub open spec fn line_len(s: Seq<char>) -> nat {
    prefix_len(s, |c: char| c != '\n')
}

/// The lines of a text: the maximal runs of characters between line feeds.
/// A line feed that ends the text opens no further line, and the empty text
/// has no lines.
pub open spec fn lines(s: Seq<char>) -> Seq<Seq<char>>
    decreases s.len(),
{
    if s.len() == 0 {
        Seq::empty()
    } else if line_len(s) >= s.len() {
        seq![s]
    } else {
        seq![s.take(line_len(s) as int)] + lines(s.skip(line_len(s) as int + 1))
    }
}

/// The characters of `text` between the two offsets of `span`.
pub open spec fn span_of(text: Seq<char>, span: (usize, usize)) -> Seq<char> {
    text.subrange(span.0 as int, span.1 as int)
}

/// `spans` marks, in order, exactly the lines of `text`.
pub open spec fn marks_lines(text: Seq<char>, spans: Seq<(usize, usize)>) -> bool {
    &&& spans.len() == lines(text).len()
    &&& forall|i: int|
        0 <= i < spans.len() ==> {
            &&& (#[trigger] spans[i]).0 <= spans[i].1 <= text.len()
            &&& span_of(text, spans[i]) == lines(text)[i]
        }
}

/// Offset at which the line starting at `from` ends.
fn line_end(text: &[char], from: usize) -> (end: usize)
    requires
        from <= text@.len(),
    ensures
        from <= end <= text@.len(),
        end - from == line_len(text@.skip(from as int)),
{
    let len = text.len();
    let mut end: usize = from;
    while end < len && text[end] != '\n'
        invariant
            len == text@.len(),
            from <= end <= len,
            forall|j: int| from <= j < end ==> text@[j] != '\n',
        decreases len - end,
    {
        end += 1;
    }
    proof {
        let rest = text@.skip(from as int);
        let keep = |c: char| c != '\n';
        assert forall|j: int| 0 <= j < end - from implies keep(#[trigger] rest[j]) by {
            assert(rest[j] == text@[from + j]);
        }
        lemma_prefix_len(rest, keep, end - from);
    }
    end
}

/// Splits a text into its lines, each given by the offsets of its first
/// character and of the position after its last.
pub fn split_lines(text: &[char]) -> (spans: Vec<(usize, usize)>)
    ensures
        marks_lines(text@, spans@),
{
    let len = text.len();
    let mut spans: Vec<(usize, usize)> = Vec::new();
    let mut pos: usize = 0;
    assert(text@.skip(0) =~= text@);
    while pos < len
        invariant
            len == text@.len(),
            pos <= len,
            spans@.len() <= lines(text@).len(),
            lines(text@).skip(spans@.len() as int) =~= lines(text@.skip(pos as int)),
            forall|i: int|
                0 <= i < spans@.len() ==> {
                    &&& (#[trigger] spans@[i]).0 <= spans@[i].1 <= len
                    &&& span_of(text@, spans@[i]) == lines(text@)[i]
                },
        decreases len - pos,
    {
        let end = line_end(text, pos);
        let ghost rest = text@.skip(pos as int);
        let ghost done = spans@.len() as int;
        proof {
            assert(lines(text@).skip(done)[0] == lines(rest)[0]);
            if end < len {
                assert(rest.take(end - pos) =~= text@.subrange(pos as int, end as int));
                assert(rest.skip(end - pos + 1) =~= text@.skip(end + 1));
                assert(lines(rest).skip(1) =~= lines(text@.skip(end + 1)));
            } else {
                assert(rest =~= text@.subrange(pos as int, end as int));
            }
        }
        spans.push((pos, end));
        pos = if end < len { end + 1 } else { len };
    }
    spans
}

/// Unicode white space, the separator between the tokens of a line.
pub open spec fn is_whitespace(c: char) -> bool {
    ||| '\t' <= c <= '\r'
    ||| c == ' '
    ||| c == '\u{85}'
    ||| c == '\u{a0}'
    ||| c == '\u{1680}'
    ||| '\u{2000}' <= c <= '\u{200a}'
    ||| c == '\u{2028}'
    ||| c == '\u{2029}'
    ||| c == '\u{202f}'
    ||| c == '\u{205f}'
    ||| c == '\u{3000}'
}

/// Length of the white space that `s` starts with.
pub open spec fn blank_len(s: Seq<char>) -> nat {
    prefix_len(s, |c: char| is_whitespace(c))
}

/// Length of the run of characters other than white space that `s` starts with.
pub open spec fn word_len(s: Seq<char>) -> nat {
    prefix_len(s, |c: char| !is_whitespace(c))
}

/// The first white-space-delimited token of `s`; empty when `s` is blank.
pub open spec fn first_token(s: Seq<char>) -> Seq<char> {
    let body = s.skip(blank_len(s) as int);
    body.take(word_len(body) as int)
}

/// What remains of `s` behind its first token.
pub open spec fn after_first_token(s: Seq<char>) -> Seq<char> {
    let body = s.skip(blank_len(s) as int);
    body.skip(word_len(body) as int)
}

/// The token of `s` that `n` tokens precede; empty when `s` has no more
/// than `n` tokens.
pub open spec fn nth_token(s: Seq<char>, n: nat) -> Seq<char>
    decreases n,
{
    if n == 0 {
        first_token(s)
    } else {
        nth_token(after_first_token(s), (n - 1) as nat)
    }
}

/// Whether a character is white space.
pub fn whitespace(c: char) -> (b: bool)
    ensures
        b == is_whitespace(c),
{
    ('\t' <= c && c <= '\r') || c == ' ' || c == '\u{85}' || c == '\u{a0}' || c == '\u{1680}'
        || ('\u{2000}' <= c && c <= '\u{200a}') || c == '\u{2028}' || c == '\u{2029}'
        || c == '\u{202f}' || c == '\u{205f}' || c == '\u{3000}'
}

/// Length of the run at the start of `s` of characters that are white space
/// (`blank`) or that are not (`!blank`).
fn run_len(s: &[char], blank: bool) -> (n: usize)
    ensures
        n <= s@.len(),
        blank ==> n == blank_len(s@),
        !blank ==> n == word_len(s@),
{
    let len = s.len();
    let mut n: usize = 0;
    while n < len && whitespace(s[n]) == blank
        invariant
            len == s@.len(),
            n <= len,
            forall|j: int| 0 <= j < n ==> is_whitespace(#[trigger] s@[j]) == blank,
        decreases len - n,
    {
        n += 1;
    }
    proof {
        if blank {
            lemma_prefix_len(s@, |c: char| is_whitespace(c), n as int);
        } else {
            lemma_prefix_len(s@, |c: char| !is_whitespace(c), n as int);
        }
    }
    n
}

/// Splits `s` into its first token and what follows it.
pub fn split_token<'a>(s: &'a [char]) -> (r: (&'a [char], &'a [char]))
    ensures
        r.0@ == first_token(s@),
        r.1@ == after_first_token(s@),
{
    let len = s.len();
    let start = run_len(s, true);
    let body = &s[start..len];
    let n = run_len(body, false);
    let token = &body[0..n];
    let rest = &body[n..(len - start)];
    (token, rest)
}

/// The token of `s` that `n` tokens precede.
pub fn token_at<'a>(s: &'a [char], n: usize) -> (token: &'a [char])
    ensures
        token@ == nth_token(s@, n as nat),
{
    let mut rest = s;
    let mut k: usize = n;
    while k > 0
        invariant
            nth_token(s@, n as nat) == nth_token(rest@, k as nat),
        decreases k,
    {
        let (_, tail) = split_token(rest);
        rest = tail;
        k -= 1;
    }
    split_token(rest).0
}

/// Value of a hexadecimal digit of either case.
pub open spec fn hex_value(c: char) -> Option<u8> {
    if '0' <= c <= '9' {
        Some((c as u8 - 48) as u8)
    } else if 'a' <= c <= 'f' {
        Some((c as u8 - 87) as u8)
    } else if 'A' <= c <= 'F' {
        Some((c as u8 - 55) as u8)
    } else {
        None
    }
}

/// The lower-case hexadecimal digit for a value below sixteen.
pub open spec fn hex_digit(n: u8) -> char {
    if n < 10 {
        (48 + n) as char
    } else {
        (87 + n) as char
    }
}

/// Value of the two hexadecimal digits `hi` and `lo` read as one byte.
pub open spec fn hex_pair(hi: char, lo: char) -> Option<u8> {
    match (hex_value(hi), hex_value(lo)) {
        (Some(h), Some(l)) => Some((h * 16 + l) as u8),
        _ => None,
    }
}

/// The two lower-case hexadecimal digits of a byte.
pub open spec fn hex_byte(b: u8) -> Seq<char> {
    seq![hex_digit(b / 16), hex_digit(b % 16)]
}

/// The four lower-case hexadecimal digits of a 16-bit identifier.
pub open spec fn hex_word(w: u16) -> Seq<char> {
    hex_byte((w / 256) as u8) + hex_byte((w % 256) as u8)
}

/// Reads one hexadecimal digit.
pub fn parse_hex_digit(c: char) -> (r: Option<u8>)
    ensures
        r == hex_value(c),
        r matches Some(v) ==> v < 16,
{
    if '0' <= c && c <= '9' {
        Some(c as u8 - 48)
    } else if 'a' <= c && c <= 'f' {
        Some(c as u8 - 87)
    } else if 'A' <= c && c <= 'F' {
        Some(c as u8 - 55)
    } else {
        None
    }
}

/// Reads two hexadecimal digits as one byte.
pub fn parse_hex_pair(hi: char, lo: char) -> (r: Option<u8>)
    ensures
        r == hex_pair(hi, lo),
{
    match (parse_hex_digit(hi), parse_hex_digit(lo)) {
        (Some(h), Some(l)) => Some(h * 16 + l),
        _ => None,
    }
}

/// The lower-case hexadecimal digit of a value below sixteen.
fn hex_digit_of(n: u8) -> (c: char)
    requires
        n < 16,
    ensures
        c == hex_digit(n),
{
    if n < 10 {
        (48 + n) as char
    } else {
        (87 + n) as char
    }
}

/// The four lower-case hexadecimal digits of a 16-bit identifier.
pub fn hex_word_chars(w: u16) -> (digits: [char; 4])
    ensures
        digits@ == hex_word(w),
{
    let hi = (w / 256) as u8;
    let lo = (w % 256) as u8;
    let digits = [
        hex_digit_of(hi / 16),
        hex_digit_of(hi % 16),
        hex_digit_of(lo / 16),
        hex_digit_of(lo % 16),
    ];
    digits
}

/// The text of one lower-case hexadecimal digit.
fn hex_digit_text(n: u8) -> (t: &'static str)
    requires
        n < 16,
    ensures
        t@ == seq![hex_digit(n)],
{
    proof {
        reveal_strlit("0");
        reveal_strlit("1");
        reveal_strlit("2");
        reveal_strlit("3");
        reveal_strlit("4");
        reveal_strlit("5");
        reveal_strlit("6");
        reveal_strlit("7");
        reveal_strlit("8");
        reveal_strlit("9");
        reveal_strlit("a");
        reveal_strlit("b");
        reveal_strlit("c");
        reveal_strlit("d");
        reveal_strlit("e");
        reveal_strlit("f");
    }
    let t = match n {
        0 => "0",
        1 => "1",
        2 => "2",
        3 => "3",
        4 => "4",
        5 => "5",
        6 => "6",
        7 => "7",
        8 => "8",
        9 => "9",
        10 => "a",
        11 => "b",
        12 => "c",
        13 => "d",
        14 => "e",
        _ => "f",
    };
    t
}

/// Appends the lower-case hexadecimal digit of `n` to `out`.
pub(crate) fn push_hex_digit(out: &mut String, n: u8)
    requires
        n < 16,
    ensures
        final(out)@ == old(out)@.push(hex_digit(n)),
{
    out.append(hex_digit_text(n));
}

/// Appends the two lower-case hexadecimal digits of `b` to `out`.
pub fn push_hex_byte(out: &mut String, b: u8)
    ensures
        final(out)@ == old(out)@ + hex_byte(b),
{
    push_hex_digit(out, b / 16);
    push_hex_digit(out, b % 16);
}

/// Appends the four lower-case hexadecimal digits of `w` to `out`.
pub fn push_hex_word(out: &mut String, w: u16)
    ensures
        final(out)@ == old(out)@ + hex_word(w),
{
    push_hex_byte(out, (w / 256) as u8);
    push_hex_byte(out, (w % 256) as u8);
}

/// The decimal digit for a value below ten.
pub open spec fn decimal_digit(n: nat) -> char {
    (48 + n) as char
}

/// The decimal digits of a number, without leading zeros.
pub open spec fn decimal(n: nat) -> Seq<char>
    decreases n,
{
    if n < 10 {
        seq![decimal_digit(n)]
    } else {
        decimal(n / 10).push(decimal_digit(n % 10))
    }
}

/// Appends the decimal digits of `n` to `out`.
pub fn push_decimal(out: &mut String, n: u32)
    ensures
        final(out)@ == old(out)@ + decimal(n as nat),
    decreases n,
{
    if n >= 10 {
        push_decimal(out, n / 10);
    }
    push_hex_digit(out, (n % 10) as u8);
}

/// The views of a sequence of strings.
pub open spec fn texts(strings: Seq<String>) -> Seq<Seq<char>> {
    strings.map_values(|s: String| s@)
}

} // verus!
