//! The text of a frame's header line: `Content-Length: <decimal>`.
//!
//! Reading splits the line at ASCII whitespace and takes the second token
//! as an unsigned decimal number. Writing prints the number in decimal.

use vstd::prelude::*;
use vstd::string::StringSliceAdditionalSpecFns;

verus! {

/// The characters at which a header line is split into tokens.
pub open spec fn is_ascii_space(c: char) -> bool {
    c == ' ' || c == '\t' || c == '\n' || c == '\x0C' || c == '\r'
}

/// The characters that are trimmed from the end of a header line: the
/// Unicode property `White_Space`.
pub open spec fn is_space(c: char) -> bool {
    ||| '\u{9}' <= c <= '\u{D}'
    ||| c == ' '
    ||| c == '\u{85}'
    ||| c == '\u{A0}'
    ||| c == '\u{1680}'
    ||| '\u{2000}' <= c <= '\u{200A}'
    ||| c == '\u{2028}'
    ||| c == '\u{2029}'
    ||| c == '\u{202F}'
    ||| c == '\u{205F}'
    ||| c == '\u{3000}'
}

/// Whether `c` is a decimal digit.
pub open spec fn is_digit(c: char) -> bool {
    '0' <= c <= '9'
}

/// The number that the decimal digit `c` denotes.
pub open spec fn digit_value(c: char) -> nat {
    (c as nat - '0' as nat) as nat
}

/// `s` without its trailing white space.
pub open spec fn trim_end(s: Seq<char>) -> Seq<char>
    decreases s.len(),
{
    if s.len() > 0 && is_space(s.last()) {
        trim_end(s.drop_last())
    } else {
        s
    }
}

/// The first position at or after `i` that holds no ASCII white space, or
/// the length of `s` if there is none.
pub open spec fn skip_spaces(s: Seq<char>, i: int) -> int
    decreases s.len() - i,
{
    if 0 <= i < s.len() && is_ascii_space(s[i]) {
        skip_spaces(s, i + 1)
    } else {
        i
    }
}

/// The first position at or after `i` that holds ASCII white space, or the
/// length of `s` if there is none.
pub open spec fn skip_token(s: Seq<char>, i: int) -> int
    decreases s.len() - i,
{
    if 0 <= i < s.len() && !is_ascii_space(s[i]) {
        skip_token(s, i + 1)
    } else {
        i
    }
}

/// The second of the tokens that ASCII white space separates in `s`.
pub open spec fn second_token(s: Seq<char>) -> Option<Seq<char>> {
    let first_end = skip_token(s, skip_spaces(s, 0));
    let start = skip_spaces(s, first_end);
    let end = skip_token(s, start);
    if start < s.len() {
        Some(s.subrange(start, end))
    } else {
        None
    }
}

/// Whether `s` holds decimal digits and nothing else.
pub open spec fn all_digits(s: Seq<char>) -> bool {
    forall|i: int| 0 <= i < s.len() ==> is_digit(#[trigger] s[i])
}

/// The number that the decimal digits `s` denote.
pub open spec fn decimal_value(s: Seq<char>) -> nat
    decreases s.len(),
{
    if s.len() == 0 {
        0
    } else {
        decimal_value(s.drop_last()) * 10 + digit_value(s.last())
    }
}

/// The number that `token` denotes: an optional `+`, then one or more
/// decimal digits and nothing else.
pub open spec fn parse_unsigned(token: Seq<char>) -> Option<nat> {
    let digits = if token.len() > 0 && token[0] == '+' {
        token.drop_first()
    } else {
        token
    };
    if digits.len() > 0 && all_digits(digits) {
        Some(decimal_value(digits))
    } else {
        None
    }
}

/// The payload length that a header line declares, if it declares one that
/// fits the machine.
pub open spec fn content_len_of(header: Seq<char>) -> Option<usize> {
    match second_token(trim_end(header)) {
        Some(token) => match parse_unsigned(token) {
            Some(n) => if n <= usize::MAX {
                Some(n as usize)
            } else {
                None
            },
            None => None,
        },
        None => None,
    }
}

/// The decimal digits of `n`, without leading zeros.
pub open spec fn decimal_digits(n: nat) -> Seq<u8>
    decreases n,
{
    if n < 10 {
        seq![(48 + n) as u8]
    } else {
        decimal_digits(n / 10).push((48 + n % 10) as u8)
    }
}

/// The bytes that announce a payload of `len` bytes: the header line and
/// the empty line after it.
pub open spec fn header_bytes(len: nat) -> Seq<u8> {
    "Content-Length: ".spec_bytes() + decimal_digits(len) + "\r\n\r\n".spec_bytes()
}

/// The digits `digits` as text.
pub open spec fn digit_chars(digits: Seq<u8>) -> Seq<char> {
    Seq::new(digits.len(), |i: int| digits[i] as char)
}

/// The header line that declares a payload of `len` bytes.
pub open spec fn header_line(len: nat) -> Seq<char> {
    "Content-Length: "@ + digit_chars(decimal_digits(len)) + "\r\n"@
}

fn ascii_space(c: char) -> (r: bool)
    ensures
        r == is_ascii_space(c),
{
    c == ' ' || c == '\t' || c == '\n' || c == '\x0C' || c == '\r'
}

fn space(c: char) -> (r: bool)
    ensures
        r == is_space(c),
{
    ('\u{9}' <= c && c <= '\u{D}') || c == ' ' || c == '\u{85}' || c == '\u{A0}' || c
        == '\u{1680}' || ('\u{2000}' <= c && c <= '\u{200A}') || c == '\u{2028}' || c
        == '\u{2029}' || c == '\u{202F}' || c == '\u{205F}' || c == '\u{3000}'
}

fn chars_of(s: &str) -> (v: Vec<char>)
    ensures
        v@ == s@,
{
    let mut v: Vec<char> = Vec::new();
    for c in it: s.chars()
        invariant
            v@ == it.seq().take(it.index() as int),
            it.seq() == s@,
    {
        v.push(c);
    }
    v
}

fn trimmed_len(v: &Vec<char>) -> (end: usize)
    ensures
        end <= v.len(),
        v@.take(end as int) == trim_end(v@),
{
    let mut end: usize = v.len();
    assert(v@.take(end as int) == v@);
    while end > 0 && space(v[end - 1])
        invariant
            end <= v.len(),
            trim_end(v@.take(end as int)) == trim_end(v@),
        decreases end,
    {
        assert(v@.take(end as int).drop_last() == v@.take(end - 1));
        end -= 1;
    }
    end
}

fn spaces_end(v: &Vec<char>, end: usize, from: usize) -> (r: usize)
    requires
        from <= end <= v.len(),
    ensures
        from <= r <= end,
        r == skip_spaces(v@.take(end as int), from as int),
{
    let mut i: usize = from;
    while i < end && ascii_space(v[i])
        invariant
            from <= i <= end <= v.len(),
            skip_spaces(v@.take(end as int), i as int) == skip_spaces(
                v@.take(end as int),
                from as int,
            ),
        decreases end - i,
    {
        i += 1;
    }
    i
}

fn token_end(v: &Vec<char>, end: usize, from: usize) -> (r: usize)
    requires
        from <= end <= v.len(),
    ensures
        from <= r <= end,
        r == skip_token(v@.take(end as int), from as int),
{
    let mut i: usize = from;
    while i < end && !ascii_space(v[i])
        invariant
            from <= i <= end <= v.len(),
            skip_token(v@.take(end as int), i as int) == skip_token(
                v@.take(end as int),
                from as int,
            ),
        decreases end - i,
    {
        i += 1;
    }
    i
}

proof fn lemma_decimal_value_prefix(s: Seq<char>, k: int)
    requires
        0 <= k <= s.len(),
    ensures
        decimal_value(s.take(k)) <= decimal_value(s),
    decreases s.len(),
{
    if k == s.len() {
        assert(s.take(k) == s);
    } else {
        assert(s.drop_last().take(k) == s.take(k));
        lemma_decimal_value_prefix(s.drop_last(), k);
    }
}

/// The value of the digits `v[from..to]`, or `None` where they are no
/// number that fits.
fn parse_digits(v: &Vec<char>, from: usize, to: usize) -> (r: Option<usize>)
    requires
        from <= to <= v.len(),
    ensures
        r == (if from < to && all_digits(v@.subrange(from as int, to as int))
            && decimal_value(v@.subrange(from as int, to as int)) <= usize::MAX {
            Some(decimal_value(v@.subrange(from as int, to as int)) as usize)
        } else {
            None
        }),
{
    let ghost digits = v@.subrange(from as int, to as int);
    if from == to {
        return None;
    }
    let mut acc: usize = 0;
    let mut i: usize = from;
    assert(digits.take(0) == Seq::<char>::empty());
    while i < to
        invariant
            from <= i <= to <= v.len(),
            digits == v@.subrange(from as int, to as int),
            all_digits(digits.take(i - from)),
            acc == decimal_value(digits.take(i - from)),
        decreases to - i,
    {
        let c = v[i];
        assert(c == digits[i - from]);
        if !('0' <= c && c <= '9') {
            return None;
        }
        let d: usize = (c as u32 - '0' as u32) as usize;
        assert(digits.take(i - from + 1).drop_last() == digits.take(i - from));
        proof {
            lemma_decimal_value_prefix(digits, i - from + 1);
        }
        let tens = match acc.checked_mul(10) {
            Some(t) => t,
            None => {
                return None;
            },
        };
        acc = match tens.checked_add(d) {
            Some(t) => t,
            None => {
                return None;
            },
        };
        i += 1;
    }
    assert(digits.take(to - from) == digits);
    Some(acc)
}

proof fn lemma_skip_spaces_bounds(s: Seq<char>, i: int)
    requires
        0 <= i <= s.len(),
    ensures
        i <= skip_spaces(s, i) <= s.len(),
        skip_spaces(s, i) < s.len() ==> !is_ascii_space(s[skip_spaces(s, i)]),
    decreases s.len() - i,
{
    if i < s.len() && is_ascii_space(s[i]) {
        lemma_skip_spaces_bounds(s, i + 1);
    }
}

proof fn lemma_skip_token_bounds(s: Seq<char>, i: int)
    requires
        0 <= i <= s.len(),
    ensures
        i <= skip_token(s, i) <= s.len(),
        skip_token(s, i) < s.len() ==> is_ascii_space(s[skip_token(s, i)]),
        forall|j: int| i <= j < skip_token(s, i) ==> !is_ascii_space(#[trigger] s[j]),
    decreases s.len() - i,
{
    if i < s.len() && !is_ascii_space(s[i]) {
        lemma_skip_token_bounds(s, i + 1);
    }
}

/// The payload length that the header line `header` declares.
///
/// The line is trimmed at its end and split at ASCII white space; its
/// second token is read as a decimal number. The result is `None` where
/// there is no second token or it is no number that fits in `usize`.
pub fn get_content_len(header: &str) -> (r: Option<usize>)
    ensures
        r == content_len_of(header@),
{
    let v = chars_of(header);
    let end = trimmed_len(&v);
    let ghost t = v@.take(end as int);
    let first = spaces_end(&v, end, 0);
    let first_end = token_end(&v, end, first);
    let start = spaces_end(&v, end, first_end);
    let stop = token_end(&v, end, start);
    if start >= end {
        return None;
    }
    proof {
        lemma_skip_spaces_bounds(t, first_end as int);
        lemma_skip_token_bounds(t, start as int + 1);
    }
    assert(t.subrange(start as int, stop as int) == v@.subrange(start as int, stop as int));
    let ghost token = t.subrange(start as int, stop as int);
    if v[start] == '+' {
        assert(token.drop_first() == v@.subrange(start + 1, stop as int));
        parse_digits(&v, start + 1, stop)
    } else {
        parse_digits(&v, start, stop)
    }
}

proof fn lemma_skip_spaces_to(s: Seq<char>, i: int, k: int)
    requires
        0 <= i <= k <= s.len(),
        forall|j: int| i <= j < k ==> is_ascii_space(#[trigger] s[j]),
        k == s.len() || !is_ascii_space(s[k]),
    ensures
        skip_spaces(s, i) == k,
    decreases k - i,
{
    if i < k {
        lemma_skip_spaces_to(s, i + 1, k);
    }
}

proof fn lemma_skip_token_to(s: Seq<char>, i: int, k: int)
    requires
        0 <= i <= k <= s.len(),
        forall|j: int| i <= j < k ==> !is_ascii_space(#[trigger] s[j]),
        k == s.len() || is_ascii_space(s[k]),
    ensures
        skip_token(s, i) == k,
    decreases k - i,
{
    if i < k {
        lemma_skip_token_to(s, i + 1, k);
    }
}

/// The decimal digits of a number are digits, and denote that number.
pub proof fn lemma_decimal_digits(n: nat)
    ensures
        decimal_digits(n).len() >= 1,
        forall|i: int|
            0 <= i < decimal_digits(n).len() ==> 48 <= #[trigger] decimal_digits(n)[i] <= 57,
        all_digits(digit_chars(decimal_digits(n))),
        decimal_value(digit_chars(decimal_digits(n))) == n,
    decreases n,
{
    let d = decimal_digits(n);
    let c = digit_chars(d);
    if n < 10 {
        assert(c.drop_last() == Seq::<char>::empty());
        assert(decimal_value(c.drop_last()) == 0);
        assert(digit_value(c.last()) == n);
    } else {
        lemma_decimal_digits(n / 10);
        let d0 = decimal_digits(n / 10);
        assert(d == d0.push((48 + n % 10) as u8));
        assert(c.drop_last() == digit_chars(d0));
        assert(digit_value(c.last()) == n % 10);
        assert forall|i: int| 0 <= i < c.len() implies is_digit(#[trigger] c[i]) by {
            if i < d0.len() {
                assert(c[i] == digit_chars(d0)[i]);
            }
        }
    }
}

/// A header line that is written for a length declares that length.
pub proof fn lemma_header_line_declares(len: nat)
    requires
        len <= usize::MAX,
    ensures
        content_len_of(header_line(len)) == Some(len as usize),
{
    reveal_strlit("Content-Length: ");
    reveal_strlit("\r\n");
    lemma_decimal_digits(len);
    let digits = digit_chars(decimal_digits(len));
    let name = "Content-Length: "@;
    let line = header_line(len);
    let t = name + digits;
    assert(line.last() == '\n');
    assert(line.drop_last() == t.push('\r'));
    assert(line.drop_last().drop_last() == t);
    assert(is_digit(digits[digits.len() - 1]));
    assert(t.last() == digits[digits.len() - 1]);
    assert(trim_end(t) == t);
    assert(trim_end(line.drop_last()) == t);
    assert(trim_end(line) == t);
    assert forall|j: int| 0 <= j < 15 implies !is_ascii_space(#[trigger] t[j]) by {
        assert(t[j] == name[j]);
    }
    assert(t[15] == ' ');
    lemma_skip_spaces_to(t, 0, 0);
    lemma_skip_token_to(t, 0, 15);
    assert forall|j: int| 16 <= j < t.len() implies !is_ascii_space(#[trigger] t[j]) by {
        assert(t[j] == digits[j - 16]);
        assert(is_digit(digits[j - 16]));
    }
    lemma_skip_spaces_to(t, 15, 16);
    lemma_skip_token_to(t, 16, t.len() as int);
    assert(t.subrange(16, t.len() as int) == digits);
    assert(is_digit(digits[0]));
}

/// Appends the decimal digits of `n` to `out`.
fn push_decimal(out: &mut Vec<u8>, n: usize)
    ensures
        final(out)@ == old(out)@ + decimal_digits(n as nat),
    decreases n,
{
    if n >= 10 {
        push_decimal(out, n / 10);
    }
    let digit: u8 = (48 + n % 10) as u8;
    out.push(digit);
}

/// The header of a frame whose payload has `len` bytes.
pub fn encode_header(len: usize) -> (out: Vec<u8>)
    ensures
        out@ == header_bytes(len as nat),
{
    let mut out: Vec<u8> = Vec::new();
    out.extend_from_slice("Content-Length: ".as_bytes());
    push_decimal(&mut out, len);
    out.extend_from_slice("\r\n\r\n".as_bytes());
    out
}

} // verus!
