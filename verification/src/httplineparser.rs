//! Recognisers for the lines of an HTTP/1.x head: request lines, status
//! lines, header lines, the empty line that ends a head, and the value of a
//! `Content-Length` header. Each states, as a spec function over the line's
//! characters, the pattern it accepts.

use vstd::prelude::*;
use crate::charclass::{
    chars_of, char_is_ascii_alnum, char_is_token, char_is_ws, char_is_word_or_ws, is_ascii_alnum,
    is_token_char, is_ws, is_digit_class, char_is_digit, is_word_class, is_ascii_digit, digit_value,
};

verus! {

/// Namespace of the line recognisers.
pub struct HttpLineParsers {}

// ---------------------------------------------------------------------------
// Header lines: ^([!#$%&'*+-.^_`|0-9A-Za-z]+):([^\r\n]*)\r?\n$
// ---------------------------------------------------------------------------

/// `c` is a carriage return or a line feed.
pub open spec fn is_cr_or_lf(c: char) -> bool {
    c == '\r' || c == '\n'
}

/// From index `j` on, `s` is `[^\r\n]*\r?\n` and nothing more.
pub open spec fn is_line_rest(s: Seq<char>, j: int) -> bool {
    let n = s.len() as int;
    &&& 0 <= j < n
    &&& s[n - 1] == '\n'
    &&& {
        ||| forall|i: int| j <= i < n - 1 ==> !is_cr_or_lf(#[trigger] s[i])
        ||| (j <= n - 2 && s[n - 2] == '\r' && forall|i: int|
            j <= i < n - 2 ==> !is_cr_or_lf(#[trigger] s[i]))
    }
}

/// `s` is a header name `s[0..k]`, a colon at `k`, and a value up to the
/// line end.
pub open spec fn header_line_at(s: Seq<char>, k: int) -> bool {
    &&& 0 < k < s.len()
    &&& s[k] == ':'
    &&& forall|i: int| 0 <= i < k ==> is_token_char(#[trigger] s[i])
    &&& is_line_rest(s, k + 1)
}

/// `s` is a header line: `^([!#$%&'*+-.^_`|0-9A-Za-z]+):([^\r\n]*)\r?\n$`.
pub open spec fn is_header_line(s: Seq<char>) -> bool {
    exists|k: int| header_line_at(s, k)
}

/// `s` ends a head: `^\r?\n$`.
pub open spec fn is_end_of_headers(s: Seq<char>) -> bool {
    s =~= seq!['\n'] || s =~= seq!['\r', '\n']
}

/// Index of the first character at or after `lo` (and before `hi`) that is
/// not a header-name character, or `hi`.
fn skip_token_chars(v: &Vec<char>, lo: usize, hi: usize) -> (k: usize)
    requires
        lo <= hi <= v.len(),
    ensures
        lo <= k <= hi,
        forall|i: int| lo <= i < k ==> is_token_char(#[trigger] v@[i]),
        k < hi ==> !is_token_char(v@[k as int]),
{
    let mut k = lo;
    while k < hi && char_is_token(v[k])
        invariant
            lo <= k <= hi <= v.len(),
            forall|i: int| lo <= i < k ==> is_token_char(#[trigger] v@[i]),
        decreases hi - k,
    {
        k = k + 1;
    }
    k
}

/// Whether no character of `v[lo..hi]` is a carriage return or line feed.
fn no_cr_or_lf(v: &Vec<char>, lo: usize, hi: usize) -> (b: bool)
    requires
        lo <= hi <= v.len(),
    ensures
        b == forall|i: int| lo <= i < hi ==> !is_cr_or_lf(#[trigger] v@[i]),
{
    let mut i = lo;
    while i < hi
        invariant
            lo <= i <= hi <= v.len(),
            forall|j: int| lo <= j < i ==> !is_cr_or_lf(#[trigger] v@[j]),
        decreases hi - i,
    {
        if v[i] == '\r' || v[i] == '\n' {
            return false;
        }
        i = i + 1;
    }
    true
}

/// Whether `v[j..]` is `[^\r\n]*\r?\n`.
fn line_rest(v: &Vec<char>, j: usize) -> (b: bool)
    requires
        j <= v.len(),
    ensures
        b == is_line_rest(v@, j as int),
{
    let n = v.len();
    if j >= n || v[n - 1] != '\n' {
        return false;
    }
    if n - j >= 2 && v[n - 2] == '\r' {
        // The character before the final line feed is a carriage return, so
        // it can only be the optional `\r`.
        no_cr_or_lf(v, j, n - 2)
    } else {
        no_cr_or_lf(v, j, n - 1)
    }
}


// ---------------------------------------------------------------------------
// Request lines: ^([a-zA-Z0-9]*)\s+([^\s]*)\s+HTTP/\d.\d\r?\n$
// ---------------------------------------------------------------------------

/// From index `d` on, `s` is `HTTP/\d.\d\r?\n` and nothing more.
pub open spec fn is_version_tail(s: Seq<char>, d: int) -> bool {
    let n = s.len() as int;
    &&& 0 <= d
    &&& (n - d == 9 || n - d == 10)
    &&& s[d] == 'H' && s[d + 1] == 'T' && s[d + 2] == 'T' && s[d + 3] == 'P' && s[d + 4] == '/'
    &&& is_digit_class(s[d + 5])
    &&& s[d + 6] != '\n'
    &&& is_digit_class(s[d + 7])
    &&& if n - d == 9 {
        s[d + 8] == '\n'
    } else {
        s[d + 8] == '\r' && s[d + 9] == '\n'
    }
}

/// `s[0..d]` is a method `s[0..a]`, white space `s[a..b]`, a target
/// `s[b..c]` and white space `s[c..d]`: `([a-zA-Z0-9]*)\s+([^\s]*)\s+`.
pub open spec fn request_head_at(s: Seq<char>, a: int, b: int, c: int, d: int) -> bool {
    &&& 0 <= a < b <= c < d <= s.len()
    &&& forall|i: int| 0 <= i < a ==> is_ascii_alnum(#[trigger] s[i])
    &&& forall|i: int| a <= i < b ==> is_ws(#[trigger] s[i])
    &&& forall|i: int| b <= i < c ==> !is_ws(#[trigger] s[i])
    &&& forall|i: int| c <= i < d ==> is_ws(#[trigger] s[i])
}

/// `s` is a request line whose version starts at `d`.
pub open spec fn request_line_at(s: Seq<char>, d: int) -> bool {
    &&& exists|a: int, b: int, c: int| request_head_at(s, a, b, c, d)
    &&& is_version_tail(s, d)
}

/// `s` is a request line: `^([a-zA-Z0-9]*)\s+([^\s]*)\s+HTTP/\d.\d\r?\n$`.
pub open spec fn is_request_line(s: Seq<char>) -> bool {
    exists|d: int| request_line_at(s, d)
}

/// Index of the first character in `v[lo..hi]` that is not an ASCII letter
/// or digit, or `hi`.
fn skip_alnum(v: &Vec<char>, lo: usize, hi: usize) -> (k: usize)
    requires
        lo <= hi <= v.len(),
    ensures
        lo <= k <= hi,
        forall|i: int| lo <= i < k ==> is_ascii_alnum(#[trigger] v@[i]),
        k < hi ==> !is_ascii_alnum(v@[k as int]),
{
    let mut k = lo;
    while k < hi && char_is_ascii_alnum(v[k])
        invariant
            lo <= k <= hi <= v.len(),
            forall|i: int| lo <= i < k ==> is_ascii_alnum(#[trigger] v@[i]),
        decreases hi - k,
    {
        k = k + 1;
    }
    k
}

/// Index of the first character in `v[lo..hi]` whose white-space-ness is
/// not `ws`, or `hi`.
fn skip_ws_is(v: &Vec<char>, lo: usize, hi: usize, ws: bool) -> (k: usize)
    requires
        lo <= hi <= v.len(),
    ensures
        lo <= k <= hi,
        forall|i: int| lo <= i < k ==> is_ws(#[trigger] v@[i]) == ws,
        k < hi ==> is_ws(v@[k as int]) != ws,
{
    let mut k = lo;
    while k < hi && char_is_ws(v[k]) == ws
        invariant
            lo <= k <= hi <= v.len(),
            forall|i: int| lo <= i < k ==> is_ws(#[trigger] v@[i]) == ws,
        decreases hi - k,
    {
        k = k + 1;
    }
    k
}

/// Whether `v[0..d]` is `([a-zA-Z0-9]*)\s+([^\s]*)\s+`.
fn request_head(v: &Vec<char>, d: usize) -> (r: bool)
    requires
        d <= v.len(),
    ensures
        r == exists|a: int, b: int, c: int| request_head_at(v@, a, b, c, d as int),
{
    let s = Ghost(v@);
    let a = skip_alnum(v, 0, d);
    if a == d || !char_is_ws(v[a]) {
        proof {
            assert forall|a2: int, b2: int, c2: int| !request_head_at(s@, a2, b2, c2, d as int) by {
                if request_head_at(s@, a2, b2, c2, d as int) {
                    // White space is not alphanumeric, so the method ends
                    // where the first non-alphanumeric character stands.
                    if a2 < a {
                        assert(is_ws(s@[a2]));
                        assert(is_ascii_alnum(s@[a2]));
                    } else if a2 > a {
                        assert(is_ascii_alnum(s@[a as int]));
                    }
                }
            }
        }
        return false;
    }
    let b = skip_ws_is(v, a, d, true);
    if b == d {
        // Only white space follows the method: the target is empty and the
        // white space splits in two runs if it is at least two long.
        let r = d - a >= 2;
        proof {
            if r {
                assert(request_head_at(s@, a as int, a + 1, a + 1, d as int));
            } else {
                assert forall|a2: int, b2: int, c2: int|
                    !request_head_at(s@, a2, b2, c2, d as int) by {
                    if request_head_at(s@, a2, b2, c2, d as int) {
                        if a2 < a {
                            assert(is_ws(s@[a2]));
                            assert(is_ascii_alnum(s@[a2]));
                        } else if a2 > a {
                            assert(is_ascii_alnum(s@[a as int]));
                        }
                    }
                }
            }
        }
        return r;
    }
    let c = skip_ws_is(v, b, d, false);
    let e = skip_ws_is(v, c, d, true);
    let r = c < d && e == d;
    proof {
        if r {
            assert(request_head_at(s@, a as int, b as int, c as int, d as int));
        } else {
            assert forall|a2: int, b2: int, c2: int| !request_head_at(s@, a2, b2, c2, d as int) by {
                if request_head_at(s@, a2, b2, c2, d as int) {
                    if a2 < a {
                        assert(is_ws(s@[a2]));
                        assert(is_ascii_alnum(s@[a2]));
                    } else if a2 > a {
                        assert(is_ascii_alnum(s@[a as int]));
                    }
                    assert(a2 == a);
                    // `s[b]` is not white space, so it lies in the target.
                    assert(!is_ws(s@[b as int]));
                    assert(b2 <= b < c2);
                    if b2 < b {
                        assert(is_ws(s@[b2]));
                    }
                    assert(b2 == b);
                    if c2 < c {
                        assert(!is_ws(s@[c2]));
                    } else if c2 > c {
                        assert(is_ws(s@[c as int]));
                    }
                    assert(c2 == c);
                    assert(is_ws(s@[e as int]));
                }
            }
        }
    }
    r
}

/// Whether `v[d..]` is `HTTP/\d.\d\r?\n`.
fn version_tail(v: &Vec<char>, d: usize) -> (r: bool)
    requires
        d <= v.len(),
    ensures
        r == is_version_tail(v@, d as int),
{
    let n = v.len();
    let len = n - d;
    if len != 9 && len != 10 {
        return false;
    }
    if !(v[d] == 'H' && v[d + 1] == 'T' && v[d + 2] == 'T' && v[d + 3] == 'P' && v[d + 4] == '/') {
        return false;
    }
    if v[d + 6] == '\n' {
        return false;
    }
    let ends = if len == 9 {
        v[d + 8] == '\n'
    } else {
        v[d + 8] == '\r' && v[d + 9] == '\n'
    };
    ends && char_is_digit(v[d + 5]) && char_is_digit(v[d + 7])
}

/// Whether `v` is a request line with its version at `d`.
fn request_line_from(v: &Vec<char>, d: usize) -> (r: bool)
    requires
        d <= v.len(),
    ensures
        r == request_line_at(v@, d as int),
{
    version_tail(v, d) && request_head(v, d)
}

// ---------------------------------------------------------------------------
// Status lines: ^HTTP/\d.\d\s+\d{3}\s+([\w\s]+)\r?\n$
// ---------------------------------------------------------------------------

/// After a status code at `e..e + 3`, `s` has white space `s[e + 3..f]`, a
/// reason phrase `s[f..g]` and `\r?\n`: `\s+([\w\s]+)\r?\n$`.
pub open spec fn status_tail_at(s: Seq<char>, e: int, f: int, g: int) -> bool {
    let n = s.len() as int;
    &&& e + 3 < f && f < g
    &&& (g == n - 1 || (g == n - 2 && s[n - 2] == '\r'))
    &&& forall|i: int| e + 3 <= i < f ==> is_ws(#[trigger] s[i])
    &&& forall|i: int| f <= i < g ==> is_word_class(#[trigger] s[i]) || is_ws(s[i])
}

/// `s` is a status line with the status code at `e..e + 3`, the reason
/// phrase at `f..g`, and `\r?\n` after it.
pub open spec fn status_line_at(s: Seq<char>, e: int, f: int, g: int) -> bool {
    let n = s.len() as int;
    &&& 8 < e
    &&& s[n - 1] == '\n'
    &&& s[0] == 'H' && s[1] == 'T' && s[2] == 'T' && s[3] == 'P' && s[4] == '/'
    &&& is_digit_class(s[5])
    &&& s[6] != '\n'
    &&& is_digit_class(s[7])
    &&& forall|i: int| 8 <= i < e ==> is_ws(#[trigger] s[i])
    &&& is_digit_class(s[e]) && is_digit_class(s[e + 1]) && is_digit_class(s[e + 2])
    &&& status_tail_at(s, e, f, g)
}

/// `s` is a status line: `^HTTP/\d.\d\s+\d{3}\s+([\w\s]+)\r?\n$`.
pub open spec fn is_status_line(s: Seq<char>) -> bool {
    exists|e: int, f: int, g: int| status_line_at(s, e, f, g)
}

/// Whether every character of `v[lo..hi]` is in `[\w\s]`.
fn all_word_or_ws(v: &Vec<char>, lo: usize, hi: usize) -> (b: bool)
    requires
        lo <= hi <= v.len(),
    ensures
        b == forall|i: int| lo <= i < hi ==> is_word_class(#[trigger] v@[i]) || is_ws(v@[i]),
{
    let mut i = lo;
    while i < hi
        invariant
            lo <= i <= hi <= v.len(),
            forall|j: int| lo <= j < i ==> is_word_class(#[trigger] v@[j]) || is_ws(v@[j]),
        decreases hi - i,
    {
        if !char_is_word_or_ws(v[i]) {
            return false;
        }
        i = i + 1;
    }
    true
}

/// Whether, with the status code at `e..e + 3`, the rest of `v` (which ends
/// in a line feed) is `\s+([\w\s]+)\r?\n`.
fn status_rest(v: &Vec<char>, e: usize) -> (r: bool)
    requires
        8 < e,
        e + 3 <= v.len(),
        v@[v.len() - 1] == '\n',
    ensures
        r == (is_digit_class(v@[e as int]) && is_digit_class(v@[e + 1]) && is_digit_class(v@[e + 2])
            && exists|f: int, g: int| status_tail_at(v@, e as int, f, g)),
{
    let n = v.len();
    let j = e + 3;
    let shape = j < n && n - 1 - j >= 2 && char_is_ws(v[j]);
    let r = shape && char_is_digit(v[e]) && char_is_digit(v[e + 1]) && char_is_digit(v[e + 2])
        && all_word_or_ws(v, j, n - 1);
    proof {
        let s = v@;
        if r {
            assert(s[j as int] == s[j as int]);
            let f = j + 1;
            let g = n - 1;
            assert forall|i: int| f <= i < g implies is_word_class(#[trigger] s[i]) || is_ws(s[i]) by {}
            assert(status_tail_at(s, e as int, f as int, g as int));
        } else {
            assert forall|f: int, g: int|
                !status_tail_at(s, e as int, f, g) || !(is_digit_class(s[e as int]) && is_digit_class(
                    s[e + 1],
                ) && is_digit_class(s[e + 2])) by {
                if status_tail_at(s, e as int, f, g) {
                    assert(is_ws(s[j as int]));
                    assert forall|i: int| j <= i < n - 1 implies is_word_class(#[trigger] s[i]) || is_ws(
                        s[i],
                    ) by {
                        if i < f {
                            assert(is_ws(s[i]));
                        } else if i < g {
                        } else {
                            assert(s[i] == '\r');
                        }
                    }
                }
            }
        }
    }
    r
}

// ---------------------------------------------------------------------------
// Content-Length: ^(?i)content-length:\s*(\d+)\s*\r?\n$ and the number
// ---------------------------------------------------------------------------

/// The header name `content-length:` in lower case.
pub open spec fn content_length_name() -> Seq<char> {
    seq!['c', 'o', 'n', 't', 'e', 'n', 't', '-', 'l', 'e', 'n', 'g', 't', 'h', ':']
}

/// `c` matches the lower-case pattern character `p` ignoring case. For the
/// characters of `content-length:` Unicode simple case folding relates each
/// letter to its ASCII capital only, so ASCII case is all there is.
pub open spec fn matches_ignoring_case(c: char, p: char) -> bool {
    (c as u32) == (p as u32) || (0x61 <= (p as u32) <= 0x7a && (c as u32) + 32 == (p as u32))
}

/// The value of a sequence of ASCII decimal digits.
pub open spec fn decimal_value(d: Seq<char>) -> nat
    decreases d.len(),
{
    if d.len() == 0 {
        0
    } else {
        decimal_value(d.drop_last()) * 10 + digit_value(d.last())
    }
}

/// `s` is `content-length:` in any case, white space `s[15..a]`, ASCII
/// digits `s[a..b]`, and white space `s[b..]` that ends with a line feed.
pub open spec fn content_length_at(s: Seq<char>, a: int, b: int) -> bool {
    let n = s.len() as int;
    &&& 15 <= a < b < n
    &&& forall|i: int| 0 <= i < 15 ==> matches_ignoring_case(#[trigger] s[i], content_length_name()[i])
    &&& forall|i: int| 15 <= i < a ==> is_ws(#[trigger] s[i])
    &&& forall|i: int| a <= i < b ==> is_ascii_digit(#[trigger] s[i])
    &&& forall|i: int| b <= i < n ==> is_ws(#[trigger] s[i])
    &&& s[n - 1] == '\n'
}

/// The length that a `Content-Length` header line states: the line must be
/// `content-length:` (in any case), optional white space, decimal digits,
/// optional white space and a line end; the digits must be ASCII (other
/// Unicode digits match `\d` but do not parse as a `usize`) and their value
/// must fit in a `usize`.
pub open spec fn content_length_of(s: Seq<char>) -> Option<usize> {
    if exists|a: int, b: int| content_length_at(s, a, b) {
        let (a, b) = choose|a: int, b: int| content_length_at(s, a, b);
        let v = decimal_value(s.subrange(a, b));
        if v <= usize::MAX {
            Some(v as usize)
        } else {
            None
        }
    } else {
        None
    }
}

/// A `Content-Length` line splits in one way only.
pub proof fn lemma_content_length_split_unique(s: Seq<char>, a: int, b: int, a2: int, b2: int)
    requires
        content_length_at(s, a, b),
        content_length_at(s, a2, b2),
    ensures
        a == a2 && b == b2,
{
    if a < a2 {
        assert(is_ws(s[a]));
    } else if a2 < a {
        assert(is_ws(s[a2]));
    }
    if b < b2 {
        assert(is_ws(s[b]));
    } else if b2 < b {
        assert(is_ws(s[b2]));
    }
}

/// One more digit multiplies the value by ten and adds the digit.
proof fn lemma_decimal_step(s: Seq<char>, a: int, i: int)
    requires
        0 <= a <= i < s.len(),
    ensures
        decimal_value(s.subrange(a, i + 1)) == decimal_value(s.subrange(a, i)) * 10 + digit_value(s[i]),
{
    assert(s.subrange(a, i + 1).drop_last() =~= s.subrange(a, i));
}

/// A longer run of digits has at least the value of its prefix.
proof fn lemma_decimal_monotone(s: Seq<char>, a: int, i: int, j: int)
    requires
        0 <= a <= i <= j <= s.len(),
    ensures
        decimal_value(s.subrange(a, i)) <= decimal_value(s.subrange(a, j)),
    decreases j - i,
{
    if i < j {
        lemma_decimal_monotone(s, a, i, j - 1);
        lemma_decimal_step(s, a, j - 1);
    }
}

/// The lower-case character of `content-length:` at index `i`.
fn content_length_name_char(i: usize) -> (c: char)
    requires
        i < 15,
    ensures
        c == content_length_name()[i as int],
{
    match i {
        0 => 'c',
        1 => 'o',
        2 => 'n',
        3 => 't',
        4 => 'e',
        5 => 'n',
        6 => 't',
        7 => '-',
        8 => 'l',
        9 => 'e',
        10 => 'n',
        11 => 'g',
        12 => 't',
        13 => 'h',
        _ => ':',
    }
}

/// Index of the first character in `v[lo..hi]` that is not an ASCII digit,
/// or `hi`.
fn skip_ascii_digits(v: &Vec<char>, lo: usize, hi: usize) -> (k: usize)
    requires
        lo <= hi <= v.len(),
    ensures
        lo <= k <= hi,
        forall|i: int| lo <= i < k ==> is_ascii_digit(#[trigger] v@[i]),
        k < hi ==> !is_ascii_digit(v@[k as int]),
{
    let mut k = lo;
    while k < hi && (0x30 <= v[k] as u32 && v[k] as u32 <= 0x39)
        invariant
            lo <= k <= hi <= v.len(),
            forall|i: int| lo <= i < k ==> is_ascii_digit(#[trigger] v@[i]),
        decreases hi - k,
    {
        k = k + 1;
    }
    k
}

impl HttpLineParsers {

    /// The length that a `Content-Length` header line states, as
    /// `content_length_of` describes; `None` for any other line, and for a
    /// length that does not fit in a `usize`.
    pub fn extract_content_length(text: &str) -> (r: Option<usize>)
        ensures
            r == content_length_of(text@),
    {
        let v = chars_of(text);
        let n = v.len();
        let s = Ghost(v@);
        if n < 15 {
            return None;
        }
        let mut i: usize = 0;
        while i < 15
            invariant
                0 <= i <= 15 <= n,
                n == v.len(),
                s@ == v@,
                v@ == text@,
                forall|j: int| 0 <= j < i ==> matches_ignoring_case(#[trigger] s@[j], content_length_name()[j]),
            decreases 15 - i,
        {
            let p = content_length_name_char(i) as u32;
            let u = v[i] as u32;
            if !(u == p || (0x61 <= p && p <= 0x7a && p >= 32 && u == p - 32)) {
                proof {
                    assert forall|a: int, b: int| !content_length_at(s@, a, b) by {
                        if content_length_at(s@, a, b) {
                            assert(matches_ignoring_case(s@[i as int], content_length_name()[i as int]));
                        }
                    }
                }
                return None;
            }
            i = i + 1;
        }
        let a = skip_ws_is(&v, 15, n, true);
        let b = skip_ascii_digits(&v, a, n);
        let e = skip_ws_is(&v, b, n, true);
        if !(a < b && b < n && e == n && v[n - 1] == '\n') {
            proof {
                assert forall|a2: int, b2: int| !content_length_at(s@, a2, b2) by {
                    if content_length_at(s@, a2, b2) {
                        if a2 < a {
                            assert(is_ws(s@[a2]));
                        } else if a2 > a {
                            assert(is_ws(s@[a as int]));
                        }
                        if b2 < b {
                            assert(is_ascii_digit(s@[b2]));
                        } else if b2 > b {
                            assert(is_ascii_digit(s@[b as int]));
                        }
                        if e < n {
                            assert(is_ws(s@[e as int]));
                        }
                    }
                }
            }
            return None;
        }
        proof {
            assert(content_length_at(s@, a as int, b as int));
            assert forall|a2: int, b2: int| content_length_at(s@, a2, b2) implies a2 == a as int
                && b2 == b as int by {
                lemma_content_length_split_unique(s@, a as int, b as int, a2, b2);
            }
        }
        let mut val: usize = 0;
        let mut k = a;
        while k < b
            invariant
                a <= k <= b < n,
                n == v.len(),
                s@ == v@,
                forall|j: int| a <= j < b ==> is_ascii_digit(#[trigger] s@[j]),
                val == decimal_value(s@.subrange(a as int, k as int)),
                content_length_at(s@, a as int, b as int),
                v@ == text@,
                forall|a2: int, b2: int|
                    content_length_at(s@, a2, b2) ==> a2 == a as int && b2 == b as int,
            decreases b - k,
        {
            proof {
                lemma_decimal_step(s@, a as int, k as int);
            }
            let d = (v[k] as u32 - 0x30) as usize;
            let next = match val.checked_mul(10) {
                Some(m) => m.checked_add(d),
                None => None,
            };
            match next {
                Some(x) => {
                    val = x;
                },
                None => {
                    proof {
                        lemma_decimal_monotone(s@, a as int, k + 1, b as int);
                    }
                    return None;
                },
            }
            k = k + 1;
        }
        Some(val)
    }

    /// Whether `text` is a status line: `HTTP/`, a digit, any character but
    /// a line feed, a digit, white space, a three-digit code, white space, a
    /// reason phrase of word characters and white space, and `\r\n` or `\n`.
    pub fn verify_status_line(text: &str) -> (b: bool)
        ensures
            b == is_status_line(text@),
    {
        let v = chars_of(text);
        let n = v.len();
        let s = Ghost(v@);
        if n < 9 || v[n - 1] != '\n' || !(v[0] == 'H' && v[1] == 'T' && v[2] == 'T' && v[3] == 'P'
            && v[4] == '/') || v[6] == '\n' || !char_is_digit(v[5]) || !char_is_digit(v[7]) {
            proof {
                assert forall|e: int, f: int, g: int| !status_line_at(s@, e, f, g) by {
                    if status_line_at(s@, e, f, g) {
                        assert(n >= 9);
                    }
                }
            }
            return false;
        }
        // The white space after the version ends at `w`; the status code
        // starts at some `e` in `9..=w`, where the characters before `w` are
        // white space and so are not digits.
        let w = skip_ws_is(&v, 8, n - 1, true);
        let mut e: usize = 9;
        while e <= w
            invariant
                9 <= e <= w + 1,
                8 <= w <= n - 1,
                n == v.len(),
                s@ == v@,
                v@ == text@,
                s@[n - 1] == '\n',
                s@[0] == 'H' && s@[1] == 'T' && s@[2] == 'T' && s@[3] == 'P' && s@[4] == '/',
                is_digit_class(s@[5]) && s@[6] != '\n' && is_digit_class(s@[7]),
                forall|i: int| 8 <= i < w ==> is_ws(#[trigger] s@[i]),
                w < n - 1 ==> !is_ws(s@[w as int]),
                forall|e2: int, f: int, g: int| 9 <= e2 < e ==> !status_line_at(s@, e2, f, g),
            decreases w + 1 - e,
        {
            if n - e >= 3 && status_rest(&v, e) {
                proof {
                    let (f, g) = choose|f: int, g: int| status_tail_at(s@, e as int, f, g);
                    assert(status_line_at(s@, e as int, f, g));
                }
                return true;
            }
            e = e + 1;
        }
        proof {
            assert forall|e2: int, f: int, g: int| !status_line_at(s@, e2, f, g) by {
                if status_line_at(s@, e2, f, g) {
                    if e2 > w {
                        assert(is_ws(s@[w as int]));
                    }
                }
            }
        }
        false
    }

    /// Whether `text` is a request line: a method of ASCII letters and
    /// digits (possibly empty), white space, a target without white space
    /// (possibly empty), white space, `HTTP/`, a digit, any character but a
    /// line feed, a digit, and `\r\n` or `\n`.
    pub fn verify_request_line(text: &str) -> (b: bool)
        ensures
            b == is_request_line(text@),
    {
        let v = chars_of(text);
        let n = v.len();
        let b = (n >= 10 && request_line_from(&v, n - 10)) || (n >= 9 && request_line_from(&v, n - 9));
        proof {
            if !b {
                assert forall|d: int| !request_line_at(v@, d) by {
                    if request_line_at(v@, d) {
                        assert(d == n - 10 || d == n - 9);
                    }
                }
            }
        }
        b
    }
    /// Whether `text` is a header line: a non-empty name of the characters
    /// ``!#$%&'*+-.^_`|``, `,`, digits and ASCII letters, a colon, a value
    /// free of carriage returns and line feeds, and `\r\n` or `\n`.
    pub fn verify_header_line(text: &str) -> (b: bool)
        ensures
            b == is_header_line(text@),
    {
        let v = chars_of(text);
        let n = v.len();
        let k = skip_token_chars(&v, 0, n);
        let b = 0 < k && k < n && v[k] == ':' && line_rest(&v, k + 1);
        proof {
            if b {
                assert(header_line_at(v@, k as int));
            } else {
                assert forall|k2: int| !header_line_at(v@, k2) by {
                    if header_line_at(v@, k2) {
                        // `:` is not a name character, so the colon of any
                        // split is the first non-name character.
                        if k2 < k {
                            assert(is_token_char(v@[k2]));
                        } else if k2 > k {
                            assert(is_token_char(v@[k as int]));
                        }
                    }
                }
            }
        }
        b
    }

    /// Whether `text` is the empty line that ends a head: `\r\n` or `\n`.
    pub fn verify_end_of_headers(text: &str) -> (b: bool)
        ensures
            b == is_end_of_headers(text@),
    {
        let v = chars_of(text);
        let n = v.len();
        let b = (n == 1 && v[0] == '\n') || (n == 2 && v[0] == '\r' && v[1] == '\n');
        proof {
            if n == 1 && v[0] == '\n' {
                assert(v@ =~= seq!['\n']);
            } else if n == 2 && v[0] == '\r' && v[1] == '\n' {
                assert(v@ =~= seq!['\r', '\n']);
            } else {
                assert(!(v@ =~= seq!['\n']));
                if v@ =~= seq!['\r', '\n'] {
                    assert(v@[0] == '\r');
                }
            }
        }
        b
    }
}

} // verus!
