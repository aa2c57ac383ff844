//! Character classes used by the HTTP line grammars, and conversion of a
//! string into its characters.

use vstd::prelude::*;

verus! {

/// The Unicode `White_Space` property: the class that `\s` denotes.
pub open spec fn is_ws(c: char) -> bool {
    let u = c as u32;
    ||| 0x09 <= u <= 0x0d
    ||| u == 0x20
    ||| u == 0x85
    ||| u == 0xa0
    ||| u == 0x1680
    ||| 0x2000 <= u <= 0x200a
    ||| u == 0x2028
    ||| u == 0x2029
    ||| u == 0x202f
    ||| u == 0x205f
    ||| u == 0x3000
}

/// Executable test for `is_ws`.
pub fn char_is_ws(c: char) -> (b: bool)
    ensures
        b == is_ws(c),
{
    let u = c as u32;
    (0x09 <= u && u <= 0x0d) || u == 0x20 || u == 0x85 || u == 0xa0 || u == 0x1680
        || (0x2000 <= u && u <= 0x200a) || u == 0x2028 || u == 0x2029 || u == 0x202f
        || u == 0x205f || u == 0x3000
}

/// The characters of a string, in order.
pub fn chars_of(s: &str) -> (v: Vec<char>)
    ensures
        v@ == s@,
{
    broadcast use vstd::string::group_string_axioms;
    let mut v: Vec<char> = Vec::new();
    for c in it: s.chars()
        invariant
            v.len() == it.index(),
            forall|j: int| 0 <= j < v.len() ==> v@[j] == it.seq()[j],
            it.seq() == s@,
    {
        v.push(c);
    }
    assert(v@ =~= s@);
    v
}

/// An ASCII letter or digit: the class `[a-zA-Z0-9]`.
pub open spec fn is_ascii_alnum(c: char) -> bool {
    let u = c as u32;
    ||| 0x30 <= u <= 0x39
    ||| 0x41 <= u <= 0x5a
    ||| 0x61 <= u <= 0x7a
}

/// Executable test for `is_ascii_alnum`.
pub fn char_is_ascii_alnum(c: char) -> (b: bool)
    ensures
        b == is_ascii_alnum(c),
{
    let u = c as u32;
    (0x30 <= u && u <= 0x39) || (0x41 <= u && u <= 0x5a) || (0x61 <= u && u <= 0x7a)
}

/// A character allowed in a header name: the class
/// ``[!#$%&'*+-.^_`|0-9A-Za-z]``, where `+-.` is the range from `+` to `.`.
pub open spec fn is_token_char(c: char) -> bool {
    let u = c as u32;
    ||| u == 0x21
    ||| 0x23 <= u <= 0x27
    ||| 0x2a <= u <= 0x2e
    ||| u == 0x5e
    ||| u == 0x5f
    ||| u == 0x60
    ||| u == 0x7c
    ||| is_ascii_alnum(c)
}

/// Executable test for `is_token_char`.
pub fn char_is_token(c: char) -> (b: bool)
    ensures
        b == is_token_char(c),
{
    let u = c as u32;
    u == 0x21 || (0x23 <= u && u <= 0x27) || (0x2a <= u && u <= 0x2e) || u == 0x5e || u == 0x5f
        || u == 0x60 || u == 0x7c || char_is_ascii_alnum(c)
}

/// An ASCII decimal digit.
pub open spec fn is_ascii_digit(c: char) -> bool {
    0x30 <= (c as u32) <= 0x39
}

/// The value of an ASCII decimal digit.
pub open spec fn digit_value(c: char) -> nat {
    ((c as u32) - 0x30) as nat
}

/// Whether the `regex` crate's class `\d` (Unicode `Nd`) holds `c`.
pub uninterp spec fn regex_digit(c: char) -> bool;

/// Whether the `regex` crate's class `\w` (Unicode word characters) holds `c`.
pub uninterp spec fn regex_word(c: char) -> bool;

/// The class `\d` (Unicode `Nd`): among ASCII characters the digits `0` to
/// `9`, beyond ASCII as the `regex` crate's tables decide.
pub open spec fn is_digit_class(c: char) -> bool {
    if (c as u32) < 0x80 {
        is_ascii_digit(c)
    } else {
        regex_digit(c)
    }
}

/// The class `\w` (Unicode word characters): among ASCII characters
/// `[0-9A-Za-z_]`, beyond ASCII as the `regex` crate's tables decide.
pub open spec fn is_word_class(c: char) -> bool {
    if (c as u32) < 0x80 {
        is_ascii_alnum(c) || (c as u32) == 0x5f
    } else {
        regex_word(c)
    }
}

/// Asks the `regex` crate whether `c` is in the class `\d`, by matching the
/// pattern `^\d$` against the one-character string `c`. The contract claims
/// that the answer is a function of `c`, and, as the crate documents `\d` to
/// be `\p{Nd}`, that among ASCII characters it holds exactly `0` to `9`.
#[verifier::external_body]
fn regex_is_digit(c: char) -> (b: bool)
    ensures
        b == regex_digit(c),
        (c as u32) < 0x80 ==> (b == is_ascii_digit(c)),
{
    regex::Regex::new(r"^\d$").unwrap().is_match(c.encode_utf8(&mut [0u8; 4]))
}

/// Asks the `regex` crate whether `c` is in the class `\w`, by matching the
/// pattern `^\w$` against the one-character string `c`. The contract claims
/// that the answer is a function of `c`, and, as the crate documents `\w` to
/// be `\p{Alphabetic} + \p{M} + \d + \p{Pc} + \p{Join_Control}`, that among
/// ASCII characters it holds exactly `[0-9A-Za-z_]`.
#[verifier::external_body]
fn regex_is_word(c: char) -> (b: bool)
    ensures
        b == regex_word(c),
        (c as u32) < 0x80 ==> (b == (is_ascii_alnum(c) || (c as u32) == 0x5f)),
{
    regex::Regex::new(r"^\w$").unwrap().is_match(c.encode_utf8(&mut [0u8; 4]))
}

/// Whether `c` is in the class `\d`; only a character beyond ASCII is asked
/// of the `regex` crate.
pub fn char_is_digit(c: char) -> (b: bool)
    ensures
        b == is_digit_class(c),
{
    let u = c as u32;
    if u < 0x80 {
        0x30 <= u && u <= 0x39
    } else {
        regex_is_digit(c)
    }
}

/// Whether `c` is in the class `[\w\s]`.
pub fn char_is_word_or_ws(c: char) -> (b: bool)
    ensures
        b == (is_word_class(c) || is_ws(c)),
{
    let u = c as u32;
    if char_is_ws(c) {
        true
    } else if u < 0x80 {
        char_is_ascii_alnum(c) || u == 0x5f
    } else {
        regex_is_word(c)
    }
}

} // verus!
