//! Header lines, the decision taken on each line of a head after the start
//! line, the body length that the headers announce, and the text of a head.

use vstd::prelude::*;
use crate::charclass::is_token_char;
use crate::httplineparser::{
    content_length_of, header_line_at, is_cr_or_lf, is_end_of_headers, is_header_line,
    is_line_rest, HttpLineParsers,
};

verus! {

/// A header line, with its line end (`\r\n` or `\n`).
pub struct Header(pub String);

/// Namespace of the per-line decision while reading headers.
pub struct HeaderParser {}

/// The texts of a sequence of headers.
pub open spec fn header_texts(hs: Seq<Header>) -> Seq<Seq<char>> {
    hs.map_values(|h: Header| h.0@)
}

/// The decision on one line read while reading headers: a header line is
/// kept, the empty line ends the headers, anything else is refused with
/// `Invalid header`, and a failed read passes its error on.
pub open spec fn header_step(line: Result<Seq<char>, Seq<char>>) -> Result<Option<Seq<char>>, Seq<char>> {
    match line {
        Err(e) => Err(e),
        Ok(l) => if is_header_line(l) {
            Ok(Some(l))
        } else if is_end_of_headers(l) {
            Ok(None)
        } else {
            Err("Invalid header"@)
        },
    }
}

/// A line as read, or the error of a failed read, by its characters.
pub open spec fn line_view(line: Result<String, &'static str>) -> Result<Seq<char>, Seq<char>> {
    match line {
        Ok(l) => Ok(l@),
        Err(e) => Err(e@),
    }
}

/// The decision on a line by the characters of the header it keeps.
pub open spec fn header_result_view(r: Result<Option<Header>, &'static str>) -> Result<Option<Seq<char>>, Seq<char>> {
    match r {
        Ok(Some(h)) => Ok(Some(h.0@)),
        Ok(None) => Ok(None),
        Err(e) => Err(e@),
    }
}

/// The body length that headers announce: the length stated by the first
/// `Content-Length` header line, or 0 if there is none.
pub open spec fn body_len_of(hs: Seq<Seq<char>>) -> usize
    decreases hs.len(),
{
    if hs.len() == 0 {
        0
    } else {
        match content_length_of(hs[0]) {
            Some(n) => n,
            None => body_len_of(hs.drop_first()),
        }
    }
}

/// The header lines one after the other.
pub open spec fn concat_lines(hs: Seq<Seq<char>>) -> Seq<char>
    decreases hs.len(),
{
    if hs.len() == 0 {
        Seq::empty()
    } else {
        concat_lines(hs.drop_last()) + hs.last()
    }
}

/// The text of a head: the start line, the header lines, and `\r\n`.
pub open spec fn head_text(prefix: Seq<char>, hs: Seq<Seq<char>>) -> Seq<char> {
    prefix + concat_lines(hs) + "\r\n"@
}

impl Header {
    /// The header with text `header`, if `header` is a header line.
    pub fn from_string(header: String) -> (r: Option<Header>)
        ensures
            r is Some <==> is_header_line(header@),
            r matches Some(h) ==> h.0@ == header@,
    {
        if HttpLineParsers::verify_header_line(header.as_str()) {
            Some(Header(header))
        } else {
            None
        }
    }

    /// The header with text `header`, if `header` is a header line.
    pub fn from_str(header: &'static str) -> (r: Option<Header>)
        ensures
            r is Some <==> is_header_line(header@),
            r matches Some(h) ==> h.0@ == header@,
    {
        Header::from_string(String::from_str(header))
    }
}

impl HeaderParser {
    /// The decision on one line read while reading headers, as
    /// `header_step` states it: `Ok(Some(header))` for a header line,
    /// `Ok(None)` for the line that ends the headers, `Err("Invalid header")`
    /// for any other line, and the error of a failed read unchanged.
    pub fn read_header(line: Result<String, &'static str>) -> (r: Result<Option<Header>, &'static str>)
        ensures
            header_result_view(r) == header_step(line_view(line)),
    {
        match line {
            Err(e) => Err(e),
            Ok(header) => {
                if HttpLineParsers::verify_header_line(header.as_str()) {
                    Ok(Some(Header(header)))
                } else if HttpLineParsers::verify_end_of_headers(header.as_str()) {
                    Ok(None)
                } else {
                    proof {
                        reveal_strlit("Invalid header");
                    }
                    Err("Invalid header")
                }
            },
        }
    }
}

/// If no header before index `i` states a length, the body length is that
/// of the headers from `i` on.
proof fn lemma_body_len_skip(hs: Seq<Seq<char>>, i: int)
    requires
        0 <= i <= hs.len(),
        forall|j: int| 0 <= j < i ==> content_length_of(#[trigger] hs[j]) is None,
    ensures
        body_len_of(hs) == body_len_of(hs.skip(i)),
    decreases i,
{
    if i > 0 {
        assert(content_length_of(hs[0]) is None);
        let t = hs.drop_first();
        assert forall|j: int| 0 <= j < i - 1 implies content_length_of(#[trigger] t[j]) is None by {
            assert(t[j] == hs[j + 1]);
        }
        lemma_body_len_skip(t, i - 1);
        assert(t.skip(i - 1) =~= hs.skip(i));
    } else {
        assert(hs.skip(0) =~= hs);
    }
}

/// The body length that `headers` announce: the length stated by the first
/// `Content-Length` header line, or 0 if no line states one.
pub fn headers_to_body_len(headers: &Vec<Header>) -> (n: usize)
    ensures
        n == body_len_of(header_texts(headers@)),
{
    let ghost hs = header_texts(headers@);
    let mut i: usize = 0;
    while i < headers.len()
        invariant
            0 <= i <= headers.len(),
            hs == header_texts(headers@),
            forall|j: int| 0 <= j < i ==> content_length_of(#[trigger] hs[j]) is None,
        decreases headers.len() - i,
    {
        match HttpLineParsers::extract_content_length(headers[i].0.as_str()) {
            Some(len) => {
                proof {
                    lemma_body_len_skip(hs, i as int);
                    assert(hs.skip(i as int)[0] == hs[i as int]);
                }
                return len;
            },
            None => {},
        }
        i = i + 1;
    }
    proof {
        lemma_body_len_skip(hs, i as int);
    }
    0
}

/// The text of a head: `prefix`, then each header line in order, then
/// `\r\n`.
pub fn prefix_and_headers_to_io_string(prefix: &String, headers: &Vec<Header>) -> (s: String)
    ensures
        s@ == head_text(prefix@, header_texts(headers@)),
{
    let ghost hs = header_texts(headers@);
    let mut req = String::from_str(prefix.as_str());
    let mut i: usize = 0;
    while i < headers.len()
        invariant
            0 <= i <= headers.len(),
            hs == header_texts(headers@),
            req@ == prefix@ + concat_lines(hs.take(i as int)),
        decreases headers.len() - i,
    {
        req.append(headers[i].0.as_str());
        proof {
            assert(hs.take(i + 1).drop_last() =~= hs.take(i as int));
        }
        i = i + 1;
    }
    proof {
        assert(hs.take(i as int) =~= hs);
        reveal_strlit("\r\n");
    }
    req.append("\r\n");
    req
}

/// `s` holds no carriage return and no line feed.
pub open spec fn has_no_line_break(s: Seq<char>) -> bool {
    forall|i: int| 0 <= i < s.len() ==> !is_cr_or_lf(#[trigger] s[i])
}

/// The header that tells the backend which client a request comes from.
pub open spec fn forwarded_for_text(client: Seq<char>) -> Seq<char> {
    "X-Forwarded-For: "@ + client + "\r\n"@
}

/// The header that tells the client which backend answered.
pub open spec fn backend_text(backend: Seq<char>) -> Seq<char> {
    "X-Backend: "@ + backend + "\r\n"@
}

/// `name: value\r\n` is a header line when `name` is a non-empty header
/// name and `value` holds no line break.
pub proof fn lemma_named_header_line(name: Seq<char>, value: Seq<char>)
    requires
        name.len() > 0,
        forall|i: int| 0 <= i < name.len() ==> is_token_char(#[trigger] name[i]),
        has_no_line_break(value),
    ensures
        is_header_line(name + seq![':'] + value + seq!['\r', '\n']),
{
    let s = name + seq![':'] + value + seq!['\r', '\n'];
    let k = name.len() as int;
    let n = s.len() as int;
    assert(s[k] == ':');
    assert forall|i: int| 0 <= i < k implies is_token_char(#[trigger] s[i]) by {
        assert(s[i] == name[i]);
    }
    assert(s[n - 2] == '\r');
    assert(s[n - 1] == '\n');
    assert forall|i: int| k + 1 <= i < n - 2 implies !is_cr_or_lf(#[trigger] s[i]) by {
        assert(s[i] == value[i - k - 1]);
    }
    assert(is_line_rest(s, k + 1));
    assert(header_line_at(s, k));
}

/// The `X-Forwarded-For` header for a client address without line breaks.
pub fn forwarded_for_header(client: &str) -> (h: Header)
    requires
        has_no_line_break(client@),
    ensures
        h.0@ == forwarded_for_text(client@),
        is_header_line(h.0@),
{
    let mut text = String::from_str("X-Forwarded-For: ");
    text.append(client);
    text.append("\r\n");
    proof {
        reveal_strlit("X-Forwarded-For: ");
        reveal_strlit("\r\n");
        let name = seq!['X', '-', 'F', 'o', 'r', 'w', 'a', 'r', 'd', 'e', 'd', '-', 'F', 'o', 'r'];
        let value = seq![' '] + client@;
        assert forall|i: int| 0 <= i < value.len() implies !is_cr_or_lf(#[trigger] value[i]) by {
            if i > 0 {
                assert(value[i] == client@[i - 1]);
            }
        }
        lemma_named_header_line(name, value);
        assert(text@ =~= name + seq![':'] + value + seq!['\r', '\n']);
    }
    Header::from_string(text).unwrap()
}

/// The `X-Backend` header for a backend name without line breaks.
pub fn backend_header(backend: &str) -> (h: Header)
    requires
        has_no_line_break(backend@),
    ensures
        h.0@ == backend_text(backend@),
        is_header_line(h.0@),
{
    let mut text = String::from_str("X-Backend: ");
    text.append(backend);
    text.append("\r\n");
    proof {
        reveal_strlit("X-Backend: ");
        reveal_strlit("\r\n");
        let name = seq!['X', '-', 'B', 'a', 'c', 'k', 'e', 'n', 'd'];
        let value = seq![' '] + backend@;
        assert forall|i: int| 0 <= i < value.len() implies !is_cr_or_lf(#[trigger] value[i]) by {
            if i > 0 {
                assert(value[i] == backend@[i - 1]);
            }
        }
        lemma_named_header_line(name, value);
        assert(text@ =~= name + seq![':'] + value + seq!['\r', '\n']);
    }
    Header::from_string(text).unwrap()
}

} // verus!
