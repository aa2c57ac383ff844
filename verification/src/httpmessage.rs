//! Requests and responses (a start line and headers), and the incremental
//! parser that builds one from the lines read off a connection.

use vstd::prelude::*;
use crate::httperrors::{int_text, message_of, push_int_text, HttpError};
use crate::httpheader::{
    body_len_of, head_text, header_step, header_texts, headers_to_body_len,
    line_view, prefix_and_headers_to_io_string, Header, HeaderParser,
};
use crate::httplineparser::{is_request_line, is_status_line, HttpLineParsers};

verus! {

/// The head of a message by its characters: the start line and the header
/// lines, each with its line end.
pub struct MessageHead {
    pub start_line: Seq<char>,
    pub headers: Seq<Seq<char>>,
}

/// A request: its request line and headers.
pub struct HttpRequest {
    request_line: String,
    headers: Vec<Header>,
}

/// A response: its status line and headers.
pub struct HttpResponse {
    status_line: String,
    headers: Vec<Header>,
}

impl View for HttpRequest {
    type V = MessageHead;

    closed spec fn view(&self) -> MessageHead {
        MessageHead { start_line: self.request_line@, headers: header_texts(self.headers@) }
    }
}

impl View for HttpResponse {
    type V = MessageHead;

    closed spec fn view(&self) -> MessageHead {
        MessageHead { start_line: self.status_line@, headers: header_texts(self.headers@) }
    }
}

/// `m` with one more header line at the end.
pub open spec fn with_header(m: MessageHead, h: Seq<char>) -> MessageHead {
    MessageHead { start_line: m.start_line, headers: m.headers.push(h) }
}

/// The status line of the reply that reports an error:
/// `HTTP/1.0 <code> <message>\r\n`.
pub open spec fn error_status_line(code: int, message: Seq<char>) -> Seq<char> {
    "HTTP/1.0 "@ + int_text(code) + " "@ + message + "\r\n"@
}

/// The head of the reply that reports an error: its status line and a
/// `Content-Length: 0` header.
pub open spec fn error_head(code: int, message: Seq<char>) -> MessageHead {
    MessageHead {
        start_line: error_status_line(code, message),
        headers: seq!["Content-Length: 0\r\n"@],
    }
}

impl HttpRequest {
    /// Appends a header.
    pub fn add_header(&mut self, header: Header)
        ensures
            final(self)@ == with_header(old(self)@, header.0@),
    {
        self.headers.push(header);
        proof {
            assert(header_texts(self.headers@) =~= header_texts(old(self).headers@).push(header.0@));
        }
    }

    /// The length of the body that the headers announce.
    pub fn body_length(self) -> (n: usize)
        ensures
            n == body_len_of(self@.headers),
    {
        headers_to_body_len(&self.headers)
    }

    /// The text of the head, as it is sent on.
    pub fn as_string(&self) -> (s: String)
        ensures
            s@ == head_text(self@.start_line, self@.headers),
    {
        prefix_and_headers_to_io_string(&self.request_line, &self.headers)
    }
}

impl HttpResponse {
    /// The reply that reports `err` to the client: status line
    /// `HTTP/1.0 <code> <message>\r\n` and the one header
    /// `Content-Length: 0\r\n`.
    pub fn from_error(err: HttpError) -> (r: HttpResponse)
        ensures
            r@ == error_head(err.code as int, err.message@),
    {
        let mut status_line = String::from_str("HTTP/1.0 ");
        push_int_text(&mut status_line, err.code);
        status_line.append(" ");
        status_line.append(err.message.as_str());
        status_line.append("\r\n");
        let mut headers: Vec<Header> = Vec::new();
        headers.push(Header(String::from_str("Content-Length: 0\r\n")));
        let r = HttpResponse { status_line, headers };
        proof {
            assert(header_texts(r.headers@) =~= seq!["Content-Length: 0\r\n"@]);
        }
        r
    }

    /// Appends a header.
    pub fn add_header(&mut self, header: Header)
        ensures
            final(self)@ == with_header(old(self)@, header.0@),
    {
        self.headers.push(header);
        proof {
            assert(header_texts(self.headers@) =~= header_texts(old(self).headers@).push(header.0@));
        }
    }

    /// The length of the body that the headers announce.
    pub fn body_length(self) -> (n: usize)
        ensures
            n == body_len_of(self@.headers),
    {
        headers_to_body_len(&self.headers)
    }

    /// The text of the head, as it is sent on.
    pub fn as_string(&self) -> (s: String)
        ensures
            s@ == head_text(self@.start_line, self@.headers),
    {
        prefix_and_headers_to_io_string(&self.status_line, &self.headers)
    }
}

/// Which head a parser reads: a request (from a client) or a response (from
/// a backend).
#[derive(Clone, Copy, PartialEq, Eq, Structural)]
pub enum HeadKind {
    Request,
    Response,
}

/// Where a head parser stands.
pub enum HeadStatus {
    /// The start line has not been read yet.
    AwaitingStartLine,
    /// The start line is read; header lines are being read.
    ReadingHeaders,
    /// The line that ends the head has been read.
    Complete,
    /// Reading failed, for the reason given.
    Failed(&'static str),
}

/// Where a head parser stands, by the characters of a failure's reason.
pub enum HeadPhase {
    AwaitingStartLine,
    ReadingHeaders,
    Complete,
    Failed(Seq<char>),
}

/// The state of a head parser: what it reads, where it stands, and the
/// lines it has kept.
pub struct HeadModel {
    pub kind: HeadKind,
    pub phase: HeadPhase,
    pub head: MessageHead,
}

/// Reads the head of a request or a response one line at a time: the start
/// line, then header lines up to the empty line.
pub struct HeadParser {
    kind: HeadKind,
    status: HeadStatus,
    start_line: String,
    headers: Vec<Header>,
}

/// The start line that a head of this kind needs.
pub open spec fn is_start_line(kind: HeadKind, l: Seq<char>) -> bool {
    match kind {
        HeadKind::Request => is_request_line(l),
        HeadKind::Response => is_status_line(l),
    }
}

/// The reason for refusing a start line of this kind.
pub open spec fn start_line_error(kind: HeadKind) -> Seq<char> {
    match kind {
        HeadKind::Request => "malformed request headers"@,
        HeadKind::Response => "malformed status line"@,
    }
}

/// A parser that has not read anything.
pub open spec fn head_initial(kind: HeadKind) -> HeadModel {
    HeadModel {
        kind,
        phase: HeadPhase::AwaitingStartLine,
        head: MessageHead { start_line: Seq::empty(), headers: Seq::empty() },
    }
}

/// A parser that has stopped: it completed the head or failed.
pub open spec fn head_finished(m: HeadModel) -> bool {
    m.phase is Complete || m.phase is Failed
}

/// What one more line read (or one failed read) does to a head parser. The
/// first line must be a start line of the parser's kind; then each header
/// line is kept until the line that ends the head; a failed read, a refused
/// start line or an invalid header line stops the parser with its reason.
/// A stopped parser stays as it is.
pub open spec fn head_step(m: HeadModel, line: Result<Seq<char>, Seq<char>>) -> HeadModel {
    match m.phase {
        HeadPhase::AwaitingStartLine => match line {
            Err(e) => HeadModel { phase: HeadPhase::Failed(e), ..m },
            Ok(l) => if is_start_line(m.kind, l) {
                HeadModel {
                    phase: HeadPhase::ReadingHeaders,
                    head: MessageHead { start_line: l, headers: m.head.headers },
                    ..m
                }
            } else {
                HeadModel { phase: HeadPhase::Failed(start_line_error(m.kind)), ..m }
            },
        },
        HeadPhase::ReadingHeaders => match header_step(line) {
            Err(e) => HeadModel { phase: HeadPhase::Failed(e), ..m },
            Ok(Some(h)) => HeadModel { head: with_header(m.head, h), ..m },
            Ok(None) => HeadModel { phase: HeadPhase::Complete, ..m },
        },
        _ => m,
    }
}

/// The state of a parser of `kind` after reading `lines` in order.
pub open spec fn head_run(kind: HeadKind, lines: Seq<Result<Seq<char>, Seq<char>>>) -> HeadModel
    decreases lines.len(),
{
    if lines.len() == 0 {
        head_initial(kind)
    } else {
        head_step(head_run(kind, lines.drop_last()), lines.last())
    }
}

impl View for HeadParser {
    type V = HeadModel;

    closed spec fn view(&self) -> HeadModel {
        HeadModel {
            kind: self.kind,
            phase: match self.status {
                HeadStatus::AwaitingStartLine => HeadPhase::AwaitingStartLine,
                HeadStatus::ReadingHeaders => HeadPhase::ReadingHeaders,
                HeadStatus::Complete => HeadPhase::Complete,
                HeadStatus::Failed(e) => HeadPhase::Failed(e@),
            },
            head: MessageHead { start_line: self.start_line@, headers: header_texts(self.headers@) },
        }
    }
}

impl HeadParser {
    /// A parser for a head of `kind` that has read nothing.
    pub fn new(kind: HeadKind) -> (p: HeadParser)
        ensures
            p@ == head_initial(kind),
    {
        let p = HeadParser {
            kind,
            status: HeadStatus::AwaitingStartLine,
            start_line: String::new(),
            headers: Vec::new(),
        };
        proof {
            assert(header_texts(p.headers@) =~= Seq::<Seq<char>>::empty());
        }
        p
    }

    /// Takes one more line read, or the error of a failed read.
    pub fn feed(&mut self, line: Result<String, &'static str>)
        ensures
            final(self)@ == head_step(old(self)@, line_view(line)),
    {
        match self.status {
            HeadStatus::AwaitingStartLine => match line {
                Err(e) => {
                    self.status = HeadStatus::Failed(e);
                },
                Ok(l) => {
                    let ok = match self.kind {
                        HeadKind::Request => HttpLineParsers::verify_request_line(l.as_str()),
                        HeadKind::Response => HttpLineParsers::verify_status_line(l.as_str()),
                    };
                    if ok {
                        self.start_line = l;
                        self.status = HeadStatus::ReadingHeaders;
                    } else {
                        self.status = match self.kind {
                            HeadKind::Request => HeadStatus::Failed("malformed request headers"),
                            HeadKind::Response => HeadStatus::Failed("malformed status line"),
                        };
                    }
                },
            },
            HeadStatus::ReadingHeaders => match HeaderParser::read_header(line) {
                Err(e) => {
                    self.status = HeadStatus::Failed(e);
                },
                Ok(Some(h)) => {
                    let ghost old_headers = self.headers@;
                    self.headers.push(h);
                    proof {
                        assert(header_texts(self.headers@) =~= header_texts(old_headers).push(
                            self.headers@.last().0@,
                        ));
                    }
                },
                Ok(None) => {
                    self.status = HeadStatus::Complete;
                },
            },
            _ => {},
        }
    }

    /// Whether the parser has stopped: the head is complete or reading it
    /// failed.
    pub fn is_finished(&self) -> (b: bool)
        ensures
            b == head_finished(self@),
    {
        match self.status {
            HeadStatus::Complete => true,
            HeadStatus::Failed(_) => true,
            _ => false,
        }
    }

    /// The request that a finished parser has read, or the error
    /// `malformed_request` with the reason it failed.
    pub fn into_request(self) -> (r: Result<HttpRequest, HttpError>)
        requires
            head_finished(self@),
        ensures
            match self@.phase {
                HeadPhase::Complete => r matches Ok(req) && req@ == self@.head,
                HeadPhase::Failed(e) => r matches Err(err) && err.code == 400 && err.message@
                    == message_of("Malformed request: "@, e),
                _ => false,
            },
    {
        match self.status {
            HeadStatus::Failed(e) => Err(HttpError::malformed_request(e)),
            _ => Ok(HttpRequest { request_line: self.start_line, headers: self.headers }),
        }
    }

    /// The response that a finished parser has read, or the error
    /// `malformed_reply` with the reason it failed.
    pub fn into_response(self) -> (r: Result<HttpResponse, HttpError>)
        requires
            head_finished(self@),
        ensures
            match self@.phase {
                HeadPhase::Complete => r matches Ok(resp) && resp@ == self@.head,
                HeadPhase::Failed(e) => r matches Err(err) && err.code == 502 && err.message@
                    == message_of("Bad gateway: "@, e),
                _ => false,
            },
    {
        match self.status {
            HeadStatus::Failed(e) => Err(HttpError::malformed_reply(e)),
            _ => Ok(HttpResponse { status_line: self.start_line, headers: self.headers }),
        }
    }
}

} // verus!
