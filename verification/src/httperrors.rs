//! Errors that end the handling of a connection: an HTTP status code and a
//! message, as the error reply to the client carries them.

use vstd::prelude::*;

verus! {

/// An error with the HTTP status code that reports it.
pub struct HttpError {
    pub code: i32,
    pub message: String,
}

/// The decimal digit character for `d < 10`.
pub open spec fn digit_char(d: nat) -> char {
    ((0x30 + d) as u8) as char
}

/// The decimal representation of `n`, without leading zeros.
pub open spec fn nat_text(n: nat) -> Seq<char>
    decreases n,
{
    if n < 10 {
        seq![digit_char(n)]
    } else {
        nat_text(n / 10).push(digit_char(n % 10))
    }
}

/// The decimal representation of `n`, with a leading `-` if negative.
pub open spec fn int_text(n: int) -> Seq<char> {
    if n < 0 {
        seq!['-'] + nat_text((-n) as nat)
    } else {
        nat_text(n as nat)
    }
}

/// The one-character string of the decimal digit `d`.
fn digit_str(d: u64) -> (s: &'static str)
    requires
        d < 10,
    ensures
        s@ == seq![digit_char(d as nat)],
{
    proof {
        reveal_strlit("0");
        reveal_strlit("1");
        reveal_strlit("2");
        reveal_strlit("3");
        reveal_strlit("4");
        reveal_strlit("5");
        reveal_strlit("6");
        reveal_strlit("7");
        reveal_strlit("8");
        reveal_strlit("9");
    }
    let s = match d {
        0 => "0",
        1 => "1",
        2 => "2",
        3 => "3",
        4 => "4",
        5 => "5",
        6 => "6",
        7 => "7",
        8 => "8",
        _ => "9",
    };
    proof {
        assert(s@ =~= seq![digit_char(d as nat)]);
    }
    s
}

/// Appends the decimal representation of `n` to `out`.
pub fn push_nat_text(out: &mut String, n: u64)
    ensures
        final(out)@ == old(out)@ + nat_text(n as nat),
    decreases n,
{
    if n >= 10 {
        push_nat_text(out, n / 10);
    }
    out.append(digit_str(n % 10));
    proof {
        if n >= 10 {
            assert(old(out)@ + nat_text(n as nat) =~= old(out)@ + nat_text((n / 10) as nat) + seq![
                digit_char((n % 10) as nat)]);
        } else {
            assert(old(out)@ + nat_text(n as nat) =~= old(out)@ + seq![digit_char(n as nat)]);
        }
    }
}

/// Appends the decimal representation of `n` to `out`.
pub fn push_int_text(out: &mut String, n: i32)
    ensures
        final(out)@ == old(out)@ + int_text(n as int),
{
    if n < 0 {
        proof {
            reveal_strlit("-");
        }
        out.append("-");
        let m: u64 = (0i64 - (n as i64)) as u64;
        push_nat_text(out, m);
        proof {
            assert(old(out)@ + int_text(n as int) =~= old(out)@ + seq!['-'] + nat_text(m as nat));
        }
    } else {
        push_nat_text(out, n as u64);
    }
}

/// The message of an error: `prefix` followed by `detail`.
pub open spec fn message_of(prefix: Seq<char>, detail: Seq<char>) -> Seq<char> {
    prefix + detail
}

/// The text with which `HttpError` shows itself:
/// `HttpError(<code>, "<message>")`.
pub open spec fn error_text(code: int, message: Seq<char>) -> Seq<char> {
    "HttpError("@ + int_text(code) + ", \""@ + message + "\")"@
}

/// The I/O error type of `std`, carried as an opaque value.
#[verifier::external_type_specification]
#[verifier::external_body]
pub struct ExIoError(std::io::Error);

/// Calls `Display::fmt` of `std::io::Error` through `format!`. Nothing is
/// claimed of the text: for an operating-system error it comes from the
/// system.
#[verifier::external_body]
fn io_error_text(e: &std::io::Error) -> String {
    format!("{}", e)
}

impl HttpError {
    /// An error with the given code whose message is `prefix` followed by
    /// `detail`.
    pub fn with_detail(code: i32, prefix: &str, detail: &str) -> (r: HttpError)
        ensures
            r.code == code,
            r.message@ == message_of(prefix@, detail@),
    {
        let mut message = String::from_str(prefix);
        message.append(detail);
        HttpError { code, message }
    }

    /// The error for a request that could not be read: code 400, message
    /// `Malformed request: <e>`.
    pub fn malformed_request(e: &'static str) -> (r: HttpError)
        ensures
            r.code == 400,
            r.message@ == message_of("Malformed request: "@, e@),
    {
        HttpError::with_detail(400, "Malformed request: ", e)
    }

    /// The error for a reply of the backend that could not be read: code
    /// 502, message `Bad gateway: <e>`.
    pub fn malformed_reply(e: &'static str) -> (r: HttpError)
        ensures
            r.code == 502,
            r.message@ == message_of("Bad gateway: "@, e@),
    {
        HttpError::with_detail(502, "Bad gateway: ", e)
    }

    /// The error for a failed exchange with the client: code 408, message
    /// `Client timeout: ` followed by the text of `e`.
    pub fn client_timeout(e: std::io::Error) -> (r: HttpError)
        ensures
            r.code == 408,
            exists|d: Seq<char>| r.message@ == message_of("Client timeout: "@, d),
    {
        let text = io_error_text(&e);
        HttpError::with_detail(408, "Client timeout: ", text.as_str())
    }

    /// The error for a failed exchange with the backend: code 504, message
    /// `Gateway timeout: ` followed by the text of `e`.
    pub fn gateway_timeout(e: std::io::Error) -> (r: HttpError)
        ensures
            r.code == 504,
            exists|d: Seq<char>| r.message@ == message_of("Gateway timeout: "@, d),
    {
        let text = io_error_text(&e);
        HttpError::with_detail(504, "Gateway timeout: ", text.as_str())
    }

    /// The text of the error: `HttpError(<code>, "<message>")`.
    pub fn to_string(&self) -> (s: String)
        ensures
            s@ == error_text(self.code as int, self.message@),
    {
        let mut s = String::from_str("HttpError(");
        push_int_text(&mut s, self.code);
        s.append(", \"");
        s.append(self.message.as_str());
        s.append("\")");
        s
    }
}

} // verus!
