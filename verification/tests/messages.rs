use http_proxy::httperrors::HttpError;
use http_proxy::httpheader::{backend_header, forwarded_for_header, Header, HeaderParser};
use http_proxy::httplineparser::HttpLineParsers;
use http_proxy::httpmessage::{HeadKind, HeadParser, HttpRequest, HttpResponse};
use http_proxy::httpreader::line_read_outcome;

fn split_lines(text: &str) -> Vec<String> {
    let mut lines = Vec::new();
    let mut cur = String::new();
    for c in text.chars() {
        cur.push(c);
        if c == '\n' {
            lines.push(std::mem::take(&mut cur));
        }
    }
    if !cur.is_empty() {
        lines.push(cur);
    }
    lines
}

fn parse_request(lines: &[&str]) -> Result<HttpRequest, HttpError> {
    let mut p = HeadParser::new(HeadKind::Request);
    let mut i = 0;
    while !p.is_finished() {
        let line = if i < lines.len() { Ok(lines[i].to_string()) } else { Err("Empty read") };
        p.feed(line);
        i += 1;
    }
    p.into_request()
}

fn parse_response(lines: &[&str]) -> Result<HttpResponse, HttpError> {
    let mut p = HeadParser::new(HeadKind::Response);
    let mut i = 0;
    while !p.is_finished() {
        let line = if i < lines.len() { Ok(lines[i].to_string()) } else { Err("Empty read") };
        p.feed(line);
        i += 1;
    }
    p.into_response()
}

#[test]
fn error_constructors_give_code_and_message() {
    let e = HttpError::malformed_request("Invalid header");
    assert_eq!(e.code, 400);
    assert_eq!(e.message, "Malformed request: Invalid header");
    let e = HttpError::malformed_reply("malformed status line");
    assert_eq!(e.code, 502);
    assert_eq!(e.message, "Bad gateway: malformed status line");
    let io = std::io::Error::new(std::io::ErrorKind::Other, "reset");
    let e = HttpError::client_timeout(io);
    assert_eq!(e.code, 408);
    assert_eq!(e.message, "Client timeout: reset");
    let io = std::io::Error::new(std::io::ErrorKind::Other, "refused");
    let e = HttpError::gateway_timeout(io);
    assert_eq!(e.code, 504);
    assert_eq!(e.message, "Gateway timeout: refused");
    let e = HttpError::with_detail(-12, "a", "b");
    assert_eq!(e.code, -12);
    assert_eq!(e.message, "ab");
}

#[test]
fn error_text_shows_code_and_message() {
    let e = HttpError::malformed_request("x");
    assert_eq!(e.to_string(), "HttpError(400, \"Malformed request: x\")");
    let e = HttpError { code: -2147483648, message: String::from("m") };
    assert_eq!(e.to_string(), "HttpError(-2147483648, \"m\")");
    let e = HttpError { code: 0, message: String::new() };
    assert_eq!(e.to_string(), "HttpError(0, \"\")");
}

#[test]
fn error_reply_has_status_line_and_empty_body() {
    let r = HttpResponse::from_error(HttpError::malformed_reply("Empty read"));
    assert_eq!(r.as_string(), "HTTP/1.0 502 Bad gateway: Empty read\r\nContent-Length: 0\r\n\r\n");
    assert_eq!(r.body_length(), 0);
    let r = HttpResponse::from_error(HttpError { code: 7, message: String::from("x") });
    assert_eq!(r.as_string(), "HTTP/1.0 7 x\r\nContent-Length: 0\r\n\r\n");
}

#[test]
fn header_from_string_refuses_non_header_lines() {
    assert!(Header::from_string(String::from("Foo bar\r\n")).is_none());
    assert!(Header::from_string(String::from("Foo: bar\r\nBaz: x\r\n")).is_none());
    assert!(Header::from_str(":x\n").is_none());
    assert_eq!(Header::from_str("a:\n").unwrap().0, "a:\n");
}

#[test]
fn read_header_decides_each_line() {
    match HeaderParser::read_header(Ok(String::from("A: b\n"))) {
        Ok(Some(h)) => assert_eq!(h.0, "A: b\n"),
        _ => panic!("header expected"),
    }
    assert!(matches!(HeaderParser::read_header(Ok(String::from("\r\n"))), Ok(None)));
    assert!(matches!(HeaderParser::read_header(Ok(String::from("\n"))), Ok(None)));
    assert!(matches!(HeaderParser::read_header(Ok(String::from("junk\n"))), Err("Invalid header")));
    assert!(matches!(HeaderParser::read_header(Err("Failed read")), Err("Failed read")));
}

#[test]
fn content_length_edge_cases() {
    assert_eq!(HttpLineParsers::extract_content_length("content-length:0\n"), Some(0));
    assert_eq!(HttpLineParsers::extract_content_length("CONTENT-LENGTH: \t 42 \r\n"), Some(42));
    assert_eq!(HttpLineParsers::extract_content_length("Content-Length: 007\n"), Some(7));
    assert_eq!(
        HttpLineParsers::extract_content_length("Content-Length: 18446744073709551615\n"),
        Some(usize::MAX)
    );
    assert_eq!(HttpLineParsers::extract_content_length("Content-Length: 18446744073709551616\n"), None);
    assert_eq!(HttpLineParsers::extract_content_length("Content-Length: \n"), None);
    assert_eq!(HttpLineParsers::extract_content_length("Content-Length: 1 2\n"), None);
    assert_eq!(HttpLineParsers::extract_content_length("Content-Length: 12"), None);
    assert_eq!(HttpLineParsers::extract_content_length("Content-Lengths: 12\n"), None);
    assert_eq!(HttpLineParsers::extract_content_length("Content-Length: \u{663}\n"), None);
    assert_eq!(HttpLineParsers::extract_content_length("Content-Length:\u{a0}5\u{3000}\n"), Some(5));
}

#[test]
fn status_and_request_lines() {
    assert!(HttpLineParsers::verify_status_line("HTTP/1.0 200 OK\r\n"));
    assert!(HttpLineParsers::verify_status_line("HTTP/1.1  404  Not Found\n"));
    assert!(HttpLineParsers::verify_status_line("HTTP/1.0 200 \r\n"));
    assert!(!HttpLineParsers::verify_status_line("HTTP/1.0 200 Bad gateway: x\r\n"));
    assert!(!HttpLineParsers::verify_status_line("HTTP/1.0 20 OK\r\n"));
    assert!(!HttpLineParsers::verify_status_line("HTTP/1.0 200OK\r\n"));
    assert!(HttpLineParsers::verify_status_line("HTTP/1x0 200 Ünïcödé\n"));
    assert!(HttpLineParsers::verify_request_line("  HTTP/1.0\n"));
    assert!(!HttpLineParsers::verify_request_line(" HTTP/1.0\n"));
    assert!(!HttpLineParsers::verify_request_line("G-T / HTTP/1.0\n"));
    assert!(!HttpLineParsers::verify_request_line("GET / HTTP/1.0"));
    assert!(!HttpLineParsers::verify_request_line("GET / http/1.0\n"));
    assert!(HttpLineParsers::verify_request_line("GET / HTTP/1\r1\r\n"));
    assert!(HttpLineParsers::verify_request_line("GET /\u{3000}HTTP/\u{663}.\u{663}\n"));
    assert!(!HttpLineParsers::verify_request_line("GET / HTTP/a.0\n"));
    assert!(!HttpLineParsers::verify_status_line("HTTP/1.0 2x0 OK\n"));
    assert!(!HttpLineParsers::verify_status_line("HTTP/1.0 200 O-K\n"));
}

#[test]
fn request_head_is_parsed_line_by_line() {
    let req = parse_request(&["GET /x HTTP/1.0\r\n", "Host: a\r\n", "Content-Length: 3\r\n", "\r\n"])
        .ok()
        .unwrap();
    assert_eq!(req.as_string(), "GET /x HTTP/1.0\r\nHost: a\r\nContent-Length: 3\r\n\r\n");
    assert_eq!(req.body_length(), 3);
}

#[test]
fn request_head_failures_give_reasons() {
    let e = parse_request(&["NOT A REQUEST\r\n"]).err().unwrap();
    assert_eq!(e.code, 400);
    assert_eq!(e.message, "Malformed request: malformed request headers");
    let e = parse_request(&["GET / HTTP/1.0\n", "bad header\n"]).err().unwrap();
    assert_eq!(e.message, "Malformed request: Invalid header");
    let e = parse_request(&["GET / HTTP/1.0\n", "A: b\n"]).err().unwrap();
    assert_eq!(e.message, "Malformed request: Empty read");
    let e = parse_response(&["HTTP/1.0 200 OK:\n"]).err().unwrap();
    assert_eq!(e.code, 502);
    assert_eq!(e.message, "Bad gateway: malformed status line");
}

#[test]
fn added_headers_go_last_and_keep_the_length() {
    let mut req = parse_request(&["GET / HTTP/1.0\n", "content-length: 9\n", "\n"]).ok().unwrap();
    req.add_header(forwarded_for_header("127.0.0.1:4000"));
    assert_eq!(
        req.as_string(),
        "GET / HTTP/1.0\ncontent-length: 9\nX-Forwarded-For: 127.0.0.1:4000\r\n\r\n"
    );
    assert_eq!(req.body_length(), 9);
    let mut resp = parse_response(&["HTTP/1.0 200 OK\n", "\n"]).ok().unwrap();
    resp.add_header(backend_header("127.0.0.1:8001"));
    assert_eq!(resp.as_string(), "HTTP/1.0 200 OK\nX-Backend: 127.0.0.1:8001\r\n\r\n");
    assert_eq!(resp.body_length(), 0);
}

#[test]
fn first_content_length_wins() {
    let mut resp = parse_response(&["HTTP/1.0 200 OK\n", "Content-Length: 5\n", "\n"]).ok().unwrap();
    resp.add_header(Header::from_str("Content-Length: 6\n").unwrap());
    assert_eq!(resp.body_length(), 5);
}

#[test]
fn head_text_is_read_back_as_the_same_head() {
    let lines = ["POST /a HTTP/1.1\r\n", "A: 1\r\n", "B:\n", "\r\n"];
    let req = parse_request(&lines).ok().unwrap();
    let text = req.as_string();
    let again: Vec<String> = split_lines(&text);
    let again_refs: Vec<&str> = again.iter().map(|s| s.as_str()).collect();
    let req2 = parse_request(&again_refs).ok().unwrap();
    assert_eq!(req2.as_string(), text);
    let resp = parse_response(&["HTTP/1.0 404 Not Found\n", "X: y\n", "\n"]).ok().unwrap();
    let text = resp.as_string();
    let again: Vec<String> = split_lines(&text);
    let again_refs: Vec<&str> = again.iter().map(|s| s.as_str()).collect();
    assert_eq!(parse_response(&again_refs).ok().unwrap().as_string(), text);
}

#[test]
fn line_read_outcomes() {
    assert!(matches!(line_read_outcome(Ok(0), String::new()), Err("Empty read")));
    assert_eq!(line_read_outcome(Ok(4), String::from("abc\n")).unwrap(), "abc\n");
    let io = std::io::Error::new(std::io::ErrorKind::Other, "x");
    assert!(matches!(line_read_outcome(Err(io), String::new()), Err("Failed read")));
}
