//! The verified recognisers against the `regex` crate, on the patterns that
//! define the HTTP lines.

use http_proxy::charclass::char_is_ws;
use http_proxy::httplineparser::HttpLineParsers;
use regex::Regex;

const REQUEST_LINE: &str = r"^([a-zA-Z0-9]*)\s+([^\s]*)\s+HTTP/\d.\d\r?\n$";
const STATUS_LINE: &str = r"^HTTP/\d.\d\s+\d{3}\s+([\w\s]+)\r?\n$";
const HEADER_LINE: &str = r"^([!#$%&'*+-.^_`|0-9A-Za-z]+):([^\r\n]*)\r?\n$";
const END_OF_HEADERS: &str = r"^\r?\n$";
const CONTENT_LENGTH: &str = r"^(?i)content-length:\s*(\d+)\s*\r?\n$";

const FRAGMENTS: &[&str] = &[
    "GET", "POST", "g3t", "/", "/foo?a=b", " ", "  ", "\t", "\r", "\n", "\r\n", "HTTP/", "1.0",
    "1.1", "0", "7", "1x9", "200", "404", "OK", "Not Found", ":", "Foo", "Content-Length",
    "content-length:", "CONTENT-LENGTH:", "cOnTeNt-LeNgTh:", "17", "99999999999999999999999",
    "\u{a0}", "\u{2003}", "\u{3000}", "\u{85}", "\u{663}", "\u{0966}", "\u{212a}", "\u{17f}",
    "é", "_", "[", "]", "{", "}", ",", "+", "-", ".", "`", "|", "@", "\u{200d}", "ß", "x",
];

struct Lcg(u64);

impl Lcg {
    fn next(&mut self) -> usize {
        self.0 = self.0.wrapping_mul(6364136223846793005).wrapping_add(1442695040888963407);
        (self.0 >> 33) as usize
    }
}

fn original_content_length(re: &Regex, text: &str) -> Option<usize> {
    let caps = re.captures(text)?;
    caps.get(1)?.as_str().parse::<usize>().ok()
}

fn templates() -> Vec<String> {
    vec![
        "GET /foo HTTP/1.0\r\n".to_string(),
        "POST / HTTP/1.1\n".to_string(),
        "  HTTP/1.0\n".to_string(),
        "HTTP/1.0 200 OK\r\n".to_string(),
        "HTTP/1.1 404 Not Found\n".to_string(),
        "Foo: bar\r\n".to_string(),
        "Content-Length: 17\r\n".to_string(),
        "content-length:17 \r\n".to_string(),
        "\r\n".to_string(),
    ]
}

fn random_line(rng: &mut Lcg) -> String {
    let t = templates();
    let mut s = if rng.next() % 2 == 0 { t[rng.next() % t.len()].clone() } else { String::new() };
    let edits = rng.next() % 4;
    for _ in 0..edits {
        let frag = FRAGMENTS[rng.next() % FRAGMENTS.len()];
        let chars: Vec<char> = s.chars().collect();
        let at = if chars.is_empty() { 0 } else { rng.next() % (chars.len() + 1) };
        let mode = rng.next() % 3;
        let mut out: String = chars[..at].iter().collect();
        match mode {
            0 => {
                out.push_str(frag);
                out.extend(chars[at..].iter());
            },
            1 => {
                out.push_str(frag);
                if at < chars.len() {
                    out.extend(chars[at + 1..].iter());
                }
            },
            _ => {
                if at < chars.len() {
                    out.extend(chars[at + 1..].iter());
                }
            },
        }
        s = out;
    }
    if rng.next() % 3 == 0 {
        s.push_str(FRAGMENTS[rng.next() % FRAGMENTS.len()]);
    }
    s
}

#[test]
fn white_space_class_agrees_with_regex() {
    let re = Regex::new(r"^\s$").unwrap();
    for u in 0u32..0x110000 {
        if let Some(c) = char::from_u32(u) {
            let mut buf = [0u8; 4];
            assert_eq!(char_is_ws(c), re.is_match(c.encode_utf8(&mut buf)), "char {:x}", u);
        }
    }
}

#[test]
fn line_recognisers_agree_with_regex() {
    compare_on_random_lines(0x5eed);
}

#[test]
fn line_recognisers_agree_with_regex_other_seed() {
    compare_on_random_lines(0xdecafbad);
}

fn compare_on_random_lines(seed: u64) {
    let request = Regex::new(REQUEST_LINE).unwrap();
    let status = Regex::new(STATUS_LINE).unwrap();
    let header = Regex::new(HEADER_LINE).unwrap();
    let end = Regex::new(END_OF_HEADERS).unwrap();
    let length = Regex::new(CONTENT_LENGTH).unwrap();
    let mut rng = Lcg(seed);
    let mut seen_true = [0usize; 5];
    for _ in 0..6000 {
        let line = random_line(&mut rng);
        let l = line.as_str();
        let r = HttpLineParsers::verify_request_line(l);
        assert_eq!(r, request.is_match(l), "request line {:?}", l);
        let s = HttpLineParsers::verify_status_line(l);
        assert_eq!(s, status.is_match(l), "status line {:?}", l);
        let h = HttpLineParsers::verify_header_line(l);
        assert_eq!(h, header.is_match(l), "header line {:?}", l);
        let e = HttpLineParsers::verify_end_of_headers(l);
        assert_eq!(e, end.is_match(l), "end of headers {:?}", l);
        let c = HttpLineParsers::extract_content_length(l);
        assert_eq!(c, original_content_length(&length, l), "content length {:?}", l);
        for (i, b) in [r, s, h, e, c.is_some()].iter().enumerate() {
            if *b {
                seen_true[i] += 1;
            }
        }
    }
    for n in seen_true.iter() {
        assert!(*n > 50, "{:?}", seen_true);
    }
}
