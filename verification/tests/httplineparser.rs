use http_proxy::httplineparser::HttpLineParsers;

#[test]
fn test_http_line_verifier_request_line() {
    assert_eq!(true, HttpLineParsers::verify_request_line("POST /foo HTTP/1.0\r\n"));
    assert_eq!(true, HttpLineParsers::verify_request_line("GET /foo?foo=ban&baoeu HTTP/1.0\n"));
    assert_eq!(true, HttpLineParsers::verify_request_line("GET /foo?foo=ban&baoeu HTTP/1.1\n"));
    assert_eq!(true, HttpLineParsers::verify_request_line("GET /foo?foo=ban&baoeu HTTP/0.9\n"));
}

#[test]
fn test_http_line_verifier_end_of_headers() {
    assert_eq!(true, HttpLineParsers::verify_end_of_headers("\r\n"));
}

#[test]
fn test_http_line_verifier_header_line_sane() {
    assert_eq!(true, HttpLineParsers::verify_header_line("Foo: bar\r\n"));
}

#[test]
fn test_http_line_verifier_header_line_some_symbols_are_alright() {
    assert_eq!(true, HttpLineParsers::verify_header_line("!#$%&'*+-.^_`|0-9A-Foo::::::\n"));
}

#[test]
fn test_http_line_verifier_header_line_no_colon() {
    assert_eq!(false, HttpLineParsers::verify_header_line("Foeuntaoesoe"));
}

#[test]
fn test_http_line_verifier_header_line_cr_optional() {
    assert_eq!(true, HttpLineParsers::verify_header_line("Foo: \n"));
}

#[test]
fn test_http_line_verifier_header_line_lf_not_optional() {
    assert_eq!(false, HttpLineParsers::verify_header_line("Foo: \r"));
}

#[test]
fn test_http_line_verifier_header_line_tspecial_cant_be_keys() {
    assert_eq!(false, HttpLineParsers::verify_header_line("[]{}: notvalid\r\n"));
}
