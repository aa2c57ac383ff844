use http_proxy::httperrors::HttpError;
use http_proxy::proxy::{error_reply, ProxyAction, ProxyEvent, ProxySession, READ_BUFFER_SIZE};

/// Runs a session against scripted client and backend input, recording
/// what it sends.
fn run(client_lines: &[&str], client_reads: &[usize], backend_lines: &[&str], backend_reads: &[usize])
    -> (Vec<String>, Vec<String>, Vec<usize>, Vec<usize>, Result<(), HttpError>) {
    let mut s = ProxySession::new("10.0.0.1:555", "127.0.0.1:8001");
    let (mut cl, mut cr, mut bl, mut br) = (0, 0, 0, 0);
    let mut to_backend = Vec::new();
    let mut to_client = Vec::new();
    let mut fwd_backend = Vec::new();
    let mut fwd_client = Vec::new();
    loop {
        let ev = match s.next_action() {
            ProxyAction::ReadClientLine => {
                cl += 1;
                ProxyEvent::Line(client_lines.get(cl - 1).map(|l| l.to_string()).ok_or("Empty read"))
            },
            ProxyAction::ConnectBackend => ProxyEvent::Done,
            ProxyAction::SendToBackend(t) => {
                to_backend.push(t);
                ProxyEvent::Done
            },
            ProxyAction::ReadClientBody => {
                cr += 1;
                match client_reads.get(cr - 1) {
                    Some(n) => ProxyEvent::Read(*n),
                    None => ProxyEvent::Failed(String::from("reset")),
                }
            },
            ProxyAction::ForwardToBackend(n) => {
                fwd_backend.push(n);
                ProxyEvent::Done
            },
            ProxyAction::ReadBackendLine => {
                bl += 1;
                ProxyEvent::Line(backend_lines.get(bl - 1).map(|l| l.to_string()).ok_or("Empty read"))
            },
            ProxyAction::SendToClient(t) => {
                to_client.push(t);
                ProxyEvent::Done
            },
            ProxyAction::ReadBackendBody => {
                br += 1;
                match backend_reads.get(br - 1) {
                    Some(n) => ProxyEvent::Read(*n),
                    None => ProxyEvent::Failed(String::from("closed")),
                }
            },
            ProxyAction::ForwardToClient(n) => {
                fwd_client.push(n);
                ProxyEvent::Done
            },
            ProxyAction::Finish => break,
        };
        s.handle(ev);
    }
    assert!(s.is_finished());
    (to_backend, to_client, fwd_backend, fwd_client, s.into_outcome())
}

#[test]
fn proxies_a_request_with_bodies() {
    let (to_backend, to_client, fb, fc, out) = run(
        &["POST /up HTTP/1.0\r\n", "Content-Length: 5000\r\n", "\r\n"],
        &[4096, 904],
        &["HTTP/1.0 200 OK\r\n", "Content-Length: 10\r\n", "\r\n"],
        &[10],
    );
    assert!(out.is_ok());
    assert_eq!(
        to_backend,
        vec!["POST /up HTTP/1.0\r\nContent-Length: 5000\r\nX-Forwarded-For: 10.0.0.1:555\r\n\r\n"]
    );
    assert_eq!(
        to_client,
        vec!["HTTP/1.0 200 OK\r\nContent-Length: 10\r\nX-Backend: 127.0.0.1:8001\r\n\r\n"]
    );
    assert_eq!(fb, vec![READ_BUFFER_SIZE, 904]);
    assert_eq!(fc, vec![10]);
}

#[test]
fn no_body_is_passed_without_a_length() {
    let (to_backend, to_client, fb, fc, out) =
        run(&["GET / HTTP/1.0\n", "\n"], &[], &["HTTP/1.0 204 No Content\n", "\n"], &[]);
    assert!(out.is_ok());
    assert_eq!(to_backend.len(), 1);
    assert_eq!(to_client.len(), 1);
    assert!(fb.is_empty() && fc.is_empty());
}

#[test]
fn bad_request_line_ends_with_400() {
    let (to_backend, _, _, _, out) = run(&["hello\n"], &[], &[], &[]);
    assert!(to_backend.is_empty());
    let e = out.err().unwrap();
    assert_eq!(e.code, 400);
    assert_eq!(e.message, "Malformed request: malformed request headers");
    assert_eq!(
        error_reply(e),
        "HTTP/1.0 400 Malformed request: malformed request headers\r\nContent-Length: 0\r\n\r\n"
    );
}

#[test]
fn client_read_failure_ends_with_408() {
    let (_, _, _, _, out) = run(&["PUT / HTTP/1.0\n", "Content-Length: 1\n", "\n"], &[], &[], &[]);
    let e = out.err().unwrap();
    assert_eq!(e.code, 408);
    assert_eq!(e.message, "Client timeout: reset");
}

#[test]
fn bad_status_line_ends_with_502() {
    let (_, to_client, _, _, out) = run(&["GET / HTTP/1.0\n", "\n"], &[], &["garbage\n"], &[]);
    assert!(to_client.is_empty());
    let e = out.err().unwrap();
    assert_eq!(e.code, 502);
    assert_eq!(e.message, "Bad gateway: malformed status line");
}

#[test]
fn short_reads_are_forwarded_as_read() {
    let (_, _, fb, fc, out) = run(
        &["PUT / HTTP/1.0\n", "Content-Length: 7\n", "\n"],
        &[3, 0, 4],
        &["HTTP/1.0 200 OK\n", "Content-Length: 5\n", "\n"],
        &[1, 4],
    );
    assert!(out.is_ok());
    assert_eq!(fb, vec![3, 0, 4]);
    assert_eq!(fc, vec![1, 4]);
}

#[test]
fn error_reply_is_due_only_before_the_response_head() {
    let mut s = ProxySession::new("a", "b");
    s.handle(ProxyEvent::Line(Ok(String::from("bad\n"))));
    assert!(s.error_reply_due());
    let mut s = ProxySession::new("a", "b");
    for l in ["GET / HTTP/1.0\n", "\n"] {
        s.handle(ProxyEvent::Line(Ok(l.to_string())));
    }
    s.handle(ProxyEvent::Done);
    s.handle(ProxyEvent::Done);
    for l in ["HTTP/1.0 200 OK\n", "Content-Length: 2\n", "\n"] {
        s.handle(ProxyEvent::Line(Ok(l.to_string())));
    }
    assert!(matches!(s.next_action(), ProxyAction::SendToClient(_)));
    s.handle(ProxyEvent::Done);
    s.handle(ProxyEvent::Failed(String::from("gone")));
    assert!(s.is_finished());
    assert!(!s.error_reply_due());
    assert_eq!(s.into_outcome().err().unwrap().code, 504);
}

#[test]
fn backend_body_failure_ends_with_504() {
    let (_, to_client, _, _, out) =
        run(&["GET / HTTP/1.0\n", "\n"], &[], &["HTTP/1.0 200 OK\n", "Content-Length: 1\n", "\n"], &[]);
    assert_eq!(to_client.len(), 1);
    let e = out.err().unwrap();
    assert_eq!(e.code, 504);
    assert_eq!(e.message, "Gateway timeout: closed");
}

#[test]
fn connect_failure_ends_with_504() {
    let mut s = ProxySession::new("a", "b");
    for l in ["GET / HTTP/1.0\n", "\n"] {
        s.handle(ProxyEvent::Line(Ok(l.to_string())));
    }
    assert!(matches!(s.next_action(), ProxyAction::ConnectBackend));
    s.handle(ProxyEvent::Failed(String::from("refused")));
    assert!(s.is_finished());
    let e = s.into_outcome().err().unwrap();
    assert_eq!(e.code, 504);
    assert_eq!(e.message, "Gateway timeout: refused");
}

#[test]
fn unexpected_events_change_nothing() {
    let mut s = ProxySession::new("a", "b");
    s.handle(ProxyEvent::Done);
    s.handle(ProxyEvent::Read(3));
    assert!(matches!(s.next_action(), ProxyAction::ReadClientLine));
    assert_eq!(s.transferred(), 0);
}
