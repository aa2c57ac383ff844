//! Properties that relate the functions of the library to each other.

use vstd::prelude::*;
use crate::httpheader::{
    backend_text, body_len_of, concat_lines, forwarded_for_text, head_text, header_step,
};
use crate::charclass::{
    is_ascii_alnum, is_ascii_digit, is_digit_class, is_token_char, is_word_class, is_ws,
};
use crate::httplineparser::{
    content_length_at, content_length_name, content_length_of, decimal_value, header_line_at,
    is_end_of_headers, is_header_line, is_request_line, is_status_line, is_version_tail,
    lemma_content_length_split_unique, request_head_at, request_line_at, status_line_at,
    status_tail_at,
};
use crate::httperrors::{int_text, message_of, nat_text};
use crate::httpmessage::{
    error_head, error_status_line, head_initial, head_run, head_step, is_start_line, start_line_error, with_header,
    HeadKind, HeadModel, HeadPhase, MessageHead,
};
use crate::proxy::{
    proxy_action, proxy_initial, proxy_step, ActionModel, EventModel, ProxyModel, ProxyPhase,
};

verus! {

/// Length of the first line of `s`, with its line feed if it has one.
pub open spec fn first_line_len(s: Seq<char>) -> nat
    decreases s.len(),
{
    if s.len() == 0 {
        0
    } else if s[0] == '\n' {
        1
    } else {
        1 + first_line_len(s.drop_first())
    }
}

/// The lines of `s` in order, each with its line feed (the last one may
/// lack it): what successive calls of `BufRead::read_line` return.
pub open spec fn split_lines(s: Seq<char>) -> Seq<Seq<char>>
    decreases s.len(),
{
    let k = first_line_len(s);
    if s.len() == 0 {
        Seq::empty()
    } else if 1 <= k <= s.len() {
        seq![s.take(k as int)] + split_lines(s.skip(k as int))
    } else {
        seq![s]
    }
}

/// `l` is one line: it ends with a line feed and holds no other.
pub open spec fn is_single_line(l: Seq<char>) -> bool {
    &&& l.len() > 0
    &&& l.last() == '\n'
    &&& forall|i: int| 0 <= i < l.len() - 1 ==> l[i] != '\n'
}

/// The lines of a head, each read successfully.
pub open spec fn lines_read(lines: Seq<Seq<char>>) -> Seq<Result<Seq<char>, Seq<char>>> {
    lines.map_values(|l: Seq<char>| Ok::<Seq<char>, Seq<char>>(l))
}

proof fn lemma_first_line_len(a: Seq<char>, b: Seq<char>)
    requires
        is_single_line(a),
    ensures
        first_line_len(a + b) == a.len(),
    decreases a.len(),
{
    if a.len() > 1 {
        assert(a[0] != '\n');
        let t = a.drop_first();
        assert(is_single_line(t)) by {
            assert forall|i: int| 0 <= i < t.len() - 1 implies t[i] != '\n' by {
                assert(t[i] == a[i + 1]);
            }
        }
        lemma_first_line_len(t, b);
        assert((a + b).drop_first() =~= t + b);
    }
}

/// A single line at the front of a text is its first line.
pub proof fn lemma_split_lines_front(a: Seq<char>, b: Seq<char>)
    requires
        is_single_line(a),
    ensures
        split_lines(a + b) == seq![a] + split_lines(b),
{
    lemma_first_line_len(a, b);
    assert((a + b).take(a.len() as int) =~= a);
    assert((a + b).skip(a.len() as int) =~= b);
}

/// Single lines one after the other split back into those lines.
pub proof fn lemma_split_concat_lines(hs: Seq<Seq<char>>, t: Seq<char>)
    requires
        forall|i: int| 0 <= i < hs.len() ==> is_single_line(#[trigger] hs[i]),
    ensures
        split_lines(concat_lines(hs) + t) == hs + split_lines(t),
    decreases hs.len(),
{
    if hs.len() > 0 {
        let init = hs.drop_last();
        let last = hs.last();
        assert(concat_lines(hs) + t =~= concat_lines(init) + (last + t));
        lemma_split_concat_lines(init, last + t);
        lemma_split_lines_front(last, t);
        assert(hs =~= init + seq![last]);
        assert(init + (seq![last] + split_lines(t)) =~= hs + split_lines(t));
    } else {
        assert(concat_lines(hs) + t =~= t);
        assert(hs + split_lines(t) =~= split_lines(t));
    }
}

/// A header line is a single line.
pub proof fn lemma_header_line_is_single(l: Seq<char>)
    requires
        is_header_line(l),
    ensures
        is_single_line(l),
{
    let k = choose|k: int| header_line_at(l, k);
    assert forall|i: int| 0 <= i < l.len() - 1 implies l[i] != '\n' by {
        if i < k {
            assert(crate::charclass::is_token_char(l[i]));
        }
    }
}

/// No line both is a header line and ends a head, so the decision on a line
/// read while reading headers never has to choose between the two.
pub proof fn lemma_header_line_not_end(l: Seq<char>)
    requires
        is_header_line(l),
    ensures
        !is_end_of_headers(l),
{
    let k = choose|k: int| header_line_at(l, k);
    if l =~= seq!['\n'] || l =~= seq!['\r', '\n'] {
        assert(l[k] == ':');
    }
}

/// The text of a head splits, line by line, into its start line, its header
/// lines and the empty line, provided that the start line is one line and
/// every header is a header line.
pub proof fn lemma_head_text_lines(m: MessageHead)
    requires
        is_single_line(m.start_line),
        forall|i: int| 0 <= i < m.headers.len() ==> is_header_line(#[trigger] m.headers[i]),
    ensures
        split_lines(head_text(m.start_line, m.headers)) == seq![m.start_line] + m.headers
            + seq!["\r\n"@],
{
    reveal_strlit("\r\n");
    assert forall|i: int| 0 <= i < m.headers.len() implies is_single_line(#[trigger] m.headers[i]) by {
        lemma_header_line_is_single(m.headers[i]);
    }
    let end = "\r\n"@;
    assert(is_single_line(end));
    lemma_split_lines_front(end, Seq::empty());
    assert(end + Seq::<char>::empty() =~= end);
    assert(split_lines(Seq::<char>::empty()) =~= Seq::<Seq<char>>::empty());
    lemma_split_concat_lines(m.headers, end);
    assert(head_text(m.start_line, m.headers) =~= m.start_line + (concat_lines(m.headers) + end));
    lemma_split_lines_front(m.start_line, concat_lines(m.headers) + end);
    assert(seq![m.start_line] + (m.headers + (seq![end] + Seq::<Seq<char>>::empty())) =~= seq![
        m.start_line] + m.headers + seq![end]);
}

proof fn lemma_head_run_step(kind: HeadKind, evs: Seq<Result<Seq<char>, Seq<char>>>, i: int)
    requires
        0 <= i < evs.len(),
    ensures
        head_run(kind, evs.take(i + 1)) == head_step(head_run(kind, evs.take(i)), evs[i]),
{
    assert(evs.take(i + 1).drop_last() =~= evs.take(i));
}

/// After the start line and the first `j` header lines of a head, the parser
/// is reading headers and has kept those `j`.
proof fn lemma_head_headers_prefix(kind: HeadKind, m: MessageHead, e: Seq<char>, j: int)
    requires
        is_start_line(kind, m.start_line),
        forall|i: int| 0 <= i < m.headers.len() ==> is_header_line(#[trigger] m.headers[i]),
        0 <= j <= m.headers.len(),
    ensures
        head_run(kind, lines_read(seq![m.start_line] + m.headers + seq![e]).take(j + 1)) == (
        HeadModel {
            kind,
            phase: HeadPhase::ReadingHeaders,
            head: MessageHead { start_line: m.start_line, headers: m.headers.take(j) },
        }),
    decreases j,
{
    let lines = seq![m.start_line] + m.headers + seq![e];
    let evs = lines_read(lines);
    if j == 0 {
        assert(evs.take(0) =~= Seq::<Result<Seq<char>, Seq<char>>>::empty());
        lemma_head_run_step(kind, evs, 0);
        assert(evs[0] == Ok::<Seq<char>, Seq<char>>(m.start_line));
        assert(m.headers.take(0) =~= Seq::<Seq<char>>::empty());
    } else {
        lemma_head_headers_prefix(kind, m, e, j - 1);
        lemma_head_run_step(kind, evs, j);
        assert(lines[j] == m.headers[j - 1]);
        assert(is_header_line(m.headers[j - 1]));
        assert(header_step(Ok(m.headers[j - 1])) == Ok::<Option<Seq<char>>, Seq<char>>(
            Some(m.headers[j - 1]),
        ));
        assert(m.headers.take(j) =~= m.headers.take(j - 1).push(m.headers[j - 1]));
    }
}

/// Reading the lines of a head: a start line of the parser's kind, header
/// lines, and a line that ends the head (`\r\n` or `\n`), leaves the
/// parser complete with that head, so that it reads no further; the text of
/// the head is then the start line and the header lines as read, followed by
/// `\r\n`.
pub proof fn lemma_head_lines_parse(kind: HeadKind, m: MessageHead, e: Seq<char>)
    requires
        is_start_line(kind, m.start_line),
        forall|i: int| 0 <= i < m.headers.len() ==> is_header_line(#[trigger] m.headers[i]),
        is_end_of_headers(e),
    ensures
        head_run(kind, lines_read(seq![m.start_line] + m.headers + seq![e]))
            == (HeadModel { kind, phase: HeadPhase::Complete, head: m }),
        head_text(m.start_line, m.headers) == m.start_line + concat_lines(m.headers) + "\r\n"@,
{
    let lines = seq![m.start_line] + m.headers + seq![e];
    let evs = lines_read(lines);
    let n = m.headers.len() as int;
    lemma_head_headers_prefix(kind, m, e, n);
    lemma_head_run_step(kind, evs, n + 1);
    assert(lines[n + 1] == e);
    assert(!is_header_line(e)) by {
        if is_header_line(e) {
            lemma_header_line_not_end(e);
        }
    }
    assert(evs.take(n + 2) =~= evs);
    assert(m.headers.take(n) =~= m.headers);
}

/// What the proxy sends on is read back as it was: reading, line by line,
/// the text of a head whose start line is one line of the right kind and
/// whose headers are header lines leaves a parser complete with that same
/// head.
pub proof fn lemma_head_round_trip(kind: HeadKind, m: MessageHead)
    requires
        is_start_line(kind, m.start_line),
        is_single_line(m.start_line),
        forall|i: int| 0 <= i < m.headers.len() ==> is_header_line(#[trigger] m.headers[i]),
    ensures
        head_run(kind, lines_read(split_lines(head_text(m.start_line, m.headers))))
            == (HeadModel { kind, phase: HeadPhase::Complete, head: m }),
{
    lemma_head_text_lines(m);
    reveal_strlit("\r\n");
    assert("\r\n"@ =~= seq!['\r', '\n']);
    lemma_head_lines_parse(kind, m, "\r\n"@);
}

/// Appending a header changes the announced body length only if no earlier
/// header states a length and the new one does.
pub proof fn lemma_body_len_push(hs: Seq<Seq<char>>, h: Seq<char>)
    requires
        content_length_of(h) is None || exists|j: int|
            0 <= j < hs.len() && (#[trigger] content_length_of(hs[j])) is Some,
    ensures
        body_len_of(hs.push(h)) == body_len_of(hs),
    decreases hs.len(),
{
    if hs.len() > 0 {
        assert(hs.push(h)[0] == hs[0]);
        assert(hs.push(h).drop_first() =~= hs.drop_first().push(h));
        if content_length_of(hs[0]) is None {
            if content_length_of(h) is Some {
                let j = choose|j: int| 0 <= j < hs.len() && (#[trigger] content_length_of(hs[j])) is Some;
                assert(j > 0);
                assert(hs.drop_first()[j - 1] == hs[j]);
            }
            lemma_body_len_push(hs.drop_first(), h);
        }
    } else {
        assert(hs.push(h)[0] == h);
        assert(hs.push(h).drop_first() =~= hs);
    }
}

/// Adding a header that states no length to a message keeps its body
/// length, and so does adding any header after one that states a length.
pub proof fn lemma_add_header_body_len(m: MessageHead, h: Seq<char>)
    requires
        content_length_of(h) is None || exists|j: int|
            0 <= j < m.headers.len() && (#[trigger] content_length_of(m.headers[j])) is Some,
    ensures
        body_len_of(with_header(m, h).headers) == body_len_of(m.headers),
{
    lemma_body_len_push(m.headers, h);
}

/// The header `Content-Length: 0` states the length 0.
pub proof fn lemma_content_length_zero()
    ensures
        content_length_of("Content-Length: 0\r\n"@) == Some(0usize),
{
    reveal_strlit("Content-Length: 0\r\n");
    let s = "Content-Length: 0\r\n"@;
    assert(s.len() == 19);
    assert(content_length_name().len() == 15);
    assert forall|i: int| 0 <= i < 15 implies crate::httplineparser::matches_ignoring_case(
        #[trigger] s[i],
        content_length_name()[i],
    ) by {}
    assert(content_length_at(s, 16, 17));
    let (a, b) = choose|a: int, b: int| content_length_at(s, a, b);
    lemma_content_length_split_unique(s, 16, 17, a, b);
    let d = s.subrange(16, 17);
    assert(d.drop_last() =~= Seq::<char>::empty());
    assert(decimal_value(d.drop_last()) == 0);
    assert(d.last() == '0');
    assert(decimal_value(d) == 0);
}

/// The reply that reports an error announces an empty body.
pub proof fn lemma_error_reply_body_len(code: int, message: Seq<char>)
    ensures
        body_len_of(error_head(code, message).headers) == 0,
{
    lemma_content_length_zero();
    let hs = error_head(code, message).headers;
    assert(hs[0] == "Content-Length: 0\r\n"@);
    assert(hs.drop_first() =~= Seq::<Seq<char>>::empty());
}

/// A line that starts with `X` states no length: it is not a
/// `Content-Length` header.
proof fn lemma_x_header_states_no_length(l: Seq<char>)
    requires
        l.len() > 0,
        l[0] == 'X',
    ensures
        content_length_of(l) is None,
{
    assert forall|a: int, b: int| !content_length_at(l, a, b) by {
        if content_length_at(l, a, b) {
            assert(crate::httplineparser::matches_ignoring_case(l[0], content_length_name()[0]));
        }
    }
}

/// The headers that the proxy adds, `X-Forwarded-For` and `X-Backend`,
/// state no length, so adding them keeps the body length that a message
/// announces.
pub proof fn lemma_added_headers_keep_body_len(m: MessageHead, client: Seq<char>, backend: Seq<char>)
    ensures
        content_length_of(forwarded_for_text(client)) is None,
        content_length_of(backend_text(backend)) is None,
        body_len_of(with_header(m, forwarded_for_text(client)).headers) == body_len_of(m.headers),
        body_len_of(with_header(m, backend_text(backend)).headers) == body_len_of(m.headers),
{
    reveal_strlit("X-Forwarded-For: ");
    reveal_strlit("X-Backend: ");
    let f = forwarded_for_text(client);
    let b = backend_text(backend);
    assert(f[0] == 'X');
    assert(b[0] == 'X');
    lemma_x_header_states_no_length(f);
    lemma_x_header_states_no_length(b);
    lemma_add_header_body_len(m, f);
    lemma_add_header_body_len(m, b);
}

/// The state of a connection after the events `evs`, in order.
pub open spec fn proxy_run(m: ProxyModel, evs: Seq<EventModel>) -> ProxyModel
    decreases evs.len(),
{
    if evs.len() == 0 {
        m
    } else {
        proxy_step(proxy_run(m, evs.drop_last()), evs.last())
    }
}

/// Lines received, each read successfully.
pub open spec fn lines_received(lines: Seq<Seq<char>>) -> Seq<EventModel> {
    lines.map_values(|l: Seq<char>| EventModel::Line(Ok::<Seq<char>, Seq<char>>(l)))
}

proof fn lemma_proxy_run_step(m: ProxyModel, evs: Seq<EventModel>, i: int)
    requires
        0 <= i < evs.len(),
    ensures
        proxy_run(m, evs.take(i + 1)) == proxy_step(proxy_run(m, evs.take(i)), evs[i]),
{
    assert(evs.take(i + 1).drop_last() =~= evs.take(i));
}

/// While the head of a valid request is being read, the connection only
/// feeds its head parser.
proof fn lemma_proxy_reads_request_head(
    client: Seq<char>,
    backend: Seq<char>,
    m: MessageHead,
    e: Seq<char>,
    j: int,
)
    requires
        is_start_line(HeadKind::Request, m.start_line),
        forall|i: int| 0 <= i < m.headers.len() ==> is_header_line(#[trigger] m.headers[i]),
        is_end_of_headers(e),
        0 <= j <= m.headers.len() + 1,
    ensures
        proxy_run(
            proxy_initial(client, backend),
            lines_received(seq![m.start_line] + m.headers + seq![e]).take(j),
        ) == (ProxyModel {
            head: head_run(
                HeadKind::Request,
                lines_read(seq![m.start_line] + m.headers + seq![e]).take(j),
            ),
            ..proxy_initial(client, backend)
        }),
    decreases j,
{
    let lines = seq![m.start_line] + m.headers + seq![e];
    let evs = lines_received(lines);
    let reads = lines_read(lines);
    let init = proxy_initial(client, backend);
    if j == 0 {
        assert(evs.take(0) =~= Seq::<EventModel>::empty());
        assert(reads.take(0) =~= Seq::<Result<Seq<char>, Seq<char>>>::empty());
    } else {
        lemma_proxy_reads_request_head(client, backend, m, e, j - 1);
        lemma_proxy_run_step(init, evs, j - 1);
        lemma_head_run_step(HeadKind::Request, reads, j - 1);
        lemma_head_headers_prefix(HeadKind::Request, m, e, j - 1);
        assert(evs[j - 1] == EventModel::Line(reads[j - 1]));
    }
}

/// A connection that receives the head of a valid request (ended by `\r\n`
/// or `\n`) goes on to
/// connect to the backend, and will send it that request with an
/// `X-Forwarded-For` header naming the client at the end; the request body
/// it will pass is as long as the client's headers announce.
pub proof fn lemma_proxy_forwards_request(
    client: Seq<char>,
    backend: Seq<char>,
    m: MessageHead,
    e: Seq<char>,
)
    requires
        is_start_line(HeadKind::Request, m.start_line),
        forall|i: int| 0 <= i < m.headers.len() ==> is_header_line(#[trigger] m.headers[i]),
        is_end_of_headers(e),
    ensures
        ({
            let after = proxy_run(
                proxy_initial(client, backend),
                lines_received(seq![m.start_line] + m.headers + seq![e]),
            );
            let sent = with_header(m, forwarded_for_text(client));
            &&& after.phase == ProxyPhase::Connect
            &&& after.forwarded == head_text(sent.start_line, sent.headers)
            &&& after.length == body_len_of(m.headers)
            &&& after.transferred == 0
            &&& after.error is None
        }),
{
    let lines = seq![m.start_line] + m.headers + seq![e];
    let evs = lines_received(lines);
    let reads = lines_read(lines);
    let n = m.headers.len() as int;
    let init = proxy_initial(client, backend);
    lemma_proxy_reads_request_head(client, backend, m, e, n + 1);
    lemma_proxy_run_step(init, evs, n + 1);
    lemma_head_run_step(HeadKind::Request, reads, n + 1);
    lemma_head_lines_parse(HeadKind::Request, m, e);
    assert(evs.take(n + 2) =~= evs);
    assert(reads.take(n + 2) =~= reads);
    assert(evs[n + 1] == EventModel::Line(reads[n + 1]));
    lemma_added_headers_keep_body_len(m, client, backend);
}

/// A connection whose first line is not a request line ends at once with
/// the error 400 `Malformed request: malformed request headers`.
pub proof fn lemma_proxy_refuses_bad_request_line(client: Seq<char>, backend: Seq<char>, l: Seq<char>)
    requires
        !is_start_line(HeadKind::Request, l),
    ensures
        ({
            let after = proxy_step(proxy_initial(client, backend), EventModel::Line(Ok(l)));
            &&& after.phase == ProxyPhase::Finished
            &&& after.error == Some((400int, "Malformed request: "@ + start_line_error(HeadKind::Request)))
        }),
{
}

/// While the head of a valid response is being read, the connection only
/// feeds its head parser.
proof fn lemma_proxy_reads_response_head(m0: ProxyModel, r: MessageHead, e: Seq<char>, j: int)
    requires
        m0.phase == ProxyPhase::ResponseHead,
        m0.head == head_initial(HeadKind::Response),
        is_start_line(HeadKind::Response, r.start_line),
        forall|i: int| 0 <= i < r.headers.len() ==> is_header_line(#[trigger] r.headers[i]),
        is_end_of_headers(e),
        0 <= j <= r.headers.len() + 1,
    ensures
        proxy_run(m0, lines_received(seq![r.start_line] + r.headers + seq![e]).take(j)) == (
        ProxyModel {
            head: head_run(
                HeadKind::Response,
                lines_read(seq![r.start_line] + r.headers + seq![e]).take(j),
            ),
            ..m0
        }),
    decreases j,
{
    let lines = seq![r.start_line] + r.headers + seq![e];
    let evs = lines_received(lines);
    let reads = lines_read(lines);
    if j == 0 {
        assert(evs.take(0) =~= Seq::<EventModel>::empty());
        assert(reads.take(0) =~= Seq::<Result<Seq<char>, Seq<char>>>::empty());
    } else {
        lemma_proxy_reads_response_head(m0, r, e, j - 1);
        lemma_proxy_run_step(m0, evs, j - 1);
        lemma_head_run_step(HeadKind::Response, reads, j - 1);
        lemma_head_headers_prefix(HeadKind::Response, r, e, j - 1);
        assert(evs[j - 1] == EventModel::Line(reads[j - 1]));
    }
}

/// A connection waiting for the backend's response that receives the head
/// of a valid response goes on to send the client that response with an
/// `X-Backend` header at the end (whichever line ended the head it read);
/// the response body it will pass is as long as the backend's headers
/// announce.
pub proof fn lemma_proxy_returns_response(m0: ProxyModel, r: MessageHead, e: Seq<char>)
    requires
        m0.phase == ProxyPhase::ResponseHead,
        m0.head == head_initial(HeadKind::Response),
        is_start_line(HeadKind::Response, r.start_line),
        forall|i: int| 0 <= i < r.headers.len() ==> is_header_line(#[trigger] r.headers[i]),
        is_end_of_headers(e),
    ensures
        ({
            let after = proxy_run(m0, lines_received(seq![r.start_line] + r.headers + seq![e]));
            let sent = with_header(r, m0.backend_header);
            &&& after.phase == ProxyPhase::SendResponse
            &&& after.reply == head_text(sent.start_line, sent.headers)
            &&& after.length == body_len_of(sent.headers)
            &&& after.transferred == 0
            &&& after.error == m0.error
        }),
{
    let lines = seq![r.start_line] + r.headers + seq![e];
    let evs = lines_received(lines);
    let reads = lines_read(lines);
    let n = r.headers.len() as int;
    lemma_proxy_reads_response_head(m0, r, e, n + 1);
    lemma_proxy_run_step(m0, evs, n + 1);
    lemma_head_run_step(HeadKind::Response, reads, n + 1);
    lemma_head_lines_parse(HeadKind::Response, r, e);
    assert(evs.take(n + 2) =~= evs);
    assert(reads.take(n + 2) =~= reads);
    assert(evs[n + 1] == EventModel::Line(reads[n + 1]));
}

/// After the request head is sent, the connection passes the request body
/// only while less than the announced length has passed: with nothing
/// announced it goes straight to reading the response.
pub proof fn lemma_proxy_request_body_bound(m: ProxyModel)
    requires
        m.phase == ProxyPhase::SendRequest || m.phase == ProxyPhase::WriteRequestBody,
    ensures
        proxy_step(m, EventModel::Done).phase == (if m.transferred < m.length {
            ProxyPhase::ReadRequestBody
        } else {
            ProxyPhase::ResponseHead
        }),
{
}

/// After the response head is sent, the connection passes the response body
/// only while less than the announced length has passed, and then finishes:
/// with nothing announced it finishes at once.
pub proof fn lemma_proxy_response_body_bound(m: ProxyModel)
    requires
        m.phase == ProxyPhase::SendResponse || m.phase == ProxyPhase::WriteResponseBody,
    ensures
        proxy_step(m, EventModel::Done).phase == (if m.transferred < m.length {
            ProxyPhase::ReadResponseBody
        } else {
            ProxyPhase::Finished
        }),
        proxy_step(m, EventModel::Done).transferred == m.transferred,
        proxy_step(m, EventModel::Done).error == m.error,
{
}

/// Bodies are streamed: a piece read from one side is passed to the other
/// as exactly the bytes read, and counts toward the announced length.
pub proof fn lemma_proxy_streams_what_was_read(m: ProxyModel, n: nat)
    ensures
        m.phase == ProxyPhase::ReadRequestBody ==> {
            let after = proxy_step(m, EventModel::Read(n));
            &&& proxy_action(after) == ActionModel::ForwardToBackend(n)
            &&& after.transferred == m.transferred + n
        },
        m.phase == ProxyPhase::ReadResponseBody ==> {
            let after = proxy_step(m, EventModel::Read(n));
            &&& proxy_action(after) == ActionModel::ForwardToClient(n)
            &&& after.transferred == m.transferred + n
        },
{
}

/// A finished connection stays as it is, whatever happens.
pub proof fn lemma_proxy_finished_stays(m: ProxyModel, ev: EventModel)
    requires
        m.phase == ProxyPhase::Finished,
    ensures
        proxy_step(m, ev) == m,
{
}

// ---------------------------------------------------------------------------
// Lines built from their parts
// ---------------------------------------------------------------------------

/// A request line is a method of ASCII letters and digits, a space, a
/// target without white space (any other character, `%` included), a space,
/// `HTTP/`, two ASCII digits around a `.`, and `\r\n` or `\n`.
pub proof fn lemma_request_line_from_parts(
    method: Seq<char>,
    target: Seq<char>,
    a: char,
    b: char,
    end: Seq<char>,
)
    requires
        forall|i: int| 0 <= i < method.len() ==> is_ascii_alnum(#[trigger] method[i]),
        forall|i: int| 0 <= i < target.len() ==> !is_ws(#[trigger] target[i]),
        is_ascii_digit(a),
        is_ascii_digit(b),
        end == seq!['\n'] || end == seq!['\r', '\n'],
    ensures
        is_request_line(
            method + seq![' '] + target + seq![' '] + seq!['H', 'T', 'T', 'P', '/', a, '.', b] + end,
        ),
{
    let s = method + seq![' '] + target + seq![' '] + seq!['H', 'T', 'T', 'P', '/', a, '.', b] + end;
    let a0 = method.len() as int;
    let b0 = a0 + 1;
    let c0 = b0 + target.len() as int;
    let d = c0 + 1;
    assert forall|i: int| 0 <= i < a0 implies is_ascii_alnum(#[trigger] s[i]) by {
        assert(s[i] == method[i]);
    }
    assert(s[a0] == ' ');
    assert forall|i: int| a0 <= i < b0 implies is_ws(#[trigger] s[i]) by {
        assert(s[i] == ' ');
    }
    assert forall|i: int| b0 <= i < c0 implies !is_ws(#[trigger] s[i]) by {
        assert(s[i] == target[i - b0]);
    }
    assert forall|i: int| c0 <= i < d implies is_ws(#[trigger] s[i]) by {
        assert(s[i] == ' ');
    }
    assert(request_head_at(s, a0, b0, c0, d));
    assert(s[d] == 'H' && s[d + 1] == 'T' && s[d + 2] == 'T' && s[d + 3] == 'P' && s[d + 4] == '/');
    assert(s[d + 5] == a && s[d + 6] == '.' && s[d + 7] == b);
    if end == seq!['\n'] {
        assert(s[d + 8] == '\n');
    } else {
        assert(s[d + 8] == '\r' && s[d + 9] == '\n');
    }
    assert(is_version_tail(s, d));
    assert(request_line_at(s, d));
}

/// A status line is `HTTP/`, two ASCII digits around any character but a
/// line feed, white space, any three ASCII digits, white space, a non-empty
/// phrase of word characters and white space, and `\r\n` or `\n`.
pub proof fn lemma_status_line_from_parts(
    a: char,
    dot: char,
    b: char,
    ws1: Seq<char>,
    x: char,
    y: char,
    z: char,
    ws2: Seq<char>,
    phrase: Seq<char>,
    end: Seq<char>,
)
    requires
        is_ascii_digit(a),
        dot != '\n',
        is_ascii_digit(b),
        ws1.len() > 0,
        forall|i: int| 0 <= i < ws1.len() ==> is_ws(#[trigger] ws1[i]),
        is_ascii_digit(x),
        is_ascii_digit(y),
        is_ascii_digit(z),
        ws2.len() > 0,
        forall|i: int| 0 <= i < ws2.len() ==> is_ws(#[trigger] ws2[i]),
        phrase.len() > 0,
        forall|i: int| 0 <= i < phrase.len() ==> is_word_class(#[trigger] phrase[i]) || is_ws(phrase[i]),
        end == seq!['\n'] || end == seq!['\r', '\n'],
    ensures
        is_status_line(
            seq!['H', 'T', 'T', 'P', '/', a, dot, b] + ws1 + seq![x, y, z] + ws2 + phrase + end,
        ),
{
    let s = seq!['H', 'T', 'T', 'P', '/', a, dot, b] + ws1 + seq![x, y, z] + ws2 + phrase + end;
    let n = s.len() as int;
    let e = 8 + ws1.len() as int;
    let f = e + 3 + ws2.len() as int;
    let g = f + phrase.len() as int;
    assert(s[0] == 'H' && s[1] == 'T' && s[2] == 'T' && s[3] == 'P' && s[4] == '/');
    assert(s[5] == a && s[6] == dot && s[7] == b);
    assert forall|i: int| 8 <= i < e implies is_ws(#[trigger] s[i]) by {
        assert(s[i] == ws1[i - 8]);
    }
    assert(s[e] == x && s[e + 1] == y && s[e + 2] == z);
    assert forall|i: int| e + 3 <= i < f implies is_ws(#[trigger] s[i]) by {
        assert(s[i] == ws2[i - e - 3]);
    }
    assert forall|i: int| f <= i < g implies is_word_class(#[trigger] s[i]) || is_ws(s[i]) by {
        assert(s[i] == phrase[i - f]);
    }
    if end == seq!['\n'] {
        assert(g == n - 1);
        assert(s[n - 1] == '\n');
    } else {
        assert(g == n - 2);
        assert(s[n - 2] == '\r');
        assert(s[n - 1] == '\n');
    }
    assert(status_tail_at(s, e, f, g));
    assert(status_line_at(s, e, f, g));
}

/// A `Content-Length` header with ASCII digits states their value, when it
/// fits in a `usize`.
pub proof fn lemma_content_length_of_digits(d: Seq<char>)
    requires
        d.len() > 0,
        forall|i: int| 0 <= i < d.len() ==> is_ascii_digit(#[trigger] d[i]),
        decimal_value(d) <= usize::MAX,
    ensures
        content_length_of(seq!['C', 'o', 'n', 't', 'e', 'n', 't', '-', 'L', 'e', 'n', 'g', 't', 'h', ':', ' '] + d + seq!['\r', '\n'])
            == Some(decimal_value(d) as usize),
{
    let p = seq!['C', 'o', 'n', 't', 'e', 'n', 't', '-', 'L', 'e', 'n', 'g', 't', 'h', ':', ' '];
    let s = p + d + seq!['\r', '\n'];
    let n = s.len() as int;
    let a = 16int;
    let b = 16 + d.len() as int;
    assert forall|i: int| 0 <= i < 15 implies crate::httplineparser::matches_ignoring_case(
        #[trigger] s[i],
        content_length_name()[i],
    ) by {
        assert(s[i] == p[i]);
    }
    assert(s[15] == ' ');
    assert forall|i: int| a <= i < b implies is_ascii_digit(#[trigger] s[i]) by {
        assert(s[i] == d[i - a]);
    }
    assert forall|i: int| b <= i < n implies is_ws(#[trigger] s[i]) by {
        assert(s[i] == '\r' || s[i] == '\n');
    }
    assert(content_length_at(s, a, b));
    let (a2, b2) = choose|a2: int, b2: int| content_length_at(s, a2, b2);
    lemma_content_length_split_unique(s, a, b, a2, b2);
    assert(s.subrange(a, b) =~= d);
}

// ---------------------------------------------------------------------------
// Head parsers take the recognisers' lines
// ---------------------------------------------------------------------------

/// A fresh head parser takes as start line exactly the lines that the
/// recogniser of its kind accepts: it keeps the line and goes on to read
/// headers; any other line stops it with the kind's reason.
pub proof fn lemma_head_parser_takes_start_lines(l: Seq<char>)
    ensures
        is_request_line(l) ==> head_step(head_initial(HeadKind::Request), Ok(l)) == (HeadModel {
            kind: HeadKind::Request,
            phase: HeadPhase::ReadingHeaders,
            head: MessageHead { start_line: l, headers: Seq::empty() },
        }),
        !is_request_line(l) ==> head_step(head_initial(HeadKind::Request), Ok(l)).phase
            == HeadPhase::Failed("malformed request headers"@),
        is_status_line(l) ==> head_step(head_initial(HeadKind::Response), Ok(l)) == (HeadModel {
            kind: HeadKind::Response,
            phase: HeadPhase::ReadingHeaders,
            head: MessageHead { start_line: l, headers: Seq::empty() },
        }),
        !is_status_line(l) ==> head_step(head_initial(HeadKind::Response), Ok(l)).phase
            == HeadPhase::Failed("malformed status line"@),
{
}

/// A head parser reading headers keeps every header line, in order.
pub proof fn lemma_head_parser_keeps_header_lines(m: HeadModel, l: Seq<char>)
    requires
        m.phase == HeadPhase::ReadingHeaders,
        is_header_line(l),
    ensures
        head_step(m, Ok(l)) == (HeadModel {
            head: MessageHead { start_line: m.head.start_line, headers: m.head.headers.push(l) },
            ..m
        }),
{
}

// ---------------------------------------------------------------------------
// The announced body length
// ---------------------------------------------------------------------------

/// The announced body length is the value that the first header stating a
/// length states.
pub proof fn lemma_body_len_first_stated(hs: Seq<Seq<char>>, i: int, n: usize)
    requires
        0 <= i < hs.len(),
        content_length_of(hs[i]) == Some(n),
        forall|j: int| 0 <= j < i ==> content_length_of(#[trigger] hs[j]) is None,
    ensures
        body_len_of(hs) == n,
    decreases i,
{
    if i > 0 {
        let t = hs.drop_first();
        assert(content_length_of(hs[0]) is None);
        assert forall|j: int| 0 <= j < i - 1 implies content_length_of(#[trigger] t[j]) is None by {
            assert(t[j] == hs[j + 1]);
        }
        assert(t[i - 1] == hs[i]);
        lemma_body_len_first_stated(t, i - 1, n);
    }
}

/// With no header stating a length, the announced body length is 0.
pub proof fn lemma_body_len_none_stated(hs: Seq<Seq<char>>)
    requires
        forall|j: int| 0 <= j < hs.len() ==> content_length_of(#[trigger] hs[j]) is None,
    ensures
        body_len_of(hs) == 0,
    decreases hs.len(),
{
    if hs.len() > 0 {
        let t = hs.drop_first();
        assert(content_length_of(hs[0]) is None);
        assert forall|j: int| 0 <= j < t.len() implies content_length_of(#[trigger] t[j]) is None by {
            assert(t[j] == hs[j + 1]);
        }
        lemma_body_len_none_stated(t);
    }
}

// ---------------------------------------------------------------------------
// Bodies are passed in full
// ---------------------------------------------------------------------------

/// The sum of read sizes.
pub open spec fn total(ns: Seq<nat>) -> nat
    decreases ns.len(),
{
    if ns.len() == 0 {
        0
    } else {
        total(ns.drop_last()) + ns.last()
    }
}

/// Each read of `ns` followed by a successful write.
pub open spec fn pieces(ns: Seq<nat>) -> Seq<EventModel>
    decreases ns.len(),
{
    if ns.len() == 0 {
        Seq::empty()
    } else {
        pieces(ns.drop_last()) + seq![EventModel::Read(ns.last()), EventModel::Done]
    }
}

proof fn lemma_proxy_run_append(m: ProxyModel, a: Seq<EventModel>, b: Seq<EventModel>)
    ensures
        proxy_run(m, a + b) == proxy_run(proxy_run(m, a), b),
    decreases b.len(),
{
    if b.len() == 0 {
        assert(a + b =~= a);
    } else {
        assert((a + b).drop_last() =~= a + b.drop_last());
        lemma_proxy_run_append(m, a, b.drop_last());
    }
}

/// Once the response head has gone to the client, the connection reads and
/// passes pieces of the response body while less than the announced length
/// has been read: after pieces of sizes `ns`, each read while the total so
/// far was short of the length, it has counted their total and is reading
/// more exactly when the total is still short, else it is done, without an
/// error.
pub proof fn lemma_proxy_passes_response_body(m: ProxyModel, ns: Seq<nat>)
    requires
        m.phase == ProxyPhase::SendResponse,
        m.transferred == 0,
        forall|i: int| 0 <= i < ns.len() ==> total(#[trigger] ns.take(i)) < m.length,
    ensures
        ({
            let after = proxy_run(m, seq![EventModel::Done] + pieces(ns));
            &&& after.transferred == total(ns)
            &&& after.phase == (if total(ns) < m.length {
                ProxyPhase::ReadResponseBody
            } else {
                ProxyPhase::Finished
            })
            &&& after.length == m.length
            &&& after.error == m.error
        }),
    decreases ns.len(),
{
    let first = seq![EventModel::Done];
    if ns.len() == 0 {
        assert(first + pieces(ns) =~= first);
        assert(first.drop_last() =~= Seq::<EventModel>::empty());
        assert(proxy_run(m, first) == proxy_step(proxy_run(m, Seq::<EventModel>::empty()), EventModel::Done));
        assert(total(ns) == 0);
    } else {
        let init = ns.drop_last();
        assert forall|i: int| 0 <= i < init.len() implies total(#[trigger] init.take(i)) < m.length by {
            assert(init.take(i) =~= ns.take(i));
        }
        lemma_proxy_passes_response_body(m, init);
        let k = init.len() as int;
        assert(ns.take(k) =~= init);
        assert(total(init) < m.length);
        let two = seq![EventModel::Read(ns.last()), EventModel::Done];
        assert(first + pieces(ns) =~= (first + pieces(init)) + two);
        lemma_proxy_run_append(m, first + pieces(init), two);
        let mid = proxy_run(m, first + pieces(init));
        let one = seq![EventModel::Read(ns.last())];
        assert(two.drop_last() =~= one);
        assert(one.drop_last() =~= Seq::<EventModel>::empty());
        assert(proxy_run(mid, one) == proxy_step(proxy_run(mid, Seq::<EventModel>::empty()), EventModel::Read(ns.last())));
        assert(proxy_run(mid, two) == proxy_step(proxy_run(mid, one), EventModel::Done));
        assert(total(ns) == total(init) + ns.last());
    }
}

/// The same for the request body, once the request head has gone to the
/// backend.
pub proof fn lemma_proxy_passes_request_body(m: ProxyModel, ns: Seq<nat>)
    requires
        m.phase == ProxyPhase::SendRequest,
        m.transferred == 0,
        forall|i: int| 0 <= i < ns.len() ==> total(#[trigger] ns.take(i)) < m.length,
    ensures
        ({
            let after = proxy_run(m, seq![EventModel::Done] + pieces(ns));
            &&& after.transferred == total(ns)
            &&& after.phase == (if total(ns) < m.length {
                ProxyPhase::ReadRequestBody
            } else {
                ProxyPhase::ResponseHead
            })
            &&& after.length == m.length
            &&& after.error == m.error
        }),
    decreases ns.len(),
{
    let first = seq![EventModel::Done];
    if ns.len() == 0 {
        assert(first + pieces(ns) =~= first);
        assert(first.drop_last() =~= Seq::<EventModel>::empty());
        assert(proxy_run(m, first) == proxy_step(proxy_run(m, Seq::<EventModel>::empty()), EventModel::Done));
        assert(total(ns) == 0);
    } else {
        let init = ns.drop_last();
        assert forall|i: int| 0 <= i < init.len() implies total(#[trigger] init.take(i)) < m.length by {
            assert(init.take(i) =~= ns.take(i));
        }
        lemma_proxy_passes_request_body(m, init);
        let k = init.len() as int;
        assert(ns.take(k) =~= init);
        assert(total(init) < m.length);
        let two = seq![EventModel::Read(ns.last()), EventModel::Done];
        assert(first + pieces(ns) =~= (first + pieces(init)) + two);
        lemma_proxy_run_append(m, first + pieces(init), two);
        let mid = proxy_run(m, first + pieces(init));
        let one = seq![EventModel::Read(ns.last())];
        assert(two.drop_last() =~= one);
        assert(one.drop_last() =~= Seq::<EventModel>::empty());
        assert(proxy_run(mid, one) == proxy_step(proxy_run(mid, Seq::<EventModel>::empty()), EventModel::Read(ns.last())));
        assert(proxy_run(mid, two) == proxy_step(proxy_run(mid, one), EventModel::Done));
        assert(total(ns) == total(init) + ns.last());
    }
}

// ---------------------------------------------------------------------------
// Texts and numbers
// ---------------------------------------------------------------------------

/// The decimal text of a number is ASCII digits, without a leading zero
/// unless it is `0`, and reads back as that number.
pub proof fn lemma_nat_text_reads_back(n: nat)
    ensures
        nat_text(n).len() > 0,
        forall|i: int| 0 <= i < nat_text(n).len() ==> is_ascii_digit(#[trigger] nat_text(n)[i]),
        n > 0 ==> nat_text(n)[0] != '0',
        decimal_value(nat_text(n)) == n,
    decreases n,
{
    let d = (n % 10) as nat;
    let c = crate::httperrors::digit_char(d);
    assert((c as u32) == 0x30 + d) by {
        assert(0x30 + d < 0x3a);
    }
    if n < 10 {
        let t = nat_text(n);
        assert(t =~= seq![c]);
        assert(t.drop_last() =~= Seq::<char>::empty());
        assert(decimal_value(Seq::<char>::empty()) == 0);
        assert(decimal_value(t) == decimal_value(t.drop_last()) * 10 + crate::charclass::digit_value(t.last()));
    } else {
        lemma_nat_text_reads_back(n / 10);
        let t = nat_text(n);
        let h = nat_text(n / 10);
        assert(t == h.push(c));
        assert(t.drop_last() =~= h);
        assert forall|i: int| 0 <= i < t.len() implies is_ascii_digit(#[trigger] t[i]) by {
            if i < h.len() {
                assert(t[i] == h[i]);
            }
        }
        assert(t[0] == h[0]);
        assert(decimal_value(t) == decimal_value(t.drop_last()) * 10 + crate::charclass::digit_value(t.last()));
        assert(decimal_value(t) == decimal_value(h) * 10 + d);
        assert((n / 10) * 10 + n % 10 == n);
    }
}

/// The text of a negative number is `-` and the text of its magnitude; that
/// of any other number is its decimal text.
pub proof fn lemma_int_text_sign(n: int)
    ensures
        n < 0 ==> int_text(n) == seq!['-'] + nat_text((-n) as nat),
        n >= 0 ==> int_text(n) == nat_text(n as nat),
{
}

/// One ASCII digit has its own value, and appending digits shifts the value
/// of the front by a power of ten: decimal values are base ten.
pub proof fn lemma_decimal_value_base_ten(d1: Seq<char>, c: char)
    requires
        is_ascii_digit(c),
    ensures
        decimal_value(seq![c]) == (c as u32) - 0x30,
        decimal_value(d1.push(c)) == decimal_value(d1) * 10 + ((c as u32) - 0x30),
{
    assert(seq![c].drop_last() =~= Seq::<char>::empty());
    assert(decimal_value(Seq::<char>::empty()) == 0);
    assert(decimal_value(seq![c]) == decimal_value(seq![c].drop_last()) * 10 + crate::charclass::digit_value(c));
    assert(d1.push(c).drop_last() =~= d1);
}

/// The message of an error is its prefix followed by its detail.
pub proof fn lemma_message_parts(prefix: Seq<char>, detail: Seq<char>)
    ensures
        message_of(prefix, detail).len() == prefix.len() + detail.len(),
        message_of(prefix, detail).take(prefix.len() as int) == prefix,
        message_of(prefix, detail).skip(prefix.len() as int) == detail,
{
    assert(message_of(prefix, detail).take(prefix.len() as int) =~= prefix);
    assert(message_of(prefix, detail).skip(prefix.len() as int) =~= detail);
}

/// The status line of an error reply: `HTTP/1.0`, a space, the code, a
/// space, the message, and `\r\n`.
pub proof fn lemma_error_status_line_text(code: int, message: Seq<char>)
    ensures
        error_head(code, message).start_line == error_status_line(code, message),
        error_head(code, message).headers == seq![
            seq!['C', 'o', 'n', 't', 'e', 'n', 't', '-', 'L', 'e', 'n', 'g', 't', 'h', ':', ' ', '0', '\r', '\n'],
        ],
        error_status_line(code, message) == seq!['H', 'T', 'T', 'P', '/', '1', '.', '0', ' ']
            + int_text(code) + seq![' '] + message + seq!['\r', '\n'],
{
    reveal_strlit("HTTP/1.0 ");
    reveal_strlit(" ");
    reveal_strlit("Content-Length: 0\r\n");
    assert("Content-Length: 0\r\n"@ =~= seq!['C', 'o', 'n', 't', 'e', 'n', 't', '-', 'L', 'e', 'n', 'g', 't', 'h', ':', ' ', '0', '\r', '\n']);
    assert(error_head(code, message).headers =~= seq![
        seq!['C', 'o', 'n', 't', 'e', 'n', 't', '-', 'L', 'e', 'n', 'g', 't', 'h', ':', ' ', '0', '\r', '\n'],
    ]);
    reveal_strlit("\r\n");
    assert(error_status_line(code, message) =~= seq!['H', 'T', 'T', 'P', '/', '1', '.', '0', ' ']
        + int_text(code) + seq![' '] + message + seq!['\r', '\n']);
}

/// The headers that the proxy adds: `X-Forwarded-For: <client>\r\n` and
/// `X-Backend: <backend>\r\n`.
pub proof fn lemma_added_header_texts(client: Seq<char>, backend: Seq<char>)
    ensures
        forwarded_for_text(client) == seq![
            'X', '-', 'F', 'o', 'r', 'w', 'a', 'r', 'd', 'e', 'd', '-', 'F', 'o', 'r', ':', ' ',
        ] + client + seq!['\r', '\n'],
        backend_text(backend) == seq!['X', '-', 'B', 'a', 'c', 'k', 'e', 'n', 'd', ':', ' ']
            + backend + seq!['\r', '\n'],
{
    reveal_strlit("X-Forwarded-For: ");
    reveal_strlit("X-Backend: ");
    reveal_strlit("\r\n");
    assert(forwarded_for_text(client) =~= seq![
        'X', '-', 'F', 'o', 'r', 'w', 'a', 'r', 'd', 'e', 'd', '-', 'F', 'o', 'r', ':', ' ',
    ] + client + seq!['\r', '\n']);
    assert(backend_text(backend) =~= seq!['X', '-', 'B', 'a', 'c', 'k', 'e', 'n', 'd', ':', ' ']
        + backend + seq!['\r', '\n']);
}

/// An added header goes after all the others; the start line stays.
pub proof fn lemma_added_header_goes_last(m: MessageHead, h: Seq<char>)
    ensures
        with_header(m, h).start_line == m.start_line,
        with_header(m, h).headers.len() == m.headers.len() + 1,
        with_header(m, h).headers.last() == h,
        with_header(m, h).headers.drop_last() == m.headers,
{
    assert(with_header(m, h).headers.drop_last() =~= m.headers);
}

/// The text of a head is its start line, each header line in order, and
/// `\r\n`.
pub proof fn lemma_head_text_parts(p: Seq<char>, hs: Seq<Seq<char>>, h: Seq<char>)
    ensures
        head_text(p, Seq::empty()) == p + seq!['\r', '\n'],
        head_text(p, hs.push(h)) == p + concat_lines(hs) + h + seq!['\r', '\n'],
{
    reveal_strlit("\r\n");
    assert(concat_lines(Seq::<Seq<char>>::empty()) =~= Seq::<char>::empty());
    assert(head_text(p, Seq::empty()) =~= p + seq!['\r', '\n']);
    assert(hs.push(h).drop_last() =~= hs);
    assert(head_text(p, hs.push(h)) =~= p + concat_lines(hs) + h + seq!['\r', '\n']);
}

// ---------------------------------------------------------------------------
// What stops a head parser, and what ends a connection
// ---------------------------------------------------------------------------

/// A head parser reading headers: the line that ends a head completes it,
/// a failed read stops it with the read's reason, and a line that is
/// neither a header line nor an end line stops it with `Invalid header`.
pub proof fn lemma_head_parser_stops(m: HeadModel, l: Seq<char>, e: Seq<char>)
    requires
        m.phase == HeadPhase::ReadingHeaders,
    ensures
        is_end_of_headers(l) ==> head_step(m, Ok(l)) == (HeadModel { phase: HeadPhase::Complete, ..m }),
        head_step(m, Err(e)).phase == HeadPhase::Failed(e),
        !is_header_line(l) && !is_end_of_headers(l) ==> head_step(m, Ok(l)).phase == HeadPhase::Failed(
            seq!['I', 'n', 'v', 'a', 'l', 'i', 'd', ' ', 'h', 'e', 'a', 'd', 'e', 'r'],
        ),
{
    reveal_strlit("Invalid header");
    assert("Invalid header"@ =~= seq!['I', 'n', 'v', 'a', 'l', 'i', 'd', ' ', 'h', 'e', 'a', 'd', 'e', 'r']);
    if is_end_of_headers(l) && is_header_line(l) {
        lemma_header_line_not_end(l);
    }
}

/// The error each failure ends a connection with: a read of the request
/// head that fails gives 400 `Malformed request: <reason>`; one of the
/// response head gives 502 `Bad gateway: <reason>`; a failed connect, write
/// to the backend or read from it gives 504 `Gateway timeout: <text>`; a
/// failed read from the client or write to it gives 408
/// `Client timeout: <text>`; a failed write of the response head is passed
/// over.
pub proof fn lemma_proxy_failure_codes(m: ProxyModel, t: Seq<char>)
    ensures
        m.phase == ProxyPhase::RequestHead && m.head.phase == HeadPhase::ReadingHeaders ==> proxy_step(
            m,
            EventModel::Line(Err(t)),
        ).error == Some((400int, seq!['M', 'a', 'l', 'f', 'o', 'r', 'm', 'e', 'd', ' ', 'r', 'e', 'q', 'u', 'e', 's', 't', ':', ' '] + t)),
        m.phase == ProxyPhase::ResponseHead && m.head.phase == HeadPhase::ReadingHeaders ==> proxy_step(
            m,
            EventModel::Line(Err(t)),
        ).error == Some((502int, seq!['B', 'a', 'd', ' ', 'g', 'a', 't', 'e', 'w', 'a', 'y', ':', ' '] + t)),
        (m.phase == ProxyPhase::Connect || m.phase == ProxyPhase::SendRequest || m.phase
            == ProxyPhase::WriteRequestBody || m.phase == ProxyPhase::ReadResponseBody) ==> {
            let after = proxy_step(m, EventModel::Failed(t));
            &&& after.phase == ProxyPhase::Finished
            &&& after.error == Some((504int, seq!['G', 'a', 't', 'e', 'w', 'a', 'y', ' ', 't', 'i', 'm', 'e', 'o', 'u', 't', ':', ' '] + t))
        },
        (m.phase == ProxyPhase::ReadRequestBody || m.phase == ProxyPhase::WriteResponseBody) ==> {
            let after = proxy_step(m, EventModel::Failed(t));
            &&& after.phase == ProxyPhase::Finished
            &&& after.error == Some((408int, seq!['C', 'l', 'i', 'e', 'n', 't', ' ', 't', 'i', 'm', 'e', 'o', 'u', 't', ':', ' '] + t))
        },
        m.phase == ProxyPhase::SendResponse ==> proxy_step(m, EventModel::Failed(t)) == proxy_step(
            m,
            EventModel::Done,
        ),
{
    reveal_strlit("Malformed request: ");
    reveal_strlit("Bad gateway: ");
    reveal_strlit("Gateway timeout: ");
    reveal_strlit("Client timeout: ");
    assert("Malformed request: "@ =~= seq!['M', 'a', 'l', 'f', 'o', 'r', 'm', 'e', 'd', ' ', 'r', 'e', 'q', 'u', 'e', 's', 't', ':', ' ']);
    assert("Bad gateway: "@ =~= seq!['B', 'a', 'd', ' ', 'g', 'a', 't', 'e', 'w', 'a', 'y', ':', ' ']);
    assert("Gateway timeout: "@ =~= seq!['G', 'a', 't', 'e', 'w', 'a', 'y', ' ', 't', 'i', 'm', 'e', 'o', 'u', 't', ':', ' ']);
    assert("Client timeout: "@ =~= seq!['C', 'l', 'i', 'e', 'n', 't', ' ', 't', 'i', 'm', 'e', 'o', 'u', 't', ':', ' ']);
}

// ---------------------------------------------------------------------------
// The classes, and what every accepted line looks like
// ---------------------------------------------------------------------------

/// A character that may stand in a header name: an ASCII letter or digit, or
/// one of ``!#$%&'*+,-.^_`|``.
pub open spec fn is_name_symbol(c: char) -> bool {
    c == '!' || c == '#' || c == '$' || c == '%' || c == '&' || c == '\'' || c == '*' || c == '+'
        || c == ',' || c == '-' || c == '.' || c == '^' || c == '_' || c == '`' || c == '|'
}

/// Among ASCII characters, header-name characters are the letters, the
/// digits and the symbols ``!#$%&'*+,-.^_`|``; word characters are the
/// letters, the digits and `_`; digits are `0` to `9`. No character beyond
/// ASCII is a header-name character.
pub proof fn lemma_ascii_classes(c: char)
    ensures
        is_token_char(c) <==> (is_ascii_alnum(c) || is_name_symbol(c)),
        is_ascii_alnum(c) <==> ('0' <= c <= '9' || 'A' <= c <= 'Z' || 'a' <= c <= 'z'),
        (c as u32) < 0x80 ==> (is_word_class(c) <==> (is_ascii_alnum(c) || c == '_')),
        (c as u32) < 0x80 ==> (is_digit_class(c) <==> '0' <= c <= '9'),
{
}

/// A header line is a name of header-name characters, a colon, a value
/// without line breaks, and `\r\n` or `\n`.
pub proof fn lemma_header_line_from_parts(name: Seq<char>, value: Seq<char>, end: Seq<char>)
    requires
        name.len() > 0,
        forall|i: int| 0 <= i < name.len() ==> is_ascii_alnum(#[trigger] name[i]) || is_name_symbol(name[i]),
        forall|i: int| 0 <= i < value.len() ==> value[i] != '\r' && value[i] != '\n',
        end == seq!['\n'] || end == seq!['\r', '\n'],
    ensures
        is_header_line(name + seq![':'] + value + end),
{
    let s = name + seq![':'] + value + end;
    let k = name.len() as int;
    let n = s.len() as int;
    assert forall|i: int| 0 <= i < k implies is_token_char(#[trigger] s[i]) by {
        assert(s[i] == name[i]);
    }
    assert(s[k] == ':');
    assert(s[n - 1] == '\n');
    if end == seq!['\n'] {
        assert forall|i: int| k + 1 <= i < n - 1 implies !crate::httplineparser::is_cr_or_lf(#[trigger] s[i]) by {
            assert(s[i] == value[i - k - 1]);
        }
    } else {
        assert(s[n - 2] == '\r');
        assert forall|i: int| k + 1 <= i < n - 2 implies !crate::httplineparser::is_cr_or_lf(#[trigger] s[i]) by {
            assert(s[i] == value[i - k - 1]);
        }
    }
    assert(crate::httplineparser::is_line_rest(s, k + 1));
    assert(header_line_at(s, k));
}

/// `HTTP/` stands at index `d` of `s`.
pub open spec fn starts_http_at(s: Seq<char>, d: int) -> bool {
    0 <= d && d + 5 <= s.len() && s[d] == 'H' && s[d + 1] == 'T' && s[d + 2] == 'T' && s[d + 3]
        == 'P' && s[d + 4] == '/'
}

/// Every accepted line ends with a line feed. A request line has `HTTP/`
/// nine or ten characters before its end; a status line begins with
/// `HTTP/`; a header line has a colon after a non-empty name; a line that
/// states a length begins with `content-length:` in some case.
pub proof fn lemma_accepted_lines_shape(s: Seq<char>)
    ensures
        is_request_line(s) ==> s.len() >= 9 && s.last() == '\n' && (starts_http_at(s, s.len() - 9)
            || starts_http_at(s, s.len() - 10)),
        is_status_line(s) ==> s.len() >= 15 && s.last() == '\n' && s[0] == 'H' && s[1] == 'T'
            && s[2] == 'T' && s[3] == 'P' && s[4] == '/',
        is_header_line(s) ==> s.last() == '\n' && exists|k: int| 0 < k < s.len() && s[k] == ':',
        is_end_of_headers(s) ==> s == seq!['\n'] || s == seq!['\r', '\n'],
        content_length_of(s) is Some ==> s.len() >= 17 && s.last() == '\n' && ((s[0] as u32)
            == ('c' as u32) || (s[0] as u32) == ('C' as u32)) && (s[14] as u32) == (':' as u32),
{
    if is_request_line(s) {
        let d = choose|d: int| request_line_at(s, d);
        assert(is_version_tail(s, d));
    }
    if is_status_line(s) {
        let (e, f, g) = choose|e: int, f: int, g: int| status_line_at(s, e, f, g);
        assert(status_tail_at(s, e, f, g));
    }
    if is_header_line(s) {
        let k = choose|k: int| header_line_at(s, k);
    }
    if content_length_of(s) is Some {
        let (a, b) = choose|a: int, b: int| content_length_at(s, a, b);
        assert(crate::httplineparser::matches_ignoring_case(s[0], content_length_name()[0]));
        assert(crate::httplineparser::matches_ignoring_case(s[14], content_length_name()[14]));
    }
}

} // verus!
