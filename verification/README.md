# http_proxy

A minimal HTTP/1.0 proxy whose decisions are verified with Verus.

## Layout

- `src/` — the verified library.
  - `charclass.rs`: the character classes of the line grammars. White space
    (`\s`, Unicode `White_Space`) is stated here; of the classes `\d` and
    `\w` the ASCII part is stated here and the rest is asked of the `regex`
    crate, one character at a time.
  - `httplineparser.rs`: recognisers for request lines, status lines, header
    lines, the empty line that ends a head, and `Content-Length` values, each
    proved against a spec function that restates its pattern.
  - `httperrors.rs`: `HttpError`, its constructors and its text.
  - `httpheader.rs`: `Header`, the per-line decision while reading headers,
    the announced body length, the text of a head, and the headers that the
    proxy adds.
  - `httpmessage.rs`: `HttpRequest`, `HttpResponse`, the error reply, and
    `HeadParser`, which reads a head one line at a time.
  - `httpreader.rs`: the outcome of reading one line.
  - `proxy.rs`: `ProxySession`, the decision machine of one connection: it
    names the next I/O action and takes back its result.
  - `laws.rs`: properties across functions, such as reading back the text of
    a head, and what a connection sends on.
- `app/main.rs` — the program: sockets, threads, and the loop that performs
  the actions a `ProxySession` asks for.
- `tests/` — the tests, among them a comparison of the recognisers with the
  `regex` crate on the original patterns.
