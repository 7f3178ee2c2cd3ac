# http

A small HTTP library and server, verified with Verus.

- `src/text.rs` — character-level text functions (splitting at a separator,
  lines, trimming, white-space words, searching, decimal numerals), each
  specified over `Seq<char>`.
- `src/headers.rs` — `HeaderMap`, an ordered map of header names to values
  with distinct names, and the laws of reading after writing.
- `src/httprequest.rs` — `HttpMethod`, `HttpVersion`, `HttpReSource`,
  `HttpRequest`; a request text is read line by line by a state machine
  (`next_state`) whose result `HttpRequest::parse` and `HttpRequest::from`
  return.
- `src/httpresponse.rs` — `HttpResponse` and its response text.
- `src/router.rs`, `src/handler.rs`, `src/server.rs` — which handler answers
  a request, which page file it names, and the responses made from what was
  loaded.
- `app/` — the server program: sockets, files, JSON orders, and an echo
  server and client.
