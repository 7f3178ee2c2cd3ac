//! HTTP responses and their rendering as response text.
use vstd::prelude::*;
use vstd::utf8::encode_utf8;
use crate::headers::{HeaderEntries, HeaderMap, header_text};
use crate::text::{decimal, push_char, push_decimal};

verus! {

/// A response: status line parts, header fields and an optional body.
#[derive(Debug, PartialEq)]
pub struct HttpResponse<'a> {
    version: &'a str,
    status_code: &'a str,
    status_text: &'a str,
    head: HeaderMap,
    body: Option<String>,
}

/// The abstract contents of a response.
pub struct ResponseView {
    pub version: Seq<char>,
    pub status_code: Seq<char>,
    pub status_text: Seq<char>,
    pub head: HeaderEntries,
    pub body: Option<Seq<char>>,
}

impl<'a> View for HttpResponse<'a> {
    type V = ResponseView;

    closed spec fn view(&self) -> ResponseView {
        ResponseView {
            version: self.version@,
            status_code: self.status_code@,
            status_text: self.status_text@,
            head: self.head@,
            body: match self.body {
                Some(b) => Some(b@),
                None => None,
            },
        }
    }
}

/// The reason phrase for a status code: `OK`, `Bad Request`, `Not Found`
/// and `Internal Server Error` for 200, 400, 404 and 500, else `ERROR`.
pub open spec fn status_text_of(code: Seq<char>) -> Seq<char> {
    if code == "200"@ {
        "OK"@
    } else if code == "400"@ {
        "Bad Request"@
    } else if code == "404"@ {
        "Not Found"@
    } else if code == "500"@ {
        "Internal Server Error"@
    } else {
        "ERROR"@
    }
}

/// The header fields of a response made without any: an HTML content type.
pub open spec fn default_head() -> HeaderEntries {
    seq![("Content-Type"@, "text/html; charset=utf-8"@)]
}

/// The response that `new` makes from a status code, optional headers and
/// an optional body.
pub open spec fn response_of(
    code: Seq<char>,
    head: Option<HeaderEntries>,
    body: Option<Seq<char>>,
) -> ResponseView {
    ResponseView {
        version: "HTTP/1.1"@,
        status_code: code,
        status_text: status_text_of(code),
        head: match head {
            Some(h) => h,
            None => default_head(),
        },
        body: body,
    }
}

/// The body, or the empty text where there is none.
pub open spec fn body_text(v: ResponseView) -> Seq<char> {
    match v.body {
        Some(b) => b,
        None => Seq::<char>::empty(),
    }
}

/// The length in bytes of the UTF-8 encoding of `s`, as `str::len`
/// reports it.
pub open spec fn byte_len(s: Seq<char>) -> usize {
    encode_utf8(s).len() as usize
}

/// The response text: the status line, the header lines, a
/// `Content-Length` line giving the body's length in bytes, an empty line,
/// then the body.
pub open spec fn response_text(v: ResponseView) -> Seq<char> {
    v.version + seq![' '] + v.status_code + seq![' '] + v.status_text + seq!['\r', '\n']
        + header_text(v.head) + "Content-Length: "@ + decimal(byte_len(body_text(v)) as nat)
        + seq!['\r', '\n', '\r', '\n'] + body_text(v)
}

/// The status line: version, status code and reason phrase, separated by
/// spaces and ended by CRLF.
pub open spec fn status_line(v: ResponseView) -> Seq<char> {
    v.version + seq![' '] + v.status_code + seq![' '] + v.status_text + seq!['\r', '\n']
}

/// The end of the response text: the `Content-Length` line with the body's
/// length in bytes, an empty line, and the body.
pub open spec fn length_and_body(v: ResponseView) -> Seq<char> {
    "Content-Length: "@ + decimal(byte_len(body_text(v)) as nat) + seq!['\r', '\n', '\r', '\n']
        + body_text(v)
}

/// Law: the response text is the status line, then the header lines, then
/// the `Content-Length` line, an empty line and the body; so it begins with
/// the status line and ends with the body.
pub proof fn law_response_text_layout(v: ResponseView)
    ensures
        response_text(v) == status_line(v) + header_text(v.head) + length_and_body(v),
        response_text(v).take(status_line(v).len() as int) == status_line(v),
        response_text(v).skip(response_text(v).len() - body_text(v).len()) == body_text(v),
{
    let t = response_text(v);
    assert(t =~= status_line(v) + header_text(v.head) + length_and_body(v));
    assert(t.take(status_line(v).len() as int) =~= status_line(v));
    assert(t.skip(t.len() - body_text(v).len()) =~= body_text(v));
}

/// Law: a response without a body, or with an empty one, announces a
/// length of `0` and its text ends with the empty line.
pub proof fn law_empty_body(v: ResponseView)
    requires
        body_text(v).len() == 0,
    ensures
        length_and_body(v) == "Content-Length: "@ + seq!['0', '\r', '\n', '\r', '\n'],
{
    assert(encode_utf8(body_text(v)) =~= Seq::<u8>::empty());
    assert(decimal(0) == seq!['0']);
    assert(length_and_body(v) =~= "Content-Length: "@ + seq!['0', '\r', '\n', '\r', '\n']);
}

/// Law: the response text is the version, a space, the status code, a
/// space, the reason phrase and CRLF; then each header as `name:value` and
/// CRLF; then `Content-Length: ` with the decimal number of bytes in the
/// UTF-8 encoding of the whole body, CRLF CRLF, and the whole body.
pub proof fn law_response_text_content_length(v: ResponseView)
    requires
        encode_utf8(
            match v.body {
                Some(b) => b,
                None => Seq::<char>::empty(),
            },
        ).len() <= usize::MAX,
    ensures
        ({
            let b = match v.body {
                Some(b) => b,
                None => Seq::<char>::empty(),
            };
            response_text(v) == v.version + seq![' '] + v.status_code + seq![' '] + v.status_text
                + seq!['\r', '\n'] + header_text(v.head) + "Content-Length: "@ + decimal(
                encode_utf8(b).len(),
            ) + seq!['\r', '\n', '\r', '\n'] + b
        }),
{
}

/// Law: a response made without header fields carries exactly one header,
/// the HTML content type `text/html; charset=utf-8`, whatever its status
/// code and body; its version is `HTTP/1.1`, and code and body are the ones
/// given.
pub proof fn law_default_content_type(code: Seq<char>, body: Option<Seq<char>>)
    ensures
        response_of(code, None, body).head == seq![
            ("Content-Type"@, "text/html; charset=utf-8"@),
        ],
        response_of(code, None, body).version == "HTTP/1.1"@,
        response_of(code, None, body).status_code == code,
        response_of(code, None, body).body == body,
{
}

/// Law: headers given to a response are kept as given, whatever the status
/// code and body.
pub proof fn law_given_headers_kept(code: Seq<char>, head: HeaderEntries, body: Option<Seq<char>>)
    ensures
        response_of(code, Some(head), body).head == head,
        response_of(code, Some(head), body).status_code == code,
        response_of(code, Some(head), body).body == body,
{
}

/// Law: the reason phrase of a status code: `OK` for 200, `Bad Request`
/// for 400, `Not Found` for 404, `Internal Server Error` for 500, and
/// `ERROR` for any other code.
pub proof fn law_reason_phrase(code: Seq<char>, head: Option<HeaderEntries>, body: Option<Seq<char>>)
    ensures
        code == "200"@ ==> response_of(code, head, body).status_text == "OK"@,
        code == "400"@ ==> response_of(code, head, body).status_text == "Bad Request"@,
        code == "404"@ ==> response_of(code, head, body).status_text == "Not Found"@,
        code == "500"@ ==> response_of(code, head, body).status_text
            == "Internal Server Error"@,
        code != "200"@ && code != "400"@ && code != "404"@ && code != "500"@ ==> response_of(
            code,
            head,
            body,
        ).status_text == "ERROR"@,
{
    reveal_strlit("200");
    reveal_strlit("400");
    reveal_strlit("404");
    reveal_strlit("500");
    assert("200"@[0] != "400"@[0]);
    assert("200"@[0] != "500"@[0]);
    assert("400"@[0] != "500"@[0]);
    assert("400"@[2] != "404"@[2]);
}

impl<'a> HttpResponse<'a> {
    /// A response with `status_code`, its reason phrase, the given header
    /// fields (an HTML content type where none are given) and body.
    pub fn new(status_code: &'a str, headers: Option<HeaderMap>, body: Option<String>) -> (r:
        HttpResponse<'a>)
        ensures
            r@ == response_of(
                status_code@,
                match headers {
                    Some(h) => Some(h@),
                    None => None,
                },
                match body {
                    Some(b) => Some(b@),
                    None => None,
                },
            ),
    {
        let code = status_code.to_owned();
        let status_text: &'a str = if code == "200".to_owned() {
            "OK"
        } else if code == "400".to_owned() {
            "Bad Request"
        } else if code == "404".to_owned() {
            "Not Found"
        } else if code == "500".to_owned() {
            "Internal Server Error"
        } else {
            "ERROR"
        };
        let head = match headers {
            Some(h) => h,
            None => {
                let mut h = HeaderMap::new();
                h.insert("Content-Type", "text/html; charset=utf-8");
                assert(h@ =~= default_head());
                h
            },
        };
        let r = HttpResponse { version: "HTTP/1.1", status_code, status_text, head, body };
        assert(r@.body == match body {
            Some(b) => Some(b@),
            None => None::<Seq<char>>,
        });
        r
    }

    /// The protocol version of the status line.
    pub fn version(&self) -> (r: &'a str)
        ensures
            r@ == self@.version,
    {
        self.version
    }

    /// The status code.
    pub fn status_code(&self) -> (r: &'a str)
        ensures
            r@ == self@.status_code,
    {
        self.status_code
    }

    /// The reason phrase.
    pub fn status_text(&self) -> (r: &'a str)
        ensures
            r@ == self@.status_text,
    {
        self.status_text
    }

    /// The header fields as text, `name:value\r\n` for each.
    pub fn head(&self) -> (r: String)
        ensures
            r@ == header_text(self@.head),
    {
        self.head.to_text()
    }

    /// The body, or the empty text where there is none.
    pub fn body(&self) -> (r: String)
        ensures
            r@ == body_text(self@),
    {
        match &self.body {
            Some(b) => b.clone(),
            None => String::new(),
        }
    }

    /// The response text (see `response_text`).
    pub fn to_http_string(&self) -> (r: String)
        ensures
            r@ == response_text(self@),
    {
        let mut out = String::new();
        out.append(self.version);
        push_char(&mut out, ' ');
        out.append(self.status_code);
        push_char(&mut out, ' ');
        out.append(self.status_text);
        push_char(&mut out, '\r');
        push_char(&mut out, '\n');
        let h = self.head();
        out.append(h.as_str());
        out.append("Content-Length: ");
        let b = self.body();
        let n = b.as_str().len();
        push_decimal(&mut out, n);
        push_char(&mut out, '\r');
        push_char(&mut out, '\n');
        push_char(&mut out, '\r');
        push_char(&mut out, '\n');
        out.append(b.as_str());
        assert(out@ =~= response_text(self@));
        out
    }
}

impl<'a> Clone for HttpResponse<'a> {
    fn clone(&self) -> (r: HttpResponse<'a>)
        ensures
            r@ == self@,
    {
        let body = match &self.body {
            Some(b) => Some(b.clone()),
            None => None,
        };
        HttpResponse {
            version: self.version,
            status_code: self.status_code,
            status_text: self.status_text,
            head: self.head.clone(),
            body,
        }
    }
}

impl<'a> Default for HttpResponse<'a> {
    /// The response `new("200", None, None)` makes: `200 OK`, an HTML
    /// content type and no body.
    fn default() -> (r: HttpResponse<'a>)
        ensures
            r@ == response_of("200"@, None, None),
    {
        HttpResponse::new("200", None, None)
    }
}

} // verus!
