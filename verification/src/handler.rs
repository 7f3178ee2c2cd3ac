//! The handlers' decisions: which page file a static request names, and the
//! responses built from what was loaded. Loading files is left to the
//! caller.
use vstd::prelude::*;
use crate::headers::{HeaderEntries, HeaderMap};
use crate::httprequest::HttpRequest;
use crate::httpresponse::{HttpResponse, ResponseView, response_of};
use crate::router::{path_segments, segment_is, segments};
use crate::text::{ends_with_chars, ends_with_text, from_chars, to_chars, views};

verus! {

/// Serves pages from files.
pub struct StaticPageHandler;

/// Serves the not-found page.
pub struct PageNotFoundHandler;

/// Serves the web service.
pub struct WebServiceHandler;

/// The page file for a first path segment: `index.html` for the empty
/// segment, `health.html` for `health`, else the segment itself.
pub open spec fn page_file(segment: Seq<char>) -> Seq<char> {
    if segment == ""@ {
        "index.html"@
    } else if segment == "health"@ {
        "health.html"@
    } else {
        segment
    }
}

/// The content type of a file, by its extension: CSS, JavaScript, else HTML.
pub open spec fn content_type_of(name: Seq<char>) -> Seq<char> {
    if ends_with_text(name, ".css"@) {
        "text/css"@
    } else if ends_with_text(name, ".js"@) {
        "application/javascript"@
    } else {
        "text/html"@
    }
}

/// The response to a static request whose first path segment is `segment`,
/// given what loading its page file gave: `200` with the page for the
/// index and health pages, loaded or not; for any other file `200` with
/// its content type where it was loaded, and `None` (the page is not found)
/// where it was not.
pub open spec fn static_response(segment: Seq<char>, contents: Option<Seq<char>>) -> Option<
    ResponseView,
> {
    if segment == ""@ || segment == "health"@ {
        Some(response_of("200"@, None, contents))
    } else {
        match contents {
            Some(c) => Some(
                response_of(
                    "200"@,
                    Some(seq![("Content-Type"@, content_type_of(segment))]),
                    Some(c),
                ),
            ),
            None => None,
        }
    }
}

/// Law: a name ending in `.css` is served as `text/css`, one ending in
/// `.js` as `application/javascript`, and every other name (`.html`
/// included) as `text/html`.
pub proof fn law_content_type(name: Seq<char>)
    ensures
        ends_with_text(name, ".css"@) ==> content_type_of(name) == "text/css"@,
        !ends_with_text(name, ".css"@) && ends_with_text(name, ".js"@) ==> content_type_of(name)
            == "application/javascript"@,
        !ends_with_text(name, ".css"@) && !ends_with_text(name, ".js"@) ==> content_type_of(name)
            == "text/html"@,
{
}

/// Law: a loaded file other than the index and health pages is answered
/// with `200`, exactly one header (its content type by extension, `text/html`
/// for anything not `.css` or `.js`) and the file as body; a file that could
/// not be loaded is not found. The index and health pages are answered with
/// `200` and the default HTML content type, loaded or not.
pub proof fn law_static_response(segment: Seq<char>, contents: Option<Seq<char>>)
    ensures
        segment != ""@ && segment != "health"@ ==> match contents {
            Some(c) => static_response(segment, contents) matches Some(r) && r.status_code
                == "200"@ && r.body == Some(c) && r.head == seq![
                ("Content-Type"@, content_type_of(segment)),
            ],
            None => static_response(segment, contents) is None,
        },
        segment != ""@ && segment != "health"@ && !ends_with_text(segment, ".css"@)
            && !ends_with_text(segment, ".js"@) && contents is Some ==> (static_response(
            segment,
            contents,
        ) matches Some(r) && r.head == seq![("Content-Type"@, "text/html"@)]),
        segment == ""@ || segment == "health"@ ==> (static_response(segment, contents) matches Some(
            r,
        ) && r.status_code == "200"@ && r.body == contents && r.head == seq![
            ("Content-Type"@, "text/html; charset=utf-8"@),
        ]),
{
}

impl StaticPageHandler {
    /// The file that a static request asks for (see `page_file`). The path
    /// must contain a `/`.
    pub fn page_name(request: &HttpRequest) -> (r: String)
        requires
            segments(request).len() >= 2,
        ensures
            r@ == page_file(segments(request)[1]),
    {
        let segs = path_segments(request);
        if segment_is(&segs, 1, "") {
            "index.html".to_owned()
        } else if segment_is(&segs, 1, "health") {
            "health.html".to_owned()
        } else {
            assert(views(segs@)[1] == segs@[1]@);
            from_chars(segs[1].as_slice())
        }
    }

    /// The response to a static request, given what loading the file that
    /// `page_name` names gave (see `static_response`); `None` where the
    /// page is not found.
    pub fn respond<'a>(request: &HttpRequest, contents: Option<String>) -> (r: Option<
        HttpResponse<'a>,
    >)
        requires
            segments(request).len() >= 2,
        ensures
            match r {
                Some(resp) => static_response(
                    segments(request)[1],
                    match contents {
                        Some(c) => Some(c@),
                        None => None,
                    },
                ) == Some(resp@),
                None => static_response(
                    segments(request)[1],
                    match contents {
                        Some(c) => Some(c@),
                        None => None,
                    },
                ) is None,
            },
    {
        let segs = path_segments(request);
        if segment_is(&segs, 1, "") || segment_is(&segs, 1, "health") {
            Some(HttpResponse::new("200", None, contents))
        } else {
            match contents {
                Some(c) => {
                    assert(views(segs@)[1] == segs@[1]@);
                    let css = to_chars(".css");
                    let js = to_chars(".js");
                    let mut map = HeaderMap::new();
                    if ends_with_chars(segs[1].as_slice(), css.as_slice()) {
                        map.insert("Content-Type", "text/css");
                    } else if ends_with_chars(segs[1].as_slice(), js.as_slice()) {
                        map.insert("Content-Type", "application/javascript");
                    } else {
                        map.insert("Content-Type", "text/html");
                    }
                    assert(map@ =~= seq![("Content-Type"@, content_type_of(segments(request)[1]))]);
                    Some(HttpResponse::new("200", Some(map), Some(c)))
                },
                None => None,
            }
        }
    }
}

impl PageNotFoundHandler {
    /// The not-found response, with the not-found page as loaded.
    pub fn respond<'a>(page: Option<String>) -> (r: HttpResponse<'a>)
        ensures
            r@ == response_of(
                "404"@,
                None,
                match page {
                    Some(p) => Some(p@),
                    None => None,
                },
            ),
    {
        HttpResponse::new("404", None, page)
    }
}

/// The header fields of the orders response: a JSON content type.
pub open spec fn json_head() -> HeaderEntries {
    seq![("Content-Type"@, "application/json"@)]
}

impl WebServiceHandler {
    /// Whether a web-service request asks for the shipping orders: its
    /// second path segment is `shipping` and its third is `orders`. The
    /// path must have at least three segments, and four where the second
    /// is `shipping`.
    pub fn serves_orders(request: &HttpRequest) -> (r: bool)
        requires
            segments(request).len() >= 3,
            segments(request)[2] == "shipping"@ ==> segments(request).len() >= 4,
        ensures
            r == (segments(request)[2] == "shipping"@ && segments(request)[3] == "orders"@),
    {
        let segs = path_segments(request);
        segment_is(&segs, 2, "shipping") && segment_is(&segs, 3, "orders")
    }

    /// The orders response: `200` with a JSON content type and the orders
    /// as JSON text.
    pub fn respond_orders<'a>(json: String) -> (r: HttpResponse<'a>)
        ensures
            r@ == response_of("200"@, Some(json_head()), Some(json@)),
    {
        let mut headers = HeaderMap::new();
        headers.insert("Content-Type", "application/json");
        assert(headers@ =~= json_head());
        HttpResponse::new("200", Some(headers), Some(json))
    }
}

} // verus!
