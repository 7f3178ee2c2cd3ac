//! Choosing the handler that answers a request.
use vstd::prelude::*;
use crate::httprequest::{HttpMethod, HttpReSource, HttpRequest};
use crate::text::{chars_eq, split_chars, split_on, to_chars, views};

verus! {

/// The target path of a request.
pub open spec fn path_of(req: &HttpRequest) -> Seq<char> {
    match req.resource {
        HttpReSource::Path(p) => p@,
    }
}

/// The `/`-separated segments of the request's path.
pub open spec fn segments(req: &HttpRequest) -> Seq<Seq<char>> {
    split_on(path_of(req), '/')
}

/// The segments of the request's path.
pub(crate) fn path_segments(req: &HttpRequest) -> (r: Vec<Vec<char>>)
    ensures
        views(r@) == segments(req),
{
    match &req.resource {
        HttpReSource::Path(p) => {
            let chars = to_chars(p.as_str());
            split_chars(chars.as_slice(), '/')
        },
    }
}

/// Whether segment `i` of `segs` is the text `lit`.
pub(crate) fn segment_is(segs: &Vec<Vec<char>>, i: usize, lit: &str) -> (r: bool)
    requires
        i < segs@.len(),
    ensures
        r == (views(segs@)[i as int] == lit@),
{
    let l = to_chars(lit);
    assert(views(segs@)[i as int] == segs@[i as int]@);
    chars_eq(segs[i].as_slice(), l.as_slice())
}

/// The handler that answers a request.
#[derive(Debug, PartialEq, Eq, Structural, Clone, Copy)]
pub enum Route {
    WebService,
    StaticPage,
    PageNotFound,
}

/// The handler for a request: a `GET` whose first path segment is `api`
/// goes to the web service, any other `GET` to the static pages, and every
/// other method to the not-found page.
pub open spec fn route_of(req: &HttpRequest) -> Route {
    if req.method == HttpMethod::Get {
        if segments(req)[1] == "api"@ {
            Route::WebService
        } else {
            Route::StaticPage
        }
    } else {
        Route::PageNotFound
    }
}

/// Law: every request whose method is not `GET` goes to the not-found
/// page, whatever its path.
pub proof fn law_non_get_not_found(req: &HttpRequest)
    ensures
        req.method != HttpMethod::Get ==> route_of(req) == Route::PageNotFound,
{
}

/// Law: a `GET` request goes to the web service exactly when its first path
/// segment is `api`, and to the static pages otherwise.
pub proof fn law_get_routes(req: &HttpRequest)
    requires
        req.method == HttpMethod::Get,
    ensures
        segments(req)[1] == "api"@ ==> route_of(req) == Route::WebService,
        segments(req)[1] != "api"@ ==> route_of(req) == Route::StaticPage,
{
}

/// Chooses handlers for requests.
pub struct Router;

impl Router {
    /// The handler for `http_request` (see `route_of`). A `GET` request's
    /// path must contain a `/`.
    pub fn route(http_request: &HttpRequest) -> (r: Route)
        requires
            http_request.method == HttpMethod::Get ==> segments(http_request).len() >= 2,
        ensures
            r == route_of(http_request),
    {
        match http_request.method {
            HttpMethod::Get => {
                let segs = path_segments(http_request);
                if segment_is(&segs, 1, "api") {
                    Route::WebService
                } else {
                    Route::StaticPage
                }
            },
            _ => Route::PageNotFound,
        }
    }
}

} // verus!
