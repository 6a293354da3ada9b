//! Dispatch: a parsed request is inspected by method and first path segment,
//! handed to the matching handler, and the handler's response is written to
//! the connection — a one-shot decision with no state behind it.
use vstd::prelude::*;

use crate::handler::LoadedContent;
use crate::handler::PageNotFoundHandler;
use crate::handler::StaticPageHandler;
use crate::handler::WebServiceHandler;
use crate::handler::api_shape;
use crate::handler::not_found_shape;
use crate::handler::resp_common;
use crate::handler::static_shape;
use crate::httprequest::HttpRequest;
use crate::httprequest::Method;
use crate::httpresponse::HttpResponse;
use crate::strutil::path_segment;
use crate::strutil::seg_of;
use crate::strutil::str_eq;

verus! {

/// The router: picks a handler by method and path, and sends what it built.
pub struct Router;

impl Router {
    /// The response the router sends for a request: everything but `GET`
    /// goes to the not-found handler whatever the path; a `GET` whose first
    /// path segment is `api` goes to the web service, every other `GET` to
    /// the static-page handler.
    pub fn respond(req: &HttpRequest, content: &LoadedContent) -> (r: HttpResponse)
        ensures
            r.wf(),
            r.has_headers(),
            resp_common(r@),
            req@.method != Method::Get ==> not_found_shape(r@, *content),
            req@.method == Method::Get && seg_of(req@.path, 1) == "api"@ ==> api_shape(
                r@,
                req@.path,
                *content,
            ),
            req@.method == Method::Get && seg_of(req@.path, 1) != "api"@ ==> static_shape(
                r@,
                req@.path,
                *content,
            ),
    {
        match req.method {
            Method::Get => {
                let s = match &req.resource {
                    crate::httprequest::Resource::Path(p) => p,
                };
                let on_api = match path_segment(s.as_str(), 1) {
                    Some(seg) => str_eq(seg.as_str(), "api"),
                    None => false,
                };
                proof {
                    reveal_strlit("api");
                }
                if on_api {
                    WebServiceHandler::handle(req, content)
                } else {
                    StaticPageHandler::handle(req, content)
                }
            },
            _ => PageNotFoundHandler::handle(req, content),
        }
    }

    /// Routes one request: builds the response and writes it to the stream,
    /// swallowing a write failure as the protocol layer promises.
    pub fn route<W: std::io::Write>(req: HttpRequest, content: &LoadedContent, stream: &mut W) {
        let resp: HttpResponse = Router::respond(&req, content);
        let _ = resp.send_response(stream);
    }
}

} // verus!
