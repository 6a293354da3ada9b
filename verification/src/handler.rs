//! The request handlers: a static-page handler, a JSON web-service handler
//! and a not-found handler. Each consumes a parsed request together with the
//! content the file-system collaborator offered for it, and produces a
//! response; reading files and serializing orders stay outside this crate's
//! scope and are handed in as plain values.
use vstd::prelude::*;

use crate::headers::Headers;
use crate::httprequest::HttpRequest;
use crate::httpresponse::HttpResponse;
use crate::httpresponse::RespModel;
use crate::httpresponse::default_headers;
use crate::httpresponse::status_text_for;
use crate::strutil::seg_of;
use crate::strutil::spec_ends_with;
use crate::strutil::spec_split;
use crate::strutil::path_segment;
use crate::strutil::str_ends_with;
use crate::strutil::str_eq;

verus! {

/// One order record of the backing data source; an opaque data-access
/// collaborator turns these into JSON outside this crate.
#[derive(Debug, Clone)]
pub struct OrderStatus {
    pub order_id: i32,
    pub order_date: String,
    pub order_status: String,
}

/// What the file-system collaborator offered for one request: the contents
/// of the static file the request targets, of the `404.html` page, and the
/// serialized order list. A missing file is an absent value, never an error.
#[derive(Debug)]
pub struct LoadedContent {
    pub static_file: Option<String>,
    pub not_found_page: Option<String>,
    pub orders_json: Option<String>,
}

/// The view of an optional string.
pub open spec fn opt_str_view(o: Option<String>) -> Option<Seq<char>> {
    match o {
        Some(s) => Some(s@),
        None => None,
    }
}

/// What every handler guarantees of its response.
pub open spec fn resp_common(r: RespModel) -> bool {
    &&& r.version == "HTTP/1.1"@
    &&& r.status_text == status_text_for(r.status_code)
}

/// The shape of the not-found response: status `404`, default headers, and
/// the `404.html` page as body when it could be read.
pub open spec fn not_found_shape(r: RespModel, content: LoadedContent) -> bool {
    &&& r.status_code == "404"@
    &&& r.headers == Some(default_headers())
    &&& r.body == opt_str_view(content.not_found_page)
}

/// The file a static-page request asks for: `index.html` for an empty first
/// segment, `health.html` for `health`, and the segment itself otherwise.
pub open spec fn static_target(path: Seq<char>) -> Seq<char> {
    let seg = seg_of(path, 1);
    if seg.len() == 0 {
        "index.html"@
    } else if seg == "health"@ {
        "health.html"@
    } else {
        seg
    }
}

/// The content type inferred from the extension of a served file name.
pub open spec fn content_type_for(name: Seq<char>) -> Seq<char> {
    if spec_ends_with(name, ".css"@) {
        "text/css"@
    } else if spec_ends_with(name, ".js"@) {
        "text/javascript"@
    } else {
        "text/html"@
    }
}

/// The shape of the static-page response. The root and `health` pages are
/// served with status `200` whether or not the file was found; any other
/// segment is served with its inferred content type when found, and falls
/// back to the not-found response when missing.
pub open spec fn static_shape(r: RespModel, path: Seq<char>, content: LoadedContent) -> bool {
    let seg = seg_of(path, 1);
    if seg.len() == 0 || seg == "health"@ {
        &&& r.status_code == "200"@
        &&& r.headers == Some(default_headers())
        &&& r.body == opt_str_view(content.static_file)
    } else {
        match content.static_file {
            Some(c) => {
                &&& r.status_code == "200"@
                &&& r.headers == Some(seq![("Content-Type"@, content_type_for(seg))])
                &&& r.body == Some(c@)
            },
            None => not_found_shape(r, content),
        }
    }
}

/// A request target of the form `/api/shipping/orders`, with the two
/// selecting segments present.
pub open spec fn is_orders_path(path: Seq<char>) -> bool {
    &&& spec_split(path, '/').len() > 3
    &&& seg_of(path, 2) == "shipping"@
    &&& seg_of(path, 3) == "orders"@
}

/// The shape of the web-service response: the order list as JSON for the
/// orders route — status `500` when the backing data is unavailable — and
/// the not-found response for everything else under `/api`.
pub open spec fn api_shape(r: RespModel, path: Seq<char>, content: LoadedContent) -> bool {
    if is_orders_path(path) {
        match content.orders_json {
            Some(j) => {
                &&& r.status_code == "200"@
                &&& r.headers == Some(seq![("Content-Type"@, "application/json"@)])
                &&& r.body == Some(j@)
            },
            None => {
                &&& r.status_code == "500"@
                &&& r.headers == Some(default_headers())
                &&& r.body is None
            },
        }
    } else {
        not_found_shape(r, content)
    }
}

/// Clones an optional body.
fn clone_opt_string(o: &Option<String>) -> (r: Option<String>)
    ensures
        opt_str_view(r) == opt_str_view(*o),
{
    match o {
        Some(s) => Some(s.clone()),
        None => None,
    }
}

/// Serves the site's pages from loaded file contents.
pub struct StaticPageHandler;

/// Answers every request with the not-found page.
pub struct PageNotFoundHandler;

/// Serves the order list of the shipping service.
pub struct WebServiceHandler;

impl PageNotFoundHandler {
    /// Ignores the request entirely: always `404`, with the `404.html` page
    /// as body when it could be read.
    pub fn handle(_req: &HttpRequest, content: &LoadedContent) -> (r: HttpResponse)
        ensures
            r.wf(),
            r.has_headers(),
            resp_common(r@),
            not_found_shape(r@, *content),
    {
        HttpResponse::new("404", None, clone_opt_string(&content.not_found_page))
    }
}

impl StaticPageHandler {
    /// The file name the request asks this handler to serve.
    pub fn target_file(req: &HttpRequest) -> (r: String)
        ensures
            r@ == static_target(req@.path),
    {
        let s = match &req.resource {
            crate::httprequest::Resource::Path(p) => p,
        };
        let seg = match path_segment(s.as_str(), 1) {
            Some(v) => v,
            None => String::new(),
        };
        if seg.as_str().is_empty() {
            "index.html".to_owned()
        } else if str_eq(seg.as_str(), "health") {
            "health.html".to_owned()
        } else {
            seg
        }
    }

    /// Serves the static page the request names, inferring the content type
    /// from the file extension; a missing page degrades to the not-found
    /// response.
    pub fn handle(req: &HttpRequest, content: &LoadedContent) -> (r: HttpResponse)
        ensures
            r.wf(),
            r.has_headers(),
            resp_common(r@),
            static_shape(r@, req@.path, *content),
    {
        let s = match &req.resource {
            crate::httprequest::Resource::Path(p) => p,
        };
        let seg = match path_segment(s.as_str(), 1) {
            Some(v) => v,
            None => String::new(),
        };
        if seg.as_str().is_empty() || str_eq(seg.as_str(), "health") {
            HttpResponse::new("200", None, clone_opt_string(&content.static_file))
        } else {
            match &content.static_file {
                Some(c) => {
                    let mut map = Headers::new();
                    let ct: &str = if str_ends_with(seg.as_str(), ".css") {
                        "text/css"
                    } else if str_ends_with(seg.as_str(), ".js") {
                        "text/javascript"
                    } else {
                        "text/html"
                    };
                    map.insert("Content-Type".to_owned(), ct.to_owned());
                    proof {
                        assert(map@ =~= seq![("Content-Type"@, content_type_for(seg@))]);
                    }
                    HttpResponse::new("200", Some(map), Some(c.clone()))
                },
                None => HttpResponse::new("404", None, clone_opt_string(&content.not_found_page)),
            }
        }
    }
}

impl WebServiceHandler {
    /// Serves the order list for `/api/shipping/orders` as JSON; any other
    /// path under `/api` gets the not-found response, and missing backing
    /// data degrades to a plain `500` instead of failing.
    pub fn handle(req: &HttpRequest, content: &LoadedContent) -> (r: HttpResponse)
        ensures
            r.wf(),
            r.has_headers(),
            resp_common(r@),
            api_shape(r@, req@.path, *content),
    {
        let s = match &req.resource {
            crate::httprequest::Resource::Path(p) => p,
        };
        let seg2 = path_segment(s.as_str(), 2);
        let seg3 = path_segment(s.as_str(), 3);
        let on_orders = match (seg2, seg3) {
            (Some(a), Some(b)) => str_eq(a.as_str(), "shipping") && str_eq(b.as_str(), "orders"),
            _ => false,
        };
        if on_orders {
            match &content.orders_json {
                Some(j) => {
                    let mut headers = Headers::new();
                    headers.insert("Content-Type".to_owned(), "application/json".to_owned());
                    proof {
                        assert(headers@ =~= seq![("Content-Type"@, "application/json"@)]);
                    }
                    HttpResponse::new("200", Some(headers), Some(j.clone()))
                },
                None => HttpResponse::new("500", None, None),
            }
        } else {
            HttpResponse::new("404", None, clone_opt_string(&content.not_found_page))
        }
    }
}

} // verus!
