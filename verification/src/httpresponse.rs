//! The response side of the protocol: an HTTP response with version, status
//! code, status text, headers and body, and its serialization to the exact
//! wire form, `Content-Length` included.
use vstd::prelude::*;

use crate::headers::Headers;
use crate::strutil::spec_dec;
use crate::strutil::str_eq;
use crate::strutil::usize_to_dec;
use vstd::utf8::encode_utf8;

verus! {

/// The status text the fixed table assigns to a status code; every code
/// outside the table is labeled `Not Found`, `404` included.
pub open spec fn status_text_for(code: Seq<char>) -> Seq<char> {
    if code == "200"@ {
        "OK"@
    } else if code == "400"@ {
        "Bad Request"@
    } else if code == "404"@ {
        "Not Found"@
    } else if code == "500"@ {
        "Internal Server Error"@
    } else {
        "Not Found"@
    }
}

/// The single header pair installed when a caller passes no header map.
pub open spec fn default_headers() -> Seq<(Seq<char>, Seq<char>)> {
    seq![("Content-Type"@, "text/html"@)]
}

/// The mathematical model of a response.
pub ghost struct RespModel {
    pub version: Seq<char>,
    pub status_code: Seq<char>,
    pub status_text: Seq<char>,
    pub headers: Option<Seq<(Seq<char>, Seq<char>)>>,
    pub body: Option<Seq<char>>,
}

/// The characters of the body; empty when there is none.
pub open spec fn body_chars(b: Option<Seq<char>>) -> Seq<char> {
    match b {
        Some(s) => s,
        None => Seq::<char>::empty(),
    }
}

/// The byte length of the body under UTF-8, as the machine reports it:
/// `0` when there is no body.
pub open spec fn content_length(b: Option<Seq<char>>) -> int {
    encode_utf8(body_chars(b)).len() as usize as int
}

/// The header pairs of a response; empty when none were installed.
pub open spec fn resp_headers(m: RespModel) -> Seq<(Seq<char>, Seq<char>)> {
    match m.headers {
        Some(h) => h,
        None => Seq::<(Seq<char>, Seq<char>)>::empty(),
    }
}

/// One header pair on the wire: `key:value` with no space, ended by `\r\n`.
pub open spec fn entry_of(p: (Seq<char>, Seq<char>)) -> Seq<char> {
    p.0 + ":"@ + p.1 + "\r\n"@
}

/// The header pairs on the wire, one entry each, in insertion order.
pub open spec fn headers_block(hs: Seq<(Seq<char>, Seq<char>)>) -> Seq<char>
    decreases hs.len(),
{
    if hs.len() == 0 {
        Seq::<char>::empty()
    } else {
        headers_block(hs.drop_last()) + entry_of(hs.last())
    }
}

/// The exact wire form of a response: status line, header entries, the
/// `Content-Length` header (with a space, unlike the other entries), a blank
/// line, and the body.
pub open spec fn spec_response_string(m: RespModel) -> Seq<char> {
    m.version + " "@ + m.status_code + " "@ + m.status_text + "\r\n"@ + headers_block(
        resp_headers(m),
    ) + "Content-Length: "@ + spec_dec(content_length(m.body)) + "\r\n\r\n"@ + body_chars(m.body)
}

/// An HTTP response; constructed by a handler, serialized once, not reused.
#[derive(Debug, Clone)]
pub struct HttpResponse {
    version: String,
    status_code: String,
    status_text: String,
    headers: Option<Headers>,
    body: Option<String>,
}

impl View for HttpResponse {
    type V = RespModel;

    closed spec fn view(&self) -> RespModel {
        RespModel {
            version: self.version@,
            status_code: self.status_code@,
            status_text: self.status_text@,
            headers: match self.headers {
                Some(h) => Some(h@),
                None => None,
            },
            body: match self.body {
                Some(b) => Some(b@),
                None => None,
            },
        }
    }
}

impl Default for HttpResponse {
    /// The base response: `HTTP/1.1 200 OK` with no headers and no body.
    fn default() -> (r: HttpResponse)
        ensures
            r@.version == "HTTP/1.1"@,
            r@.status_code == "200"@,
            r@.status_text == "OK"@,
            r@.headers is None,
            r@.body is None,
    {
        HttpResponse {
            version: "HTTP/1.1".to_owned(),
            status_code: "200".to_owned(),
            status_text: "OK".to_owned(),
            headers: None,
            body: None,
        }
    }
}

impl HttpResponse {
    /// The headers hold no duplicate key; every constructor establishes this.
    pub closed spec fn wf(self) -> bool {
        match self.headers {
            Some(h) => h.wf(),
            None => true,
        }
    }

    /// Whether a header map was installed; `new` always installs one.
    pub closed spec fn has_headers(self) -> bool {
        self.headers is Some
    }

    /// Builds a response: the version is always `HTTP/1.1`, the status text
    /// comes from the fixed table, a missing header map defaults to exactly
    /// `Content-Type: text/html`, and a supplied one is used as given.
    pub fn new(status_code: &str, headers: Option<Headers>, body: Option<String>) -> (r:
        HttpResponse)
        requires
            match headers {
                Some(h) => h.wf(),
                None => true,
            },
        ensures
            r@.version == "HTTP/1.1"@,
            r@.status_code == status_code@,
            r@.status_text == status_text_for(status_code@),
            r@.headers == Some(
                match headers {
                    Some(h) => h@,
                    None => default_headers(),
                },
            ),
            r@.body == (match body {
                Some(b) => Some(b@),
                None => None::<Seq<char>>,
            }),
            r.wf(),
            r.has_headers(),
    {
        let mut response = HttpResponse::default();
        if !str_eq(status_code, "200") {
            response.status_code = status_code.to_owned();
        }
        response.headers = match headers {
            Some(h) => Some(h),
            None => {
                let mut h = Headers::new();
                h.insert("Content-Type".to_owned(), "text/html".to_owned());
                proof {
                    assert(h@ =~= default_headers());
                }
                Some(h)
            },
        };
        response.status_text = if str_eq(response.status_code.as_str(), "200") {
            "OK".to_owned()
        } else if str_eq(response.status_code.as_str(), "400") {
            "Bad Request".to_owned()
        } else if str_eq(response.status_code.as_str(), "404") {
            "Not Found".to_owned()
        } else if str_eq(response.status_code.as_str(), "500") {
            "Internal Server Error".to_owned()
        } else {
            "Not Found".to_owned()
        };
        response.body = body;
        response
    }

    /// The protocol version of the response.
    pub fn version(&self) -> (r: &str)
        ensures
            r@ == self@.version,
    {
        self.version.as_str()
    }

    /// The status code of the response.
    pub fn status_code(&self) -> (r: &str)
        ensures
            r@ == self@.status_code,
    {
        self.status_code.as_str()
    }

    /// The status text of the response.
    pub fn status_text(&self) -> (r: &str)
        ensures
            r@ == self@.status_text,
    {
        self.status_text.as_str()
    }

    /// The header entries on the wire, `key:value\r\n` each, in insertion
    /// order.
    pub fn headers(&self) -> (r: String)
        requires
            self.has_headers(),
        ensures
            r@ == headers_block(resp_headers(self@)),
    {
        match &self.headers {
            Some(h) => {
                let n = h.len();
                let mut out = String::new();
                let mut i: usize = 0;
                while i < n
                    invariant
                        0 <= i <= n,
                        n == h@.len(),
                        out@ == headers_block(h@.take(i as int)),
                    decreases n - i,
                {
                    out.append(h.key_at(i).as_str());
                    out.append(":");
                    out.append(h.value_at(i).as_str());
                    out.append("\r\n");
                    proof {
                        assert(h@.take(i + 1).drop_last() =~= h@.take(i as int));
                        assert(h@.take(i + 1).last() == h@[i as int]);
                        assert(out@ =~= headers_block(h@.take(i + 1)));
                    }
                    i = i + 1;
                }
                proof {
                    assert(h@.take(n as int) =~= h@);
                }
                out
            },
            None => unreached(),
        }
    }

    /// The body of the response; empty when there is none.
    pub fn body(&self) -> (r: &str)
        ensures
            r@ == body_chars(self@.body),
    {
        match &self.body {
            Some(b) => b.as_str(),
            None => {
                let r = "";
                proof {
                    reveal_strlit("");
                    assert(r@ =~= Seq::<char>::empty());
                }
                r
            },
        }
    }

    /// Serializes the response to its exact wire form.
    pub fn response_string(&self) -> (r: String)
        requires
            self.has_headers(),
        ensures
            r@ == spec_response_string(self@),
    {
        let mut out = self.version.clone();
        out.append(" ");
        out.append(self.status_code.as_str());
        out.append(" ");
        out.append(self.status_text.as_str());
        out.append("\r\n");
        let hdrs = self.headers();
        out.append(hdrs.as_str());
        out.append("Content-Length: ");
        let blen: usize = match &self.body {
            Some(b) => b.as_str().len(),
            None => 0,
        };
        let dec = usize_to_dec(blen);
        out.append(dec.as_str());
        out.append("\r\n\r\n");
        match &self.body {
            Some(b) => out.append(b.as_str()),
            None => {},
        }
        proof {
            assert(out@ =~= spec_response_string(self@));
        }
        out
    }

    /// Serializes the response and hands it to the sink. A write failure is
    /// swallowed: the caller receives a success signal regardless.
    pub fn send_response<W: std::io::Write>(&self, write_stream: &mut W) -> (r: Result<(), ()>)
        requires
            self.has_headers(),
        ensures
            r is Ok,
    {
        let response_string = self.response_string();
        write_str(write_stream, response_string.as_str());
        Ok(())
    }
}

/// Every status code outside the fixed table — `200`, `400`, `404`, `500` —
/// is labeled `Not Found`, a quirk the table deliberately keeps.
pub proof fn lemma_unknown_status_text(code: Seq<char>)
    requires
        code != "200"@,
        code != "400"@,
        code != "404"@,
        code != "500"@,
    ensures
        status_text_for(code) == "Not Found"@,
{
}

/// The `Content-Length` header always stands in the serialized form: every
/// wire string ends with `Content-Length: ` and the byte length of the body
/// — `0` when there is none — then the blank line, then the body.
pub proof fn lemma_content_length_present(m: RespModel)
    ensures
        content_length(m.body) == encode_utf8(body_chars(m.body)).len() as usize as int,
        exists|i: int|
            0 <= i <= spec_response_string(m).len() && spec_response_string(m).subrange(
                i,
                spec_response_string(m).len() as int,
            ) == "Content-Length: "@ + spec_dec(content_length(m.body)) + "\r\n\r\n"@ + body_chars(
                m.body,
            ),
{
    let head = m.version + " "@ + m.status_code + " "@ + m.status_text + "\r\n"@ + headers_block(
        resp_headers(m),
    );
    let cl = "Content-Length: "@ + spec_dec(content_length(m.body)) + "\r\n\r\n"@ + body_chars(
        m.body,
    );
    let whole = spec_response_string(m);
    let w: int = head.len() as int;
    assert(whole.subrange(w, whole.len() as int) =~= cl);
    assert(0 <= w <= whole.len() && whole.subrange(w, whole.len() as int) == cl);
}

/// Relies on std::io::Write::write_all to move the bytes to the sink; the
/// outcome of the write is deliberately dropped.
#[verifier::external_body]
fn write_str<W: std::io::Write>(sink: &mut W, data: &str) {
    let _ = sink.write_all(data.as_bytes());
}

} // verus!
