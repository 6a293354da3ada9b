//! The request side of the protocol: methods, versions, the request target,
//! and a best-effort parser that turns the raw text of one request into a
//! structured `HttpRequest`. Malformed input degrades to `Uninitialized`
//! fields; it is never rejected.
use vstd::prelude::*;

use crate::headers::Headers;
use crate::headers::insert_pair;
use crate::strutil::contains_char;
use crate::strutil::contains_http;
use crate::strutil::find_char;
use crate::strutil::find_from;
use crate::strutil::find_ws;
use crate::strutil::find_ws_from;
use crate::strutil::has_http;
use crate::strutil::lemma_find_from;
use crate::strutil::lemma_find_ws_from;
use crate::strutil::lemma_skip_ws_from;
use crate::strutil::skip_ws;
use crate::strutil::skip_ws_from;
use crate::strutil::spec_trim;
use crate::strutil::str_eq;
use crate::strutil::trim_str;

verus! {

/// The request methods this server distinguishes.
#[derive(Debug, PartialEq, Eq, Structural, Clone, Copy)]
pub enum Method {
    Get,
    Post,
    Uninitialized,
}

/// Which variant a method token maps to: only the exact strings `GET` and
/// `POST` are recognized.
pub open spec fn method_of(s: Seq<char>) -> Method {
    if s == "GET"@ {
        Method::Get
    } else if s == "POST"@ {
        Method::Post
    } else {
        Method::Uninitialized
    }
}

impl Method {
    /// Maps a method token to its variant; anything unrecognized maps to
    /// `Uninitialized` rather than failing.
    pub fn from(value: &str) -> (r: Method)
        ensures
            r == method_of(value@),
    {
        if str_eq(value, "GET") {
            Method::Get
        } else if str_eq(value, "POST") {
            Method::Post
        } else {
            Method::Uninitialized
        }
    }
}

/// The protocol versions this server distinguishes.
#[derive(Debug, PartialEq, Eq, Structural, Clone, Copy)]
pub enum Version {
    V1_1,
    V2_0,
    Uninitialized,
}

/// Which variant a version token maps to: only the exact literal `HTTP/1.1`
/// is recognized; every other string, valid or not, is `Uninitialized`.
pub open spec fn version_of(s: Seq<char>) -> Version {
    if s == "HTTP/1.1"@ {
        Version::V1_1
    } else {
        Version::Uninitialized
    }
}

impl Version {
    /// Maps a version token to its variant; anything but `HTTP/1.1` maps to
    /// `Uninitialized` rather than failing.
    pub fn from(value: &str) -> (r: Version)
        ensures
            r == version_of(value@),
    {
        if str_eq(value, "HTTP/1.1") {
            Version::V1_1
        } else {
            Version::Uninitialized
        }
    }
}

/// The request target, carried exactly as received: no decoding and no
/// normalization.
#[derive(Debug, PartialEq)]
pub enum Resource {
    Path(String),
}

impl Resource {
    /// The characters of the wrapped path.
    pub open spec fn path(self) -> Seq<char> {
        match self {
            Resource::Path(s) => s@,
        }
    }
}

/// The mathematical model of a request: what each field holds, as sequences
/// of characters.
pub ghost struct ReqModel {
    pub method: Method,
    pub version: Version,
    pub path: Seq<char>,
    pub headers: Seq<(Seq<char>, Seq<char>)>,
    pub body: Seq<char>,
}

/// A parsed request.
#[derive(Debug)]
pub struct HttpRequest {
    pub method: Method,
    pub version: Version,
    pub resource: Resource,
    pub headers: Headers,
    pub msg_body: String,
}

impl View for HttpRequest {
    type V = ReqModel;

    open spec fn view(&self) -> ReqModel {
        ReqModel {
            method: self.method,
            version: self.version,
            path: self.resource.path(),
            headers: self.headers@,
            body: self.msg_body@,
        }
    }
}

/// The state the parser starts from: no method, no version, an empty path,
/// no headers and no body — malformed input that never sets them degrades to
/// these values rather than failing.
pub open spec fn init_req() -> ReqModel {
    ReqModel {
        method: Method::Uninitialized,
        version: Version::Uninitialized,
        path: Seq::<char>::empty(),
        headers: Seq::<(Seq<char>, Seq<char>)>::empty(),
        body: Seq::<char>::empty(),
    }
}

/// The text of the line that starts at `pos` and ends at the newline index
/// `k`: a `\r` standing right before the newline is not part of the line.
pub open spec fn line_chunk(s: Seq<char>, pos: int, k: int) -> Seq<char> {
    if k < s.len() && k > pos && s[k - 1] == '\r' {
        s.subrange(pos, k - 1)
    } else {
        s.subrange(pos, k)
    }
}

/// The lines of `s` from `pos` on, split at `\n` with a preceding `\r`
/// stripped; a trailing newline opens no further line.
pub open spec fn spec_lines_from(s: Seq<char>, pos: int) -> Seq<Seq<char>>
    decreases s.len() - pos,
        when 0 <= pos
        via spec_lines_from_dec
{
    if pos >= s.len() {
        Seq::<Seq<char>>::empty()
    } else {
        let k = find_from(s, '\n', pos);
        if k >= s.len() {
            seq![line_chunk(s, pos, k)]
        } else {
            seq![line_chunk(s, pos, k)] + spec_lines_from(s, k + 1)
        }
    }
}

#[via_fn]
proof fn spec_lines_from_dec(s: Seq<char>, pos: int) {
    if 0 <= pos < s.len() {
        lemma_find_from(s, '\n', pos);
    }
}

/// The lines of one request text.
pub open spec fn spec_lines(s: Seq<char>) -> Seq<Seq<char>> {
    spec_lines_from(s, 0)
}

/// The first three whitespace-separated tokens of a request line — method,
/// request target and version, in that fixed order — when all three are
/// there; extra tokens are ignored.
pub open spec fn spec_req_line(l: Seq<char>) -> Option<(Method, Seq<char>, Version)> {
    let a1 = skip_ws_from(l, 0);
    let e1 = find_ws_from(l, a1);
    let a2 = skip_ws_from(l, e1);
    let e2 = find_ws_from(l, a2);
    let a3 = skip_ws_from(l, e2);
    let e3 = find_ws_from(l, a3);
    if a1 < l.len() && a2 < l.len() && a3 < l.len() {
        Some(
            (
                method_of(l.subrange(a1, e1)),
                l.subrange(a2, e2),
                version_of(l.subrange(a3, e3)),
            ),
        )
    } else {
        None
    }
}

/// The key/value pair of a header line: the text before the first `:` and
/// everything after it, both trimmed — so a value may itself hold a `:`, as
/// in `Host: localhost:3000`; a missing value is empty.
pub open spec fn spec_header_kv(l: Seq<char>) -> (Seq<char>, Seq<char>) {
    let c1 = find_from(l, ':', 0);
    let key = spec_trim(l.subrange(0, c1));
    if c1 == l.len() {
        (key, Seq::<char>::empty())
    } else {
        (key, spec_trim(l.subrange(c1 + 1, l.len() as int)))
    }
}

/// How one line changes the parse state. A line holding `HTTP` is the
/// request line (one with too few tokens changes nothing); else a line
/// holding `:` is a header; any other non-empty line overwrites the body.
pub open spec fn step_line(st: ReqModel, l: Seq<char>) -> ReqModel {
    if contains_http(l) {
        match spec_req_line(l) {
            Some(t) => ReqModel { method: t.0, path: t.1, version: t.2, ..st },
            None => st,
        }
    } else if contains_char(l, ':') {
        let kv = spec_header_kv(l);
        ReqModel { headers: insert_pair(st.headers, kv.0, kv.1), ..st }
    } else {
        ReqModel { body: l, ..st }
    }
}

/// Folds the parser over the lines, stopping at the first empty line; lines
/// after the terminator are never consulted.
pub open spec fn spec_fold(lines: Seq<Seq<char>>, st: ReqModel) -> ReqModel
    decreases lines.len(),
{
    if lines.len() == 0 {
        st
    } else {
        let l = lines[0];
        if !contains_http(l) && !contains_char(l, ':') && l.len() == 0 {
            st
        } else {
            spec_fold(lines.drop_first(), step_line(st, l))
        }
    }
}

/// What parsing one request text yields.
pub open spec fn spec_parse(s: Seq<char>) -> ReqModel {
    spec_fold(spec_lines(s), init_req())
}

/// Splits a request line on whitespace and converts its first three tokens;
/// a line with fewer than three tokens yields nothing instead of failing.
pub fn process_req_line(s: &str) -> (r: Option<(Method, String, Version)>)
    ensures
        match r {
            Some(t) => spec_req_line(s@) == Some((t.0, t.1@, t.2)),
            None => spec_req_line(s@) is None,
        },
{
    let n = s.unicode_len();
    let a1 = skip_ws(s, 0);
    proof {
        lemma_skip_ws_from(s@, 0);
    }
    if a1 == n {
        return None;
    }
    let e1 = find_ws(s, a1);
    proof {
        lemma_find_ws_from(s@, a1 as int);
    }
    let a2 = skip_ws(s, e1);
    proof {
        lemma_skip_ws_from(s@, e1 as int);
    }
    if a2 == n {
        return None;
    }
    let e2 = find_ws(s, a2);
    proof {
        lemma_find_ws_from(s@, a2 as int);
    }
    let a3 = skip_ws(s, e2);
    proof {
        lemma_skip_ws_from(s@, e2 as int);
    }
    if a3 == n {
        return None;
    }
    let e3 = find_ws(s, a3);
    proof {
        lemma_find_ws_from(s@, a3 as int);
    }
    let method = Method::from(s.substring_char(a1, e1));
    let resource = s.substring_char(a2, e2).to_owned();
    let version = Version::from(s.substring_char(a3, e3));
    Some((method, resource, version))
}

/// Splits a header line at its first `:` into a trimmed key and a trimmed
/// value; the value keeps any further `:` it holds.
pub fn process_header_line(s: &str) -> (r: (String, String))
    ensures
        (r.0@, r.1@) == spec_header_kv(s@),
{
    let n = s.unicode_len();
    let c1 = find_char(s, ':', 0);
    proof {
        lemma_find_from(s@, ':', 0);
    }
    let key = trim_str(s.substring_char(0, c1));
    if c1 == n {
        (key, String::new())
    } else {
        let value = trim_str(s.substring_char(c1 + 1, n));
        (key, value)
    }
}

impl HttpRequest {
    /// Parses the full text of one request. Never fails: whatever the input,
    /// the result is exactly the fold of the line classifier over the lines
    /// up to the first empty one.
    pub fn from(req: String) -> (r: HttpRequest)
        ensures
            r@ == spec_parse(req@),
            r.headers.wf(),
    {
        let s: &str = req.as_str();
        let n = s.unicode_len();
        let mut method = Method::Uninitialized;
        let mut version = Version::Uninitialized;
        let mut path = String::new();
        let mut headers = Headers::new();
        let mut msg_body = String::new();
        let mut pos: usize = 0;
        let mut done = false;
        while !done && pos < n
            invariant
                pos <= n,
                n == s@.len(),
                s@ == req@,
                headers.wf(),
                !done ==> spec_parse(req@) == spec_fold(
                    spec_lines_from(s@, pos as int),
                    ReqModel {
                        method: method,
                        version: version,
                        path: path@,
                        headers: headers@,
                        body: msg_body@,
                    },
                ),
                done ==> spec_parse(req@) == (ReqModel {
                    method: method,
                    version: version,
                    path: path@,
                    headers: headers@,
                    body: msg_body@,
                }),
            decreases n - pos + (if done { 0int } else { 1int }),
        {
            let ghost st = ReqModel {
                method: method,
                version: version,
                path: path@,
                headers: headers@,
                body: msg_body@,
            };
            let k = find_char(s, '\n', pos);
            proof {
                lemma_find_from(s@, '\n', pos as int);
            }
            let e = if k < n && k > pos && s.get_char(k - 1) == '\r' {
                k - 1
            } else {
                k
            };
            let line = s.substring_char(pos, e);
            proof {
                assert(line@ =~= line_chunk(s@, pos as int, k as int));
                if k < n {
                    assert(spec_lines_from(s@, pos as int) == seq![line@] + spec_lines_from(
                        s@,
                        k as int + 1,
                    ));
                    assert((seq![line@] + spec_lines_from(s@, k as int + 1)).drop_first()
                        =~= spec_lines_from(s@, k as int + 1));
                } else {
                    assert(spec_lines_from(s@, pos as int) == seq![line@]);
                    assert(seq![line@].drop_first() =~= Seq::<Seq<char>>::empty());
                }
            }
            if has_http(line) {
                match process_req_line(line) {
                    Some(t) => {
                        method = t.0;
                        path = t.1;
                        version = t.2;
                    },
                    None => {},
                }
            } else if find_char(line, ':', 0) < line.unicode_len() {
                let kv = process_header_line(line);
                headers.insert(kv.0, kv.1);
            } else if line.unicode_len() == 0 {
                done = true;
            } else {
                msg_body = line.to_owned();
            }
            proof {
                let stepped = ReqModel {
                    method: method,
                    version: version,
                    path: path@,
                    headers: headers@,
                    body: msg_body@,
                };
                if done {
                    assert(spec_fold(spec_lines_from(s@, pos as int), st) == st);
                } else {
                    assert(stepped == step_line(st, line@));
                }
            }
            if !done {
                if k >= n {
                    pos = n;
                } else {
                    pos = k + 1;
                }
            }
        }
        let r = HttpRequest {
            method: method,
            version: version,
            resource: Resource::Path(path),
            headers: headers,
            msg_body: msg_body,
        };
        r
    }
}

/// A line the parser files as a header: no `HTTP` marker, but a `:`.
pub open spec fn is_header_line(l: Seq<char>) -> bool {
    !contains_http(l) && contains_char(l, ':')
}

/// A line the parser files as body: no `HTTP` marker, no `:`, not empty.
pub open spec fn is_body_line(l: Seq<char>) -> bool {
    !contains_http(l) && !contains_char(l, ':') && l.len() > 0
}

/// The key/value pairs of a run of header lines, in order.
pub open spec fn kv_seq(hls: Seq<Seq<char>>) -> Seq<(Seq<char>, Seq<char>)> {
    Seq::new(hls.len(), |i: int| spec_header_kv(hls[i]))
}

/// Folding a run of header lines whose keys are fresh and pairwise distinct
/// appends their pairs to the state, in order, and touches nothing else.
proof fn lemma_fold_header_lines(hls: Seq<Seq<char>>, tail: Seq<Seq<char>>, st: ReqModel)
    requires
        forall|i: int| 0 <= i < hls.len() ==> is_header_line(#[trigger] hls[i]),
        forall|i: int, j: int|
            0 <= i < j < hls.len() ==> spec_header_kv(hls[i]).0 != spec_header_kv(hls[j]).0,
        forall|i: int|
            0 <= i < hls.len() ==> crate::headers::lookup_pair(
                st.headers,
                spec_header_kv(#[trigger] hls[i]).0,
            ) is None,
    ensures
        spec_fold(hls + tail, st) == spec_fold(
            tail,
            ReqModel { headers: st.headers + kv_seq(hls), ..st },
        ),
    decreases hls.len(),
{
    if hls.len() == 0 {
        assert(hls + tail =~= tail);
        assert(st.headers + kv_seq(hls) =~= st.headers);
        assert(ReqModel { headers: st.headers + kv_seq(hls), ..st } == st);
    } else {
        let l = hls[0];
        let kv = spec_header_kv(l);
        let lines = hls + tail;
        assert(lines[0] == l);
        let st2 = step_line(st, l);
        assert(st2 == ReqModel { headers: insert_pair(st.headers, kv.0, kv.1), ..st });
        crate::headers::lemma_lookup_none_inv(st.headers, kv.0);
        crate::headers::lemma_insert_pair_fresh(st.headers, kv.0, kv.1);
        assert(st2.headers =~= st.headers.push((kv.0, kv.1)));
        assert(lines.drop_first() =~= hls.drop_first() + tail);
        let hls2 = hls.drop_first();
        assert forall|i: int| 0 <= i < hls2.len() implies is_header_line(#[trigger] hls2[i]) by {
            assert(hls2[i] == hls[i + 1]);
        }
        assert forall|i: int, j: int| 0 <= i < j < hls2.len() implies spec_header_kv(hls2[i]).0
            != spec_header_kv(hls2[j]).0 by {
            assert(hls2[i] == hls[i + 1] && hls2[j] == hls[j + 1]);
        }
        assert forall|i: int| 0 <= i < hls2.len() implies crate::headers::lookup_pair(
            st2.headers,
            spec_header_kv(#[trigger] hls2[i]).0,
        ) is None by {
            assert(hls2[i] == hls[i + 1]);
            assert(spec_header_kv(hls[i + 1]).0 != kv.0);
            crate::headers::lemma_lookup_insert(
                st.headers,
                kv.0,
                kv.1,
                spec_header_kv(hls[i + 1]).0,
            );
        }
        lemma_fold_header_lines(hls2, tail, st2);
        assert(st2.headers + kv_seq(hls2) =~= st.headers + kv_seq(hls));
        assert(ReqModel { headers: st2.headers + kv_seq(hls2), ..st2 } == ReqModel {
            headers: st.headers + kv_seq(hls),
            ..st
        });
    }
}

/// Folding a run of body lines keeps only the last one, in the body field.
proof fn lemma_fold_body_lines(bls: Seq<Seq<char>>, tail: Seq<Seq<char>>, st: ReqModel)
    requires
        bls.len() > 0,
        forall|i: int| 0 <= i < bls.len() ==> is_body_line(#[trigger] bls[i]),
    ensures
        spec_fold(bls + tail, st) == spec_fold(tail, ReqModel { body: bls.last(), ..st }),
    decreases bls.len(),
{
    let l = bls[0];
    let lines = bls + tail;
    assert(lines[0] == l);
    let st2 = step_line(st, l);
    assert(st2 == ReqModel { body: l, ..st });
    assert(lines.drop_first() =~= bls.drop_first() + tail);
    if bls.len() == 1 {
        assert(bls.drop_first() + tail =~= tail);
        assert(bls.last() == l);
    } else {
        let bls2 = bls.drop_first();
        assert forall|i: int| 0 <= i < bls2.len() implies is_body_line(#[trigger] bls2[i]) by {
            assert(bls2[i] == bls[i + 1]);
        }
        lemma_fold_body_lines(bls2, tail, st2);
        assert(bls2.last() == bls.last());
        assert(ReqModel { body: bls2.last(), ..st2 } == ReqModel { body: bls.last(), ..st });
    }
}

/// Round-trip: a well-formed request — one request line, `N` header lines
/// with pairwise distinct trimmed keys, a run of body-candidate lines, the
/// blank-line terminator, then anything — parses to exactly those `N`
/// trimmed pairs in order, the request line's three tokens, and the last
/// body-candidate line; lines after the terminator are never consulted.
pub proof fn lemma_parse_round_trip(
    rl: Seq<char>,
    hls: Seq<Seq<char>>,
    bls: Seq<Seq<char>>,
    rest: Seq<Seq<char>>,
    m0: Method,
    p0: Seq<char>,
    v0: Version,
)
    requires
        contains_http(rl),
        spec_req_line(rl) == Some((m0, p0, v0)),
        forall|i: int| 0 <= i < hls.len() ==> is_header_line(#[trigger] hls[i]),
        forall|i: int, j: int|
            0 <= i < j < hls.len() ==> spec_header_kv(hls[i]).0 != spec_header_kv(hls[j]).0,
        forall|i: int| 0 <= i < bls.len() ==> is_body_line(#[trigger] bls[i]),
    ensures
        ({
            let parsed = spec_fold(
                seq![rl] + hls + bls + seq![Seq::<char>::empty()] + rest,
                init_req(),
            );
            &&& parsed.method == m0
            &&& parsed.path == p0
            &&& parsed.version == v0
            &&& parsed.headers.len() == hls.len()
            &&& (forall|i: int|
                0 <= i < hls.len() ==> parsed.headers[i] == spec_header_kv(#[trigger] hls[i]))
            &&& parsed.body == (if bls.len() == 0 {
                Seq::<char>::empty()
            } else {
                bls.last()
            })
        }),
{
    let terminator = Seq::<char>::empty();
    let lines = seq![rl] + hls + bls + seq![terminator] + rest;
    let tl2 = seq![terminator] + rest;
    assert(lines[0] == rl);
    let st1 = step_line(init_req(), rl);
    assert(st1 == ReqModel { method: m0, path: p0, version: v0, ..init_req() });
    assert(spec_fold(lines, init_req()) == spec_fold(lines.drop_first(), st1));
    assert(lines.drop_first() =~= hls + (bls + tl2));
    assert(st1.headers.len() == 0);
    assert forall|i: int| 0 <= i < hls.len() implies crate::headers::lookup_pair(
        st1.headers,
        spec_header_kv(#[trigger] hls[i]).0,
    ) is None by {}
    lemma_fold_header_lines(hls, bls + tl2, st1);
    let st2 = ReqModel { headers: st1.headers + kv_seq(hls), ..st1 };
    assert(!contains_http(terminator));
    assert(!contains_char(terminator, ':'));
    assert(tl2[0] == terminator);
    let parsed = spec_fold(lines, init_req());
    if bls.len() > 0 {
        lemma_fold_body_lines(bls, tl2, st2);
        let st3 = ReqModel { body: bls.last(), ..st2 };
        assert(spec_fold(tl2, st3) == st3);
        assert(parsed == st3);
    } else {
        assert(bls + tl2 =~= tl2);
        assert(spec_fold(tl2, st2) == st2);
        assert(parsed == st2);
    }
    assert(parsed.headers =~= kv_seq(hls));
}

/// The round-trip law at the buffer level: when the lines of a request text
/// decompose into a request line, `N` distinct-keyed header lines, body
/// lines and the terminator, `spec_parse` of the text yields exactly the `N`
/// trimmed pairs, the three request-line tokens, and the last body line.
pub proof fn lemma_parse_buffer_round_trip(
    s: Seq<char>,
    rl: Seq<char>,
    hls: Seq<Seq<char>>,
    bls: Seq<Seq<char>>,
    rest: Seq<Seq<char>>,
    m0: Method,
    p0: Seq<char>,
    v0: Version,
)
    requires
        spec_lines(s) == seq![rl] + hls + bls + seq![Seq::<char>::empty()] + rest,
        contains_http(rl),
        spec_req_line(rl) == Some((m0, p0, v0)),
        forall|i: int| 0 <= i < hls.len() ==> is_header_line(#[trigger] hls[i]),
        forall|i: int, j: int|
            0 <= i < j < hls.len() ==> spec_header_kv(hls[i]).0 != spec_header_kv(hls[j]).0,
        forall|i: int| 0 <= i < bls.len() ==> is_body_line(#[trigger] bls[i]),
    ensures
        spec_parse(s).method == m0,
        spec_parse(s).path == p0,
        spec_parse(s).version == v0,
        spec_parse(s).headers.len() == hls.len(),
        forall|i: int|
            0 <= i < hls.len() ==> spec_parse(s).headers[i] == spec_header_kv(#[trigger] hls[i]),
        spec_parse(s).body == (if bls.len() == 0 {
            Seq::<char>::empty()
        } else {
            bls.last()
        }),
{
    lemma_parse_round_trip(rl, hls, bls, rest, m0, p0, v0);
}

} // verus!
