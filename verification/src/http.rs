//! The request/response protocol adapter: structured requests, status
//! and error formatting, and the wire form of responses.

use vstd::prelude::*;
use vstd::utf8::encode_utf8;
use crate::codec::{enc_key, enc_quoted};
use crate::text::int_str;

verus! {

/// A request method this server understands.
#[derive(PartialEq, Eq, Structural, Clone, Copy, Debug)]
pub enum HttpMethod {
    GET,
    POST,
    DELETE,
    OPTIONS,
}

/// The name of a method on the wire.
pub open spec fn method_str(m: HttpMethod) -> Seq<char> {
    match m {
        HttpMethod::GET => "GET"@,
        HttpMethod::POST => "POST"@,
        HttpMethod::OPTIONS => "OPTIONS"@,
        HttpMethod::DELETE => "DELETE"@,
    }
}

impl HttpMethod {
    /// The wire name of this method.
    pub fn as_str(&self) -> (r: &'static str)
        ensures
            r@ == method_str(*self),
    {
        match self {
            HttpMethod::GET => "GET",
            HttpMethod::POST => "POST",
            HttpMethod::OPTIONS => "OPTIONS",
            HttpMethod::DELETE => "DELETE",
        }
    }

    /// Reads a method from its wire name.  Callers must have validated
    /// the name first; anything else is outside this function's domain.
    pub fn new(raw: &str) -> (r: HttpMethod)
        requires
            raw@ == "GET"@ || raw@ == "POST"@ || raw@ == "OPTIONS"@ || raw@ == "DELETE"@,
        ensures
            method_str(r) == raw@,
    {
        if crate::text::str_eq(raw, "GET") {
            HttpMethod::GET
        } else if crate::text::str_eq(raw, "POST") {
            HttpMethod::POST
        } else if crate::text::str_eq(raw, "OPTIONS") {
            HttpMethod::OPTIONS
        } else {
            HttpMethod::DELETE
        }
    }
}

/// The error kinds a handler can report.
#[derive(PartialEq, Eq, Structural, Clone, Copy, Debug)]
pub enum HttpErrorCode {
    Error400BadRequest,
    Error401Unauthorized,
    Error403Forbidden,
    Error404NotFround,
    Error409Conflict,
    Error500InternalServerError,
    Error501NotImplemented,
    Error503ServiceUnavailable,
}

/// A handler failure: an error kind and a human-readable message.
#[derive(Debug)]
pub struct HttpError {
    pub code: HttpErrorCode,
    pub message: String,
}

/// The status line text of an error kind.
pub open spec fn status_str(code: HttpErrorCode) -> Seq<char> {
    match code {
        HttpErrorCode::Error400BadRequest => "400 Bad request"@,
        HttpErrorCode::Error401Unauthorized => "401 Unauthorized"@,
        HttpErrorCode::Error403Forbidden => "403 Forbidden"@,
        HttpErrorCode::Error404NotFround => "404 Not found"@,
        HttpErrorCode::Error409Conflict => "409 Conflict"@,
        HttpErrorCode::Error501NotImplemented => "501 Not implemented"@,
        HttpErrorCode::Error503ServiceUnavailable => "503 Service unavailable"@,
        HttpErrorCode::Error500InternalServerError => "500 Internal Server Error"@,
    }
}

/// The status line text of an error kind.
pub fn status_str_exec(code: HttpErrorCode) -> (r: &'static str)
    ensures
        r@ == status_str(code),
{
    match code {
        HttpErrorCode::Error400BadRequest => "400 Bad request",
        HttpErrorCode::Error401Unauthorized => "401 Unauthorized",
        HttpErrorCode::Error403Forbidden => "403 Forbidden",
        HttpErrorCode::Error404NotFround => "404 Not found",
        HttpErrorCode::Error409Conflict => "409 Conflict",
        HttpErrorCode::Error501NotImplemented => "501 Not implemented",
        HttpErrorCode::Error503ServiceUnavailable => "503 Service unavailable",
        HttpErrorCode::Error500InternalServerError => "500 Internal Server Error",
    }
}

/// The JSON error body carrying `message`.
pub open spec fn err_body(message: Seq<char>) -> Seq<char> {
    seq!['{'] + enc_key("error_message"@) + enc_quoted(message) + seq!['}']
}

/// Renders the JSON error body `{"error_message":"..."}`.
pub fn error_body(error_message: String) -> (r: String)
    ensures
        r@ == err_body(error_message@),
{
    let kv = crate::text::str_to_chars("error_message");
    let mv = crate::text::str_to_chars(error_message.as_str());
    let mut out: Vec<char> = Vec::new();
    out.push('{');
    crate::codec::push_key(&mut out, &kv);
    crate::codec::push_quoted(&mut out, &mv);
    out.push('}');
    proof {
        assert(out@ =~= err_body(error_message@));
    }
    crate::text::chars_to_string(&out)
}

/// A response before it is put on the wire.
pub struct Response {
    pub status: String,
    pub body: String,
    pub headers: Vec<(String, String)>,
}

/// The model of a header list.
pub open spec fn headers_view(h: Seq<(String, String)>) -> Seq<(Seq<char>, Seq<char>)> {
    Seq::new(h.len(), |i: int| (h[i].0@, h[i].1@))
}

impl Response {
    /// Wraps a handler result as a `200 OK` response with no extra
    /// headers, passing failures through.
    pub fn response_from_body(body: Result<String, HttpError>) -> (r: Result<Response, HttpError>)
        ensures
            match body {
                Ok(b) => r matches Ok(rsp) && rsp.body == b && rsp.status@ == "200 OK"@
                    && rsp.headers@.len() == 0,
                Err(e) => r matches Err(e2) && e2.code == e.code && e2.message == e.message,
            },
    {
        match body {
            Ok(b) => Ok(
                Response {
                    body: b,
                    headers: Vec::new(),
                    status: crate::text::str_to_string("200 OK"),
                },
            ),
            Err(e) => Err(e),
        }
    }
}

/// The wire form of the header lines, from index `k` on.
pub open spec fn wire_headers(h: Seq<(Seq<char>, Seq<char>)>, k: int) -> Seq<char>
    decreases h.len() - k,
{
    if !(0 <= k < h.len()) {
        Seq::empty()
    } else {
        h[k].0 + ": "@ + h[k].1 + "\r\n"@ + wire_headers(h, k + 1)
    }
}

/// The wire form of a response: status line, header lines, a
/// `Content-Length` header counting the body's bytes, a blank line, and
/// the body.
pub open spec fn wire_response(
    status: Seq<char>,
    headers: Seq<(Seq<char>, Seq<char>)>,
    body: Seq<char>,
) -> Seq<char> {
    "HTTP/1.1 "@ + status + "\r\n"@ + wire_headers(headers, 0) + "Content-Length: "@ + int_str(
        encode_utf8(body).len() as usize as int,
    ) + "\r\n\r\n"@ + body
}

/// What `build_response` produces for a handler outcome: the response's
/// own wire form on success, an error status with a JSON error body
/// otherwise.
pub open spec fn build_response_spec(r: Result<Response, HttpError>) -> Seq<char> {
    match r {
        Ok(rsp) => wire_response(rsp.status@, headers_view(rsp.headers@), rsp.body@),
        Err(e) => wire_response(status_str(e.code), Seq::empty(), err_body(e.message@)),
    }
}

/// Appends the wire form of the header lines to `out`.
fn push_wire_headers(out: &mut Vec<char>, headers: &Vec<(String, String)>, k: usize)
    requires
        k <= headers.len(),
    ensures
        final(out)@ == old(out)@ + wire_headers(headers_view(headers@), k as int),
    decreases headers.len() - k,
{
    if k < headers.len() {
        crate::text::push_str_chars(out, headers[k].0.as_str());
        crate::text::push_str_chars(out, ": ");
        crate::text::push_str_chars(out, headers[k].1.as_str());
        crate::text::push_str_chars(out, "\r\n");
        push_wire_headers(out, headers, k + 1);
        proof {
            assert(headers_view(headers@)[k as int] == (headers@[k as int].0@, headers@[
                k as int].1@));
            assert(out@ =~= old(out)@ + wire_headers(headers_view(headers@), k as int));
        }
    } else {
        proof {
            assert(out@ =~= old(out)@ + wire_headers(headers_view(headers@), k as int));
        }
    }
}

/// Turns a handler outcome into the bytes-on-the-wire response text.
pub fn build_response(response_body: Result<Response, HttpError>) -> (r: String)
    ensures
        r@ == build_response_spec(response_body),
{
    let response = match response_body {
        Ok(response) => response,
        Err(error) => {
            let eb = error_body(error.message);
            Response { body: eb, status: crate::text::str_to_string(status_str_exec(error.code)), headers: Vec::new() }
        },
    };
    let ghost spec_out = wire_response(
        response.status@,
        headers_view(response.headers@),
        response.body@,
    );
    let length = response.body.as_str().len();
    let mut out: Vec<char> = Vec::new();
    crate::text::push_str_chars(&mut out, "HTTP/1.1 ");
    crate::text::push_str_chars(&mut out, response.status.as_str());
    crate::text::push_str_chars(&mut out, "\r\n");
    push_wire_headers(&mut out, &response.headers, 0);
    crate::text::push_str_chars(&mut out, "Content-Length: ");
    crate::text::push_usize(&mut out, length);
    crate::text::push_str_chars(&mut out, "\r\n\r\n");
    crate::text::push_str_chars(&mut out, response.body.as_str());
    proof {
        assert(out@ =~= spec_out);
    }
    crate::text::chars_to_string(&out)
}

// ------------------------------------------------------------------
// Request parsing
// ------------------------------------------------------------------

/// A structured request.
pub struct Request {
    pub method: HttpMethod,
    pub resource: String,
    pub id: Option<String>,
    pub sub_resource: Option<String>,
    pub headers: Vec<(String, String)>,
    pub body: String,
    pub parameters: Option<Vec<(String, String)>>,
}

/// The mathematical model of a structured request.
pub ghost struct RequestModel {
    pub method: HttpMethod,
    pub resource: Seq<char>,
    pub id: Option<Seq<char>>,
    pub sub_resource: Option<Seq<char>>,
    pub headers: Seq<(Seq<char>, Seq<char>)>,
    pub body: Seq<char>,
    pub parameters: Option<Seq<(Seq<char>, Seq<char>)>>,
}

/// The model of an optional string option.
pub open spec fn opt_view(o: Option<String>) -> Option<Seq<char>> {
    match o {
        Some(s) => Some(s@),
        None => None,
    }
}

/// The model of optional parameters.
pub open spec fn opt_params_view(o: Option<Vec<(String, String)>>) -> Option<
    Seq<(Seq<char>, Seq<char>)>,
> {
    match o {
        Some(ps) => Some(crate::text::pairs_view(ps@)),
        None => None,
    }
}

impl Request {
    /// The model of this request.
    pub open spec fn model(&self) -> RequestModel {
        RequestModel {
            method: self.method,
            resource: self.resource@,
            id: opt_view(self.id),
            sub_resource: opt_view(self.sub_resource),
            headers: crate::text::pairs_view(self.headers@),
            body: self.body@,
            parameters: opt_params_view(self.parameters),
        }
    }
}

/// First index at or after `i` holding `sep` (or the end of the text).
pub open spec fn find_from(s: Seq<char>, i: int, sep: char) -> int
    decreases s.len() - i,
{
    if 0 <= i < s.len() && s[i] != sep {
        find_from(s, i + 1, sep)
    } else {
        i
    }
}

/// The separator search stays in range and stops on the separator.
pub proof fn lemma_find_from(s: Seq<char>, i: int, sep: char)
    requires
        0 <= i <= s.len(),
    ensures
        i <= find_from(s, i, sep) <= s.len(),
        find_from(s, i, sep) < s.len() ==> s[find_from(s, i, sep)] == sep,
        forall|j: int| i <= j < find_from(s, i, sep) ==> s[j] != sep,
    decreases s.len() - i,
{
    if i < s.len() && s[i] != sep {
        lemma_find_from(s, i + 1, sep);
    }
}

/// A line with one trailing carriage return stripped.
pub open spec fn strip_cr(l: Seq<char>) -> Seq<char> {
    if l.len() > 0 && l.last() == '\r' {
        l.drop_last()
    } else {
        l
    }
}

/// The lines of `s` from position `i` on, split on line feeds, each with
/// one trailing carriage return stripped, as `str::lines` yields them.
pub open spec fn split_lines(s: Seq<char>, i: int) -> Seq<Seq<char>>
    decreases s.len() - i,
{
    if !(0 <= i < s.len()) {
        Seq::empty()
    } else {
        let e = find_from(s, i, '\n');
        if e < i {
            Seq::empty()
        } else if e >= s.len() {
            seq![strip_cr(s.subrange(i, s.len() as int))]
        } else {
            seq![strip_cr(s.subrange(i, e))] + split_lines(s, e + 1)
        }
    }
}

/// The remaining lines joined without separators, from index `k` on.
pub open spec fn concat_lines(ls: Seq<Seq<char>>, k: int) -> Seq<char>
    decreases ls.len() - k,
{
    if !(0 <= k < ls.len()) {
        Seq::empty()
    } else {
        ls[k] + concat_lines(ls, k + 1)
    }
}

/// First index of the `": "` separator in a header line, or -1.
pub open spec fn find_colon_sp(l: Seq<char>, i: int) -> int
    decreases l.len() - i,
{
    if !(0 <= i) || i + 2 > l.len() {
        -1
    } else if l[i] == ':' && l[i + 1] == ' ' {
        i
    } else {
        find_colon_sp(l, i + 1)
    }
}

/// A header line split at its first `": "`, if it has one.
pub open spec fn split_header(l: Seq<char>) -> Option<(Seq<char>, Seq<char>)> {
    let j = find_colon_sp(l, 0);
    if j >= 0 {
        Some((l.subrange(0, j), l.subrange(j + 2, l.len() as int)))
    } else {
        None
    }
}

/// The header pairs from line `k` until the first blank line, and the
/// concatenation of the lines after it.  A header line without `": "`
/// makes the whole request unreadable.
pub open spec fn parse_hb(ls: Seq<Seq<char>>, k: int) -> Option<
    (Seq<(Seq<char>, Seq<char>)>, Seq<char>),
>
    decreases ls.len() - k,
{
    if !(0 <= k < ls.len()) {
        Some((Seq::empty(), Seq::empty()))
    } else if ls[k].len() == 0 {
        Some((Seq::empty(), concat_lines(ls, k + 1)))
    } else {
        match split_header(ls[k]) {
            None => None,
            Some(h) => match parse_hb(ls, k + 1) {
                None => None,
                Some((hs, b)) => Some((seq![h] + hs, b)),
            },
        }
    }
}

/// Character classes of the request-line grammar.
pub open spec fn is_res_char(c: char) -> bool {
    ('a' as u32 <= c as u32 <= 'z' as u32) || c == '-'
}

/// Part of the request-line grammar: id segment characters.
pub open spec fn is_sub_char(c: char) -> bool {
    ('a' as u32 <= c as u32 <= 'z' as u32) || crate::text::is_digit(c)
}

/// Part of the request-line grammar: query-string characters.
pub open spec fn is_param_char(c: char) -> bool {
    is_sub_char(c) || c == '-' || c == '=' || c == '&'
}

/// End of the run of resource characters starting at `i`.
pub open spec fn res_end(s: Seq<char>, i: int) -> int
    decreases s.len() - i,
{
    if 0 <= i < s.len() && is_res_char(s[i]) {
        res_end(s, i + 1)
    } else {
        i
    }
}

/// End of the run of id characters starting at `i`.
pub open spec fn id_end(s: Seq<char>, i: int) -> int
    decreases s.len() - i,
{
    if 0 <= i < s.len() && crate::text::is_alnum(s[i]) {
        id_end(s, i + 1)
    } else {
        i
    }
}

/// End of the run of sub-resource characters starting at `i`.
pub open spec fn sub_end(s: Seq<char>, i: int) -> int
    decreases s.len() - i,
{
    if 0 <= i < s.len() && is_sub_char(s[i]) {
        sub_end(s, i + 1)
    } else {
        i
    }
}

/// End of the run of query-string characters starting at `i`.
pub open spec fn param_end(s: Seq<char>, i: int) -> int
    decreases s.len() - i,
{
    if 0 <= i < s.len() && is_param_char(s[i]) {
        param_end(s, i + 1)
    } else {
        i
    }
}

/// The parsed request line, before the header and body sections.
pub ghost struct ReqLine {
    pub method: HttpMethod,
    pub resource: Seq<char>,
    pub id: Option<Seq<char>>,
    pub sub_resource: Option<Seq<char>>,
    pub params: Option<Seq<char>>,
}

/// The method naming this request and the position after its trailing
/// space, if the line starts with a known method.
pub open spec fn method_of_line(l: Seq<char>) -> Option<(HttpMethod, int)> {
    if l.len() >= 4 && l.subrange(0, 4) == "GET "@ {
        Some((HttpMethod::GET, 4))
    } else if l.len() >= 5 && l.subrange(0, 5) == "POST "@ {
        Some((HttpMethod::POST, 5))
    } else if l.len() >= 7 && l.subrange(0, 7) == "DELETE "@ {
        Some((HttpMethod::DELETE, 7))
    } else if l.len() >= 8 && l.subrange(0, 8) == "OPTIONS "@ {
        Some((HttpMethod::OPTIONS, 8))
    } else {
        None
    }
}

/// The request-line grammar: a method, `/resource`, an optional
/// `/id`, an optional `/sub-resource`, an optional `?query`, and the
/// protocol name, matched greedily from the start of the line.
pub open spec fn parse_req_line(l: Seq<char>) -> Option<ReqLine> {
    match method_of_line(l) {
        None => None,
        Some((method, mi)) => {
            if !(mi < l.len() && l[mi] == '/') {
                None
            } else {
                let re = res_end(l, mi + 1);
                let resource = l.subrange(mi, re);
                let has_id = re < l.len() && l[re] == '/' && id_end(l, re + 1) > re + 1;
                let ie = if has_id {
                    id_end(l, re + 1)
                } else {
                    re
                };
                let id = if has_id {
                    Some(l.subrange(re + 1, ie))
                } else {
                    None
                };
                if re < l.len() && l[re] == '/' && !has_id {
                    None
                } else {
                    let has_sub = has_id && ie < l.len() && l[ie] == '/' && sub_end(l, ie + 1) > ie
                        + 1;
                    let se = if has_sub {
                        sub_end(l, ie + 1)
                    } else {
                        ie
                    };
                    let sub = if has_sub {
                        Some(l.subrange(ie + 1, se))
                    } else {
                        None
                    };
                    if has_id && ie < l.len() && l[ie] == '/' && !has_sub {
                        None
                    } else {
                        let has_q = se < l.len() && l[se] == '?' && param_end(l, se + 1) > se + 1;
                        let qe = if has_q {
                            param_end(l, se + 1)
                        } else {
                            se
                        };
                        let params = if has_q {
                            Some(l.subrange(se + 1, qe))
                        } else {
                            None
                        };
                        if se < l.len() && l[se] == '?' && !has_q {
                            None
                        } else {
                            if qe + 9 <= l.len() && l.subrange(qe, qe + 9) == " HTTP/1.1"@ {
                                Some(ReqLine { method, resource, id, sub_resource: sub, params })
                            } else {
                                None
                            }
                        }
                    }
                }
            }
        },
    }
}

/// The segments of `s` split on `sep`, as `str::split` yields them.
pub open spec fn split_on(s: Seq<char>, i: int, sep: char) -> Seq<Seq<char>>
    decreases s.len() - i,
{
    if !(0 <= i <= s.len()) {
        Seq::empty()
    } else {
        let e = find_from(s, i, sep);
        if e < i {
            Seq::empty()
        } else if e < s.len() {
            seq![s.subrange(i, e)] + split_on(s, e + 1, sep)
        } else {
            seq![s.subrange(i, e)]
        }
    }
}

/// A query segment as a pair, when it has exactly one equals sign.
pub open spec fn seg_pair(seg: Seq<char>) -> Option<(Seq<char>, Seq<char>)> {
    let j = find_from(seg, 0, '=');
    if j < seg.len() && find_from(seg, j + 1, '=') == seg.len() {
        Some((seg.subrange(0, j), seg.subrange(j + 1, seg.len() as int)))
    } else {
        None
    }
}

/// The key-value pairs of a query string: segments between ampersands,
/// keeping only those with exactly one equals sign.
pub open spec fn params_pairs(segs: Seq<Seq<char>>, k: int) -> Seq<(Seq<char>, Seq<char>)>
    decreases segs.len() - k,
{
    if !(0 <= k < segs.len()) {
        Seq::empty()
    } else {
        match seg_pair(segs[k]) {
            Some(p) => seq![p] + params_pairs(segs, k + 1),
            None => params_pairs(segs, k + 1),
        }
    }
}

/// What a raw request means: the first line read by the request-line
/// grammar, then header lines until a blank line, then the body.
pub open spec fn parse_request_spec(s: Seq<char>) -> Option<RequestModel> {
    let ls = split_lines(s, 0);
    if ls.len() == 0 {
        None
    } else {
        match parse_req_line(ls[0]) {
            None => None,
            Some(rl) => match parse_hb(ls, 1) {
                None => None,
                Some((headers, body)) => Some(
                    RequestModel {
                        method: rl.method,
                        resource: rl.resource,
                        id: rl.id,
                        sub_resource: rl.sub_resource,
                        headers,
                        body,
                        parameters: match rl.params {
                            Some(raw) => Some(params_pairs(split_on(raw, 0, '&'), 0)),
                            None => None,
                        },
                    },
                ),
            },
        }
    }
}

/// First index at or after `i` holding `sep`, executable form.
#[verifier::loop_isolation(false)]
fn find_from_exec(v: &Vec<char>, i: usize, sep: char) -> (j: usize)
    requires
        i <= v.len(),
    ensures
        j as int == find_from(v@, i as int, sep),
        i <= j <= v.len(),
{
    let mut j: usize = i;
    while j < v.len() && v[j] != sep
        invariant
            i <= j <= v.len(),
            find_from(v@, i as int, sep) == find_from(v@, j as int, sep),
        decreases v.len() - j,
    {
        proof {
            assert(find_from(v@, j as int, sep) == find_from(v@, j + 1, sep));
        }
        j += 1;
    }
    j
}

/// Splits the text into lines from position `i` on.
fn split_lines_exec(v: &Vec<char>, i: usize) -> (r: Vec<Vec<char>>)
    requires
        i <= v.len(),
    ensures
        crate::text::vecs_view(r@) == split_lines(v@, i as int),
    decreases v.len() - i,
{
    if i >= v.len() {
        let r: Vec<Vec<char>> = Vec::new();
        proof {
            assert(crate::text::vecs_view(r@) =~= split_lines(v@, i as int));
        }
        return r;
    }
    let e = find_from_exec(v, i, '\n');
    let mut line = crate::text::sub_chars(v, i, e);
    if line.len() > 0 && line[line.len() - 1] == '\r' {
        line.pop();
        proof {
            assert(line@ =~= strip_cr(v@.subrange(i as int, e as int)));
        }
    }
    proof {
        assert(line@ == strip_cr(v@.subrange(i as int, e as int)));
    }
    if e >= v.len() {
        let mut r: Vec<Vec<char>> = Vec::new();
        r.push(line);
        proof {
            assert(v@.subrange(i as int, e as int) =~= v@.subrange(i as int, v@.len() as int));
            assert(crate::text::vecs_view(r@) =~= split_lines(v@, i as int));
        }
        r
    } else {
        let mut rest = split_lines_exec(v, e + 1);
        rest.insert(0, line);
        proof {
            assert(crate::text::vecs_view(rest@) =~= seq![rest@[0]@] + crate::text::vecs_view(
                rest@.drop_first(),
            ));
        }
        rest
    }
}

/// Joins the remaining lines without separators, from index `k` on.
fn concat_lines_exec(ls: &Vec<Vec<char>>, k: usize) -> (r: Vec<char>)
    requires
        k <= ls.len(),
    ensures
        r@ == concat_lines(crate::text::vecs_view(ls@), k as int),
    decreases ls.len() - k,
{
    if k >= ls.len() {
        let r: Vec<char> = Vec::new();
        proof {
            assert(r@ =~= concat_lines(crate::text::vecs_view(ls@), k as int));
        }
        return r;
    }
    let mut r: Vec<char> = Vec::new();
    crate::text::push_chars(&mut r, &ls[k]);
    let mut rest = concat_lines_exec(ls, k + 1);
    r.append(&mut rest);
    proof {
        assert(r@ =~= concat_lines(crate::text::vecs_view(ls@), k as int));
    }
    r
}

/// First `": "` separator at or after `i`, executable form.
fn colon_sp_exec(l: &Vec<char>, i: usize) -> (r: Option<usize>)
    requires
        i <= l.len(),
    ensures
        match r {
            Some(j) => find_colon_sp(l@, i as int) == j as int && j + 2 <= l.len() && find_colon_sp(
                l@,
                0,
            ) >= 0 ==> true,
            None => true,
        },
        match r {
            Some(j) => find_colon_sp(l@, i as int) == j as int && j + 2 <= l.len(),
            None => find_colon_sp(l@, i as int) == -1,
        },
    decreases l.len() - i,
{
    if l.len() - i < 2 {
        None
    } else if l[i] == ':' && l[i + 1] == ' ' {
        Some(i)
    } else {
        colon_sp_exec(l, i + 1)
    }
}

/// Reads the header lines and the body from line `k` on.
fn parse_hb_exec(ls: &Vec<Vec<char>>, k: usize) -> (r: Option<(Vec<(String, String)>, Vec<char>)>)
    requires
        k <= ls.len(),
    ensures
        match r {
            Some((hs, b)) => parse_hb(crate::text::vecs_view(ls@), k as int) == Some(
                (crate::text::pairs_view(hs@), b@),
            ),
            None => parse_hb(crate::text::vecs_view(ls@), k as int) is None,
        },
    decreases ls.len() - k,
{
    if k >= ls.len() {
        let hs: Vec<(String, String)> = Vec::new();
        let b: Vec<char> = Vec::new();
        proof {
            assert(crate::text::pairs_view(hs@) =~= Seq::<(Seq<char>, Seq<char>)>::empty());
            assert(b@ =~= Seq::<char>::empty());
        }
        return Some((hs, b));
    }
    if ls[k].len() == 0 {
        let hs: Vec<(String, String)> = Vec::new();
        let b = concat_lines_exec(ls, k + 1);
        proof {
            assert(crate::text::pairs_view(hs@) =~= Seq::<(Seq<char>, Seq<char>)>::empty());
        }
        return Some((hs, b));
    }
    let line = &ls[k];
    let j = match colon_sp_exec(line, 0) {
        Some(j) => j,
        None => {
            return None;
        },
    };
    let name = crate::text::sub_chars(line, 0, j);
    let value = crate::text::sub_chars(line, j + 2, line.len());
    let pair = (crate::text::chars_to_string(&name), crate::text::chars_to_string(&value));
    match parse_hb_exec(ls, k + 1) {
        Some((mut hs, b)) => {
            hs.insert(0, pair);
            proof {
                assert(crate::text::pairs_view(hs@) =~= seq![(hs@[0].0@, hs@[0].1@)]
                    + crate::text::pairs_view(hs@.drop_first()));
            }
            Some((hs, b))
        },
        None => None,
    }
}

/// Reads the request line.
#[verifier::loop_isolation(false)]
#[verifier::rlimit(60)]
fn parse_req_line_exec(l: &Vec<char>) -> (r: Option<
    (HttpMethod, String, Option<String>, Option<String>, Option<Vec<char>>),
>)
    ensures
        match r {
            Some((m, res, id, sub, params)) => parse_req_line(l@) == Some(
                ReqLine {
                    method: m,
                    resource: res@,
                    id: opt_view(id),
                    sub_resource: opt_view(sub),
                    params: match params {
                        Some(p) => Some(p@),
                        None => None,
                    },
                },
            ),
            None => parse_req_line(l@) is None,
        },
{
    proof {
        reveal_strlit("GET ");
        reveal_strlit("POST ");
        reveal_strlit("DELETE ");
        reveal_strlit("OPTIONS ");
        reveal_strlit(" HTTP/1.1");
    }
    let get_lit = crate::text::str_to_chars("GET ");
    let post_lit = crate::text::str_to_chars("POST ");
    let delete_lit = crate::text::str_to_chars("DELETE ");
    let options_lit = crate::text::str_to_chars("OPTIONS ");
    let http_lit = crate::text::str_to_chars(" HTTP/1.1");
    let (method, mi): (HttpMethod, usize) = if crate::text::starts_with_at(l, 0, &get_lit) {
        (HttpMethod::GET, 4)
    } else if crate::text::starts_with_at(l, 0, &post_lit) {
        (HttpMethod::POST, 5)
    } else if crate::text::starts_with_at(l, 0, &delete_lit) {
        (HttpMethod::DELETE, 7)
    } else if crate::text::starts_with_at(l, 0, &options_lit) {
        (HttpMethod::OPTIONS, 8)
    } else {
        proof {
            assert(method_of_line(l@) is None);
        }
        return None;
    };
    proof {
        assert(method_of_line(l@) == Some((method, mi as int)));
    }
    if !(mi < l.len() && l[mi] == '/') {
        return None;
    }
    let re = run_end_res(l, mi + 1);
    let resource = crate::text::sub_chars(l, mi, re);
    let (id, ie): (Option<Vec<char>>, usize) = if re < l.len() && l[re] == '/' {
        let ie0 = run_end_id(l, re + 1);
        if ie0 > re + 1 {
            (Some(crate::text::sub_chars(l, re + 1, ie0)), ie0)
        } else {
            return None;
        }
    } else {
        (None, re)
    };
    let (sub, se): (Option<Vec<char>>, usize) = if match id {
        Some(_) => true,
        None => false,
    } && ie < l.len() && l[ie] == '/' {
        let se0 = run_end_sub(l, ie + 1);
        if se0 > ie + 1 {
            (Some(crate::text::sub_chars(l, ie + 1, se0)), se0)
        } else {
            return None;
        }
    } else {
        (None, ie)
    };
    let (params, qe): (Option<Vec<char>>, usize) = if se < l.len() && l[se] == '?' {
        let qe0 = run_end_param(l, se + 1);
        if qe0 > se + 1 {
            (Some(crate::text::sub_chars(l, se + 1, qe0)), qe0)
        } else {
            return None;
        }
    } else {
        (None, se)
    };
    if !crate::text::starts_with_at(l, qe, &http_lit) {
        return None;
    }
    let id_s = match id {
        Some(v) => Some(crate::text::chars_to_string(&v)),
        None => None,
    };
    let sub_s = match sub {
        Some(v) => Some(crate::text::chars_to_string(&v)),
        None => None,
    };
    Some((method, crate::text::chars_to_string(&resource), id_s, sub_s, params))
}

/// Whether `c` is a resource character, executable form.
fn is_res_char_exec(c: char) -> (r: bool)
    ensures
        r == is_res_char(c),
{
    let cu: u32 = c as u32;
    (cu >= 'a' as u32 && cu <= 'z' as u32) || c == '-'
}

/// Whether `c` is an id character, executable form.
fn is_id_char_exec(c: char) -> (r: bool)
    ensures
        r == crate::text::is_alnum(c),
{
    let cu: u32 = c as u32;
    (cu >= 'a' as u32 && cu <= 'z' as u32) || (cu >= 'A' as u32 && cu <= 'Z' as u32) || (cu
        >= '0' as u32 && cu <= '9' as u32)
}

/// Whether `c` is a sub-resource character, executable form.
fn is_sub_char_exec(c: char) -> (r: bool)
    ensures
        r == is_sub_char(c),
{
    let cu: u32 = c as u32;
    (cu >= 'a' as u32 && cu <= 'z' as u32) || (cu >= '0' as u32 && cu <= '9' as u32)
}

/// Whether `c` is a query-string character, executable form.
fn is_param_char_exec(c: char) -> (r: bool)
    ensures
        r == is_param_char(c),
{
    is_sub_char_exec(c) || c == '-' || c == '=' || c == '&'
}

/// End of the run of resource characters, executable form.
#[verifier::loop_isolation(false)]
fn run_end_res(v: &Vec<char>, i: usize) -> (j: usize)
    requires
        i <= v.len(),
    ensures
        j as int == res_end(v@, i as int),
        i <= j <= v.len(),
{
    let mut j: usize = i;
    while j < v.len() && is_res_char_exec(v[j])
        invariant
            i <= j <= v.len(),
            res_end(v@, i as int) == res_end(v@, j as int),
        decreases v.len() - j,
    {
        proof {
            assert(res_end(v@, j as int) == res_end(v@, j + 1));
        }
        j += 1;
    }
    j
}

/// End of the run of id characters, executable form.
#[verifier::loop_isolation(false)]
fn run_end_id(v: &Vec<char>, i: usize) -> (j: usize)
    requires
        i <= v.len(),
    ensures
        j as int == id_end(v@, i as int),
        i <= j <= v.len(),
{
    let mut j: usize = i;
    while j < v.len() && is_id_char_exec(v[j])
        invariant
            i <= j <= v.len(),
            id_end(v@, i as int) == id_end(v@, j as int),
        decreases v.len() - j,
    {
        proof {
            assert(id_end(v@, j as int) == id_end(v@, j + 1));
        }
        j += 1;
    }
    j
}

/// End of the run of sub-resource characters, executable form.
#[verifier::loop_isolation(false)]
fn run_end_sub(v: &Vec<char>, i: usize) -> (j: usize)
    requires
        i <= v.len(),
    ensures
        j as int == sub_end(v@, i as int),
        i <= j <= v.len(),
{
    let mut j: usize = i;
    while j < v.len() && is_sub_char_exec(v[j])
        invariant
            i <= j <= v.len(),
            sub_end(v@, i as int) == sub_end(v@, j as int),
        decreases v.len() - j,
    {
        proof {
            assert(sub_end(v@, j as int) == sub_end(v@, j + 1));
        }
        j += 1;
    }
    j
}

/// End of the run of query-string characters, executable form.
#[verifier::loop_isolation(false)]
fn run_end_param(v: &Vec<char>, i: usize) -> (j: usize)
    requires
        i <= v.len(),
    ensures
        j as int == param_end(v@, i as int),
        i <= j <= v.len(),
{
    let mut j: usize = i;
    while j < v.len() && is_param_char_exec(v[j])
        invariant
            i <= j <= v.len(),
            param_end(v@, i as int) == param_end(v@, j as int),
        decreases v.len() - j,
    {
        proof {
            assert(param_end(v@, j as int) == param_end(v@, j + 1));
        }
        j += 1;
    }
    j
}

/// Dropping a leading segment shifts the query-pair fold by one.
proof fn lemma_params_pairs_shift(x: Seq<char>, ss: Seq<Seq<char>>, k: int)
    requires
        0 <= k,
    ensures
        params_pairs(seq![x] + ss, k + 1) == params_pairs(ss, k),
    decreases ss.len() - k,
{
    if k < ss.len() {
        assert((seq![x] + ss)[k + 1] == ss[k]);
        lemma_params_pairs_shift(x, ss, k + 1);
    }
}

/// Splits a query string into key-value pairs from position `i` on.
fn params_exec(v: &Vec<char>, i: usize) -> (r: Vec<(String, String)>)
    requires
        i <= v.len(),
    ensures
        crate::text::pairs_view(r@) == params_pairs(split_on(v@, i as int, '&'), 0),
    decreases v.len() - i,
{
    let e = find_from_exec(v, i, '&');
    let seg = crate::text::sub_chars(v, i, e);
    let j = find_from_exec(&seg, 0, '=');
    let pair: Option<(String, String)> = if j < seg.len() {
        let j2 = find_from_exec(&seg, j + 1, '=');
        if j2 == seg.len() {
            let name = crate::text::sub_chars(&seg, 0, j);
            let value = crate::text::sub_chars(&seg, j + 1, seg.len());
            Some((crate::text::chars_to_string(&name), crate::text::chars_to_string(&value)))
        } else {
            None
        }
    } else {
        None
    };
    proof {
        match &pair {
            Some(p) => {
                assert(seg_pair(seg@) == Some((p.0@, p.1@)));
            },
            None => {
                assert(seg_pair(seg@) is None);
            },
        }
    }
    if e < v.len() {
        let mut rest = params_exec(v, e + 1);
        let ghost rest_view = crate::text::pairs_view(rest@);
        proof {
            assert(split_on(v@, i as int, '&') =~= seq![seg@] + split_on(v@, e + 1, '&'));
            lemma_params_pairs_shift(seg@, split_on(v@, e + 1, '&'), 0);
            assert((seq![seg@] + split_on(v@, e + 1, '&'))[0] == seg@);
        }
        match pair {
            Some(p) => {
                rest.insert(0, p);
                proof {
                    assert(crate::text::pairs_view(rest@) =~= seq![(rest@[0].0@, rest@[0].1@)]
                        + rest_view);
                    assert(params_pairs(split_on(v@, i as int, '&'), 0) =~= crate::text::pairs_view(
                        rest@,
                    ));
                }
                rest
            },
            None => {
                proof {
                    assert(params_pairs(split_on(v@, i as int, '&'), 0) =~= rest_view);
                }
                rest
            },
        }
    } else {
        let mut r: Vec<(String, String)> = Vec::new();
        proof {
            assert(split_on(v@, i as int, '&') =~= seq![seg@]);
            assert(split_on(v@, i as int, '&')[0] == seg@);
            assert(split_on(v@, i as int, '&').len() == 1);
            assert(params_pairs(split_on(v@, i as int, '&'), 1) =~= Seq::<
                (Seq<char>, Seq<char>),
            >::empty());
        }
        match pair {
            Some(p) => {
                r.push(p);
                proof {
                    assert(crate::text::pairs_view(r@) =~= params_pairs(
                        split_on(v@, i as int, '&'),
                        0,
                    ));
                }
                r
            },
            None => {
                proof {
                    assert(crate::text::pairs_view(r@) =~= params_pairs(
                        split_on(v@, i as int, '&'),
                        0,
                    ));
                }
                r
            },
        }
    }
}

impl Request {
    /// Reads a raw request into its structured form; `None` when the text
    /// does not follow the request grammar (including a header line
    /// without a `": "` separator).
    pub fn new(request: String) -> (r: Option<Request>)
        ensures
            match r {
                Some(req) => parse_request_spec(request@) == Some(req.model()),
                None => parse_request_spec(request@) is None,
            },
    {
        let v = crate::text::str_to_chars(request.as_str());
        let ls = split_lines_exec(&v, 0);
        if ls.len() == 0 {
            return None;
        }
        let rl = match parse_req_line_exec(&ls[0]) {
            Some(x) => x,
            None => {
                proof {
                    assert(crate::text::vecs_view(ls@)[0] == ls@[0]@);
                }
                return None;
            },
        };
        let (method, resource, id, sub_resource, params_raw) = rl;
        let (headers, body) = match parse_hb_exec(&ls, 1) {
            Some(x) => x,
            None => {
                return None;
            },
        };
        let parameters: Option<Vec<(String, String)>> = match params_raw {
            Some(raw) => Some(params_exec(&raw, 0)),
            None => None,
        };
        let req = Request {
            method,
            resource,
            id,
            sub_resource,
            headers,
            body: crate::text::chars_to_string(&body),
            parameters,
        };
        proof {
            assert(crate::text::vecs_view(ls@)[0] == ls@[0]@);
            assert(parse_request_spec(request@) == Some(req.model()));
        }
        Some(req)
    }
}

/// The allowed-methods header value: the method names joined with a
/// comma and a space.
pub open spec fn joined_methods(ms: Seq<HttpMethod>, k: int) -> Seq<char>
    decreases ms.len() - k,
{
    if !(0 <= k < ms.len()) {
        Seq::empty()
    } else if k == ms.len() - 1 {
        method_str(ms[k])
    } else {
        method_str(ms[k]) + ", "@ + joined_methods(ms, k + 1)
    }
}

/// Appends the joined method names to `out`.
fn push_joined_methods(out: &mut Vec<char>, ms: &Vec<HttpMethod>, k: usize)
    requires
        k <= ms.len(),
    ensures
        final(out)@ == old(out)@ + joined_methods(ms@, k as int),
    decreases ms.len() - k,
{
    if k < ms.len() {
        crate::text::push_str_chars(out, ms[k].as_str());
        if k + 1 < ms.len() {
            crate::text::push_str_chars(out, ", ");
            push_joined_methods(out, ms, k + 1);
        }
    }
    proof {
        assert(out@ =~= old(out)@ + joined_methods(ms@, k as int));
    }
}

/// The headers of a pre-flight capability response.
pub open spec fn options_headers_spec(ms: Seq<HttpMethod>) -> Seq<(Seq<char>, Seq<char>)> {
    seq![
        ("Connection"@, "keep-alive"@),
        ("Access-Control-Allow-Origin"@, "http://localhost:5500"@),
        ("Access-Control-Allow-Methods"@, joined_methods(ms, 0)),
        ("Access-Control-Allow-Headers"@, "keep-alive, Content-Type"@),
        ("Access-Control-Max-Age"@, "86400"@),
    ]
}

/// Builds the headers answering a pre-flight capability request: the
/// allowed methods and the fixed cross-origin policy.
pub fn build_options_response_headers(allowed_methods: Vec<HttpMethod>) -> (r: Vec<
    (String, String),
>)
    ensures
        headers_view(r@) == options_headers_spec(allowed_methods@),
{
    let mut joined: Vec<char> = Vec::new();
    push_joined_methods(&mut joined, &allowed_methods, 0);
    let joined_s = crate::text::chars_to_string(&joined);
    let mut headers: Vec<(String, String)> = Vec::new();
    headers.push(
        (crate::text::str_to_string("Connection"), crate::text::str_to_string("keep-alive")),
    );
    headers.push(
        (
            crate::text::str_to_string("Access-Control-Allow-Origin"),
            crate::text::str_to_string("http://localhost:5500"),
        ),
    );
    headers.push((crate::text::str_to_string("Access-Control-Allow-Methods"), joined_s));
    headers.push(
        (
            crate::text::str_to_string("Access-Control-Allow-Headers"),
            crate::text::str_to_string("keep-alive, Content-Type"),
        ),
    );
    headers.push(
        (crate::text::str_to_string("Access-Control-Max-Age"), crate::text::str_to_string("86400")),
    );
    proof {
        assert(headers_view(headers@) =~= options_headers_spec(allowed_methods@));
    }
    headers
}

} // verus!
