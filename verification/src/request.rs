//! The request line and header grammar, and the parser that turns the head of an
//! HTTP request into a `Request`.
use vstd::prelude::*;
use crate::error::ServerError;
use crate::fields::{
    as_map, distinct_keys, fold_pairs, has_key, key_index, lemma_has_key_index, set_entry, Fields,
};
use crate::text::{
    alnum, bytes_eq, copy_range, find_byte, find_from, has_prefix_at, is_alnum, lemma_find_from,
    lemma_find_sub, lowercase, prefix_at, split, split_bytes, to_lower, trim, trim_bytes, views,
    ws_at, ws_len_at,
};

verus! {

/// The request methods the grammar knows.
#[derive(Clone, Copy, Debug, PartialEq, Eq, Structural)]
pub enum Method {
    Get,
    Head,
    Post,
    Put,
    Delete,
    Connect,
    Options,
    Trace,
    Patch,
}

pub open spec fn method_name(m: Method) -> Seq<u8> {
    match m {
        Method::Get => seq!['G' as u8, 'E' as u8, 'T' as u8],
        Method::Head => seq!['H' as u8, 'E' as u8, 'A' as u8, 'D' as u8],
        Method::Post => seq!['P' as u8, 'O' as u8, 'S' as u8, 'T' as u8],
        Method::Put => seq!['P' as u8, 'U' as u8, 'T' as u8],
        Method::Delete => seq!['D' as u8, 'E' as u8, 'L' as u8, 'E' as u8, 'T' as u8, 'E' as u8],
        Method::Connect => seq![
            'C' as u8,
            'O' as u8,
            'N' as u8,
            'N' as u8,
            'E' as u8,
            'C' as u8,
            'T' as u8,
        ],
        Method::Options => seq![
            'O' as u8,
            'P' as u8,
            'T' as u8,
            'I' as u8,
            'O' as u8,
            'N' as u8,
            'S' as u8,
        ],
        Method::Trace => seq!['T' as u8, 'R' as u8, 'A' as u8, 'C' as u8, 'E' as u8],
        Method::Patch => seq!['P' as u8, 'A' as u8, 'T' as u8, 'C' as u8, 'H' as u8],
    }
}

/// The method a token names, if any.
pub open spec fn method_of(tok: Seq<u8>) -> Option<Method> {
    if tok == method_name(Method::Get) {
        Some(Method::Get)
    } else if tok == method_name(Method::Head) {
        Some(Method::Head)
    } else if tok == method_name(Method::Post) {
        Some(Method::Post)
    } else if tok == method_name(Method::Put) {
        Some(Method::Put)
    } else if tok == method_name(Method::Delete) {
        Some(Method::Delete)
    } else if tok == method_name(Method::Connect) {
        Some(Method::Connect)
    } else if tok == method_name(Method::Options) {
        Some(Method::Options)
    } else if tok == method_name(Method::Trace) {
        Some(Method::Trace)
    } else if tok == method_name(Method::Patch) {
        Some(Method::Patch)
    } else {
        None
    }
}

pub fn method_name_bytes(m: Method) -> (r: Vec<u8>)
    ensures
        r@ == method_name(m),
{
    let r = match m {
        Method::Get => vec!['G' as u8, 'E' as u8, 'T' as u8],
        Method::Head => vec!['H' as u8, 'E' as u8, 'A' as u8, 'D' as u8],
        Method::Post => vec!['P' as u8, 'O' as u8, 'S' as u8, 'T' as u8],
        Method::Put => vec!['P' as u8, 'U' as u8, 'T' as u8],
        Method::Delete => vec!['D' as u8, 'E' as u8, 'L' as u8, 'E' as u8, 'T' as u8, 'E' as u8],
        Method::Connect => vec!['C' as u8, 'O' as u8, 'N' as u8, 'N' as u8, 'E' as u8, 'C' as u8, 'T' as u8],
        Method::Options => vec!['O' as u8, 'P' as u8, 'T' as u8, 'I' as u8, 'O' as u8, 'N' as u8, 'S' as u8],
        Method::Trace => vec!['T' as u8, 'R' as u8, 'A' as u8, 'C' as u8, 'E' as u8],
        Method::Patch => vec!['P' as u8, 'A' as u8, 'T' as u8, 'C' as u8, 'H' as u8],
    };
    assert(r@ =~= method_name(m));
    r
}

fn method_if(s: &[u8], end: usize, m: Method) -> (r: bool)
    requires
        end <= s.len(),
    ensures
        r == (s@.subrange(0, end as int) == method_name(m)),
{
    let name = method_name_bytes(m);
    if name.len() != end {
        return false;
    }
    let r = prefix_at(s, 0, name.as_slice());
    assert(r == (s@.subrange(0, end as int) == method_name(m)));
    r
}

/// The method that `s[..end]` names, if any.
pub fn method_token(s: &[u8], end: usize) -> (r: Option<Method>)
    requires
        end <= s.len(),
    ensures
        r == method_of(s@.subrange(0, end as int)),
{
    if method_if(s, end, Method::Get) {
        Some(Method::Get)
    } else if method_if(s, end, Method::Head) {
        Some(Method::Head)
    } else if method_if(s, end, Method::Post) {
        Some(Method::Post)
    } else if method_if(s, end, Method::Put) {
        Some(Method::Put)
    } else if method_if(s, end, Method::Delete) {
        Some(Method::Delete)
    } else if method_if(s, end, Method::Connect) {
        Some(Method::Connect)
    } else if method_if(s, end, Method::Options) {
        Some(Method::Options)
    } else if method_if(s, end, Method::Trace) {
        Some(Method::Trace)
    } else if method_if(s, end, Method::Patch) {
        Some(Method::Patch)
    } else {
        None
    }
}

// ---------------------------------------------------------------------------
// The request-target grammar
/// `[A-Za-z0-9\-_]`
pub open spec fn is_word(b: u8) -> bool {
    is_alnum(b) || b == 45 || b == 95
}

/// A resource path: one or more segments `[A-Za-z0-9\-_]*\.[[:alnum:]]+/?` or
/// `[A-Za-z0-9\-_]+/?`. Equivalently, a non-empty string of word characters, dots
/// and slashes in which every slash follows a word character and every dot is
/// followed by a letter or digit.
pub open spec fn valid_path(p: Seq<u8>) -> bool {
    p.len() > 0 && forall|i: int| 0 <= i < p.len() ==> #[trigger] path_char_ok(p, i)
}

/// The character at `i` may stand there in a path.
pub open spec fn path_char_ok(p: Seq<u8>, i: int) -> bool {
    &&& is_word(p[i]) || p[i] == 46 || p[i] == 47
    &&& p[i] == 47 ==> i > 0 && is_word(p[i - 1])
    &&& p[i] == 46 ==> i + 1 < p.len() && is_alnum(p[i + 1])
}

/// `[[:alnum:]]+=[[:alnum:]]+`
pub open spec fn valid_pair(kv: Seq<u8>) -> bool {
    let e = find_from(kv, 61, 0);
    &&& 0 < e
    &&& e + 1 < kv.len()
    &&& forall|i: int| 0 <= i < kv.len() && i != e ==> is_alnum(#[trigger] kv[i])
}

/// One or more `name=value` pairs joined by `&`.
pub open spec fn valid_query(q: Seq<u8>) -> bool {
    forall|i: int| 0 <= i < split(q, 38).len() ==> valid_pair(#[trigger] split(q, 38)[i])
}

/// `/`, then optionally a path and after it optionally `?` and a query.
pub open spec fn valid_target(t: Seq<u8>) -> bool {
    &&& t.len() >= 1
    &&& t[0] == 47
    &&& t.len() == 1 || {
        let q = find_from(t, 63, 1);
        &&& valid_path(t.subrange(1, q))
        &&& (q == t.len() || valid_query(t.subrange(q + 1, t.len() as int)))
    }
}

/// `HTTP/1.1`
pub open spec fn http11() -> Seq<u8> {
    seq!['H' as u8, 'T' as u8, 'T' as u8, 'P' as u8, '/' as u8, '1' as u8, '.' as u8, '1' as u8]
}

/// `HTTP/0.9`, `HTTP/1.0`, `HTTP/1.1`, `HTTP/2` or `HTTP/3` at `at`.
pub open spec fn version_at(s: Seq<u8>, at: int) -> bool {
    let h = seq!['H' as u8, 'T' as u8, 'T' as u8, 'P' as u8, '/' as u8];
    has_prefix_at(s, at, h + seq!['0' as u8, '.' as u8, '9' as u8]) || has_prefix_at(
        s,
        at,
        h + seq!['1' as u8, '.' as u8, '0' as u8],
    ) || has_prefix_at(s, at, h + seq!['1' as u8, '.' as u8, '1' as u8]) || has_prefix_at(
        s,
        at,
        h + seq!['2' as u8],
    ) || has_prefix_at(s, at, h + seq!['3' as u8])
}

/// End of the method token: the first space.
pub open spec fn method_end(s: Seq<u8>) -> int {
    find_from(s, 32, 0)
}

/// End of the request target: the second space.
pub open spec fn target_end(s: Seq<u8>) -> int {
    find_from(s, 32, method_end(s) + 1)
}

/// The request target.
pub open spec fn target_of(s: Seq<u8>) -> Seq<u8> {
    s.subrange(method_end(s) + 1, target_end(s))
}

/// The request starts with a request line: a method, a space, a request target, a
/// space and an HTTP version. Whatever follows it is not looked at here.
pub open spec fn request_line_ok(s: Seq<u8>) -> bool {
    &&& method_end(s) < s.len()
    &&& method_of(s.subrange(0, method_end(s))) is Some
    &&& target_end(s) < s.len()
    &&& valid_target(target_of(s))
    &&& version_at(s, target_end(s) + 1)
}

// ---------------------------------------------------------------------------
// Lines and header fields
/// End of the line that starts at `start`, without its `\r\n` or `\n`.
pub open spec fn line_content_end(s: Seq<u8>, start: int) -> int {
    let e = find_from(s, 10, start);
    if e < s.len() && e > start && s[e - 1] == 13 {
        e - 1
    } else {
        e
    }
}

/// A header name: `[[:alnum:]]+([-_][[:alnum:]]+)*`.
pub open spec fn valid_header_name(n: Seq<u8>) -> bool {
    &&& n.len() > 0
    &&& is_alnum(n[0])
    &&& is_alnum(n[n.len() - 1])
    &&& forall|i: int| 0 <= i < n.len() ==> #[trigger] name_char_ok(n, i)
}

/// The character at `i` may stand there in a header name: a letter or digit, or a
/// `-` or `_` that follows a letter or digit.
pub open spec fn name_char_ok(n: Seq<u8>, i: int) -> bool {
    is_alnum(n[i]) || ((n[i] == 45 || n[i] == 95) && i > 0 && is_alnum(n[i - 1]))
}

/// A character allowed in a header value: printable ASCII other than `\`.
pub open spec fn is_value_char(b: u8) -> bool {
    32 <= b <= 126 && b != 92
}

/// A header line: a name, `: `, and one or more value characters.
pub open spec fn valid_header_line(line: Seq<u8>) -> bool {
    let c = find_from(line, 58, 0);
    &&& c + 2 < line.len()
    &&& valid_header_name(line.subrange(0, c))
    &&& line[c + 1] == 32
    &&& forall|i: int| c + 2 <= i < line.len() ==> is_value_char(#[trigger] line[i])
}

/// The name (trimmed, lower case) and value (trimmed) of a header line.
pub open spec fn header_pair(line: Seq<u8>) -> (Seq<u8>, Seq<u8>) {
    let c = find_from(line, 58, 0);
    (lowercase(trim(line.subrange(0, c))), trim(line.subrange(c + 1, line.len() as int)))
}

/// The header fields on the lines from `start` on, up to the first line that is not one.
pub open spec fn header_lines_from(s: Seq<u8>, start: int) -> Seq<(Seq<u8>, Seq<u8>)>
    decreases s.len() + 1 - start,
{
    if start < 0 || start >= s.len() {
        Seq::empty()
    } else {
        let line = s.subrange(start, line_content_end(s, start));
        let next = find_from(s, 10, start) + 1;
        proof {
            lemma_find_from(s, 10, start);
        }
        if valid_header_line(line) && next > start {
            seq![header_pair(line)] + header_lines_from(s, next)
        } else {
            Seq::empty()
        }
    }
}

/// Where the header lines begin: just after the first line.
pub open spec fn first_header_line(s: Seq<u8>) -> int {
    find_from(s, 10, 0) + 1
}

/// The header fields of a request.
pub open spec fn header_pairs(s: Seq<u8>) -> Seq<(Seq<u8>, Seq<u8>)> {
    header_lines_from(s, first_header_line(s))
}

/// The query parameters: each `name=value` piece split at its `=`.
pub open spec fn query_pairs(q: Seq<u8>) -> Seq<(Seq<u8>, Seq<u8>)> {
    split(q, 38).map_values(
        |kv: Seq<u8>|
            (kv.subrange(0, find_from(kv, 61, 0)), kv.subrange(
                find_from(kv, 61, 0) + 1,
                kv.len() as int,
            )),
    )
}

// ---------------------------------------------------------------------------
// The parsed request
/// `host`
pub open spec fn host_key() -> Seq<u8> {
    seq!['h' as u8, 'o' as u8, 's' as u8, 't' as u8]
}

/// `connection`
pub open spec fn connection_key() -> Seq<u8> {
    seq![
        'c' as u8,
        'o' as u8,
        'n' as u8,
        'n' as u8,
        'e' as u8,
        'c' as u8,
        't' as u8,
        'i' as u8,
        'o' as u8,
        'n' as u8,
    ]
}

/// `close`
pub open spec fn close_value() -> Seq<u8> {
    seq!['c' as u8, 'l' as u8, 'o' as u8, 's' as u8, 'e' as u8]
}

/// An HTTP request as the server handles it.
pub enum Request {
    Get { resource: Vec<u8>, params: Option<Fields>, headers: Fields },
    Head { resource: Vec<u8>, params: Option<Fields>, headers: Fields },
    Post { resource: Vec<u8>, params: Option<Fields>, headers: Fields, data: Option<Fields> },
    Put { resource: Vec<u8>, params: Option<Fields>, headers: Fields, data: Option<Fields> },
    Delete { resource: Vec<u8>, params: Option<Fields>, headers: Fields, data: Option<Fields> },
    Connect,
    Options,
    Trace(Vec<u8>),
    Patch { resource: Vec<u8>, params: Option<Fields>, headers: Fields, data: Option<Fields> },
}

/// A request as values: resource, parameters and headers as byte strings and maps.
pub struct RequestView {
    pub method: Method,
    pub resource: Seq<u8>,
    pub params: Option<Map<Seq<u8>, Seq<u8>>>,
    pub headers: Map<Seq<u8>, Seq<u8>>,
    pub data: Option<Map<Seq<u8>, Seq<u8>>>,
    /// The whole request, kept for `TRACE`.
    pub raw: Seq<u8>,
}

pub open spec fn opt_map(f: Option<Fields>) -> Option<Map<Seq<u8>, Seq<u8>>> {
    match f {
        Some(x) => Some(x.map()),
        None => None,
    }
}

impl View for Request {
    type V = RequestView;

    open spec fn view(&self) -> RequestView {
        let empty = Map::<Seq<u8>, Seq<u8>>::empty();
        match self {
            Request::Get { resource, params, headers } => RequestView {
                method: Method::Get,
                resource: resource@,
                params: opt_map(*params),
                headers: headers.map(),
                data: None,
                raw: Seq::empty(),
            },
            Request::Head { resource, params, headers } => RequestView {
                method: Method::Head,
                resource: resource@,
                params: opt_map(*params),
                headers: headers.map(),
                data: None,
                raw: Seq::empty(),
            },
            Request::Post { resource, params, headers, data } => RequestView {
                method: Method::Post,
                resource: resource@,
                params: opt_map(*params),
                headers: headers.map(),
                data: opt_map(*data),
                raw: Seq::empty(),
            },
            Request::Put { resource, params, headers, data } => RequestView {
                method: Method::Put,
                resource: resource@,
                params: opt_map(*params),
                headers: headers.map(),
                data: opt_map(*data),
                raw: Seq::empty(),
            },
            Request::Delete { resource, params, headers, data } => RequestView {
                method: Method::Delete,
                resource: resource@,
                params: opt_map(*params),
                headers: headers.map(),
                data: opt_map(*data),
                raw: Seq::empty(),
            },
            Request::Patch { resource, params, headers, data } => RequestView {
                method: Method::Patch,
                resource: resource@,
                params: opt_map(*params),
                headers: headers.map(),
                data: opt_map(*data),
                raw: Seq::empty(),
            },
            Request::Connect => RequestView {
                method: Method::Connect,
                resource: Seq::empty(),
                params: None,
                headers: empty,
                data: None,
                raw: Seq::empty(),
            },
            Request::Options => RequestView {
                method: Method::Options,
                resource: Seq::empty(),
                params: None,
                headers: empty,
                data: None,
                raw: Seq::empty(),
            },
            Request::Trace(raw) => RequestView {
                method: Method::Trace,
                resource: Seq::empty(),
                params: None,
                headers: empty,
                data: None,
                raw: raw@,
            },
        }
    }
}

/// Where `?` stands in the request target, or its end.
pub open spec fn query_mark(s: Seq<u8>) -> int {
    find_from(s, 63, method_end(s) + 1)
}

/// The version token is exactly `HTTP/1.1`: the request line goes on with white space
/// or ends right after it.
pub open spec fn version_is_http11(s: Seq<u8>) -> bool {
    let v = target_end(s) + 1;
    &&& has_prefix_at(s, v, http11())
    &&& (v + 8 == line_content_end(s, 0) || ws_at(s, v + 8) > 0)
}

/// Whether the first line holds a `?`.
pub open spec fn line_has_question(s: Seq<u8>) -> bool {
    find_from(s, 63, 0) < line_content_end(s, 0)
}

/// The inputs on which the parser stops with a panic: a `?` on the request line after
/// the version, with none in the request target.
pub open spec fn parse_panics(s: Seq<u8>) -> bool {
    &&& request_line_ok(s)
    &&& method_of(s.subrange(0, method_end(s))) != Some(Method::Trace)
    &&& version_is_http11(s)
    &&& query_mark(s) >= target_end(s)
    &&& line_has_question(s)
}

/// What parsing the head of a request gives.
pub open spec fn spec_parse(s: Seq<u8>) -> Result<RequestView, ServerError> {
    if !request_line_ok(s) {
        Err(ServerError::InvalidRequest)
    } else {
        let m = method_of(s.subrange(0, method_end(s))).unwrap();
        if m == Method::Trace {
            Ok(
                RequestView {
                    method: Method::Trace,
                    resource: Seq::empty(),
                    params: None,
                    headers: Map::empty(),
                    data: None,
                    raw: s,
                },
            )
        } else if !version_is_http11(s) {
            Err(ServerError::VersionNotSupported)
        } else {
            let q = query_mark(s);
            let has_query = q < target_end(s);
            let pairs = if has_query {
                query_pairs(s.subrange(q + 1, target_end(s)))
            } else {
                Seq::empty()
            };
            let resource = s.subrange(method_end(s) + 1, if has_query {
                q
            } else {
                target_end(s)
            });
            let headers = fold_pairs(header_pairs(s));
            if !distinct_keys(pairs) {
                Err(ServerError::InvalidRequest)
            } else if !headers.contains_key(host_key()) {
                Err(ServerError::InvalidRequest)
            } else if m == Method::Connect || m == Method::Options {
                Ok(
                    RequestView {
                        method: m,
                        resource: Seq::empty(),
                        params: None,
                        headers: Map::empty(),
                        data: None,
                        raw: Seq::empty(),
                    },
                )
            } else {
                Ok(
                    RequestView {
                        method: m,
                        resource,
                        params: if pairs.len() == 0 {
                            None
                        } else {
                            Some(as_map(pairs))
                        },
                        headers,
                        data: None,
                        raw: Seq::empty(),
                    },
                )
            }
        }
    }
}

/// Whether a parse that succeeded asks to close the connection.
pub open spec fn asks_close(s: Seq<u8>) -> bool {
    &&& spec_parse(s) is Ok
    &&& spec_parse(s)->Ok_0.method != Method::Trace
    &&& fold_pairs(header_pairs(s)).contains_key(connection_key())
    &&& fold_pairs(header_pairs(s))[connection_key()] == close_value()
}

pub open spec fn view_result(r: Result<Request, ServerError>) -> Result<RequestView, ServerError> {
    match r {
        Ok(q) => Ok(q@),
        Err(e) => Err(e),
    }
}

// ---------------------------------------------------------------------------
// Checking the grammar
fn word(b: u8) -> (r: bool)
    ensures
        r == is_word(b),
{
    alnum(b) || b == 45 || b == 95
}

/// Whether `p` is a resource path.
pub fn path_valid(p: &[u8]) -> (r: bool)
    ensures
        r == valid_path(p@),
{
    let n = p.len();
    if n == 0 {
        return false;
    }
    let mut i: usize = 0;
    while i < n
        invariant
            n == p.len(),
            i <= n,
            forall|k: int| 0 <= k < i ==> #[trigger] path_char_ok(p@, k),
        decreases n - i,
    {
        let c = p[i];
        let ok = (word(c) || c == 46 || c == 47) && (c != 47 || (i > 0 && word(p[i - 1]))) && (c
            != 46 || (i + 1 < n && alnum(p[i + 1])));
        if !ok {
            assert(!path_char_ok(p@, i as int));
            return false;
        }
        i += 1;
    }
    true
}

/// Whether `kv` is `name=value` with letters and digits on both sides.
pub fn pair_valid(kv: &[u8]) -> (r: bool)
    ensures
        r == valid_pair(kv@),
{
    let e = find_byte(kv, 61, 0);
    if e == 0 || kv.len() - e <= 1 {
        return false;
    }
    let mut i: usize = 0;
    while i < kv.len()
        invariant
            e == find_from(kv@, 61, 0),
            i <= kv.len(),
            forall|k: int| 0 <= k < i && k != e ==> is_alnum(#[trigger] kv@[k]),
        decreases kv.len() - i,
    {
        if i != e && !alnum(kv[i]) {
            return false;
        }
        i += 1;
    }
    true
}

/// Whether `q` is a query: `name=value` pairs joined by `&`.
pub fn query_valid(q: &[u8]) -> (r: bool)
    ensures
        r == valid_query(q@),
{
    let pieces = split_bytes(q, 38);
    let mut i: usize = 0;
    while i < pieces.len()
        invariant
            views(pieces@) == split(q@, 38),
            i <= pieces.len(),
            forall|k: int| 0 <= k < i ==> valid_pair(#[trigger] split(q@, 38)[k]),
        decreases pieces.len() - i,
    {
        assert(views(pieces@)[i as int] == pieces@[i as int]@);
        if !pair_valid(pieces[i].as_slice()) {
            return false;
        }
        i += 1;
    }
    true
}

/// Whether `t` is a request target.
pub fn target_valid(t: &[u8]) -> (r: bool)
    ensures
        r == valid_target(t@),
{
    if t.len() == 0 || t[0] != 47 {
        return false;
    }
    if t.len() == 1 {
        return true;
    }
    let q = find_byte(t, 63, 1);
    proof {
        lemma_find_from(t@, 63, 1);
    }
    let path = copy_range(t, 1, q);
    if !path_valid(path.as_slice()) {
        return false;
    }
    if q == t.len() {
        return true;
    }
    let query = copy_range(t, q + 1, t.len());
    query_valid(query.as_slice())
}

fn version_bytes(tail: u8, tail2: Option<(u8, u8)>) -> (r: Vec<u8>)
    ensures
        r@ == seq!['H' as u8, 'T' as u8, 'T' as u8, 'P' as u8, '/' as u8] + match tail2 {
            Some((a, b)) => seq![tail, a, b],
            None => seq![tail],
        },
{
    let mut v = vec!['H' as u8, 'T' as u8, 'T' as u8, 'P' as u8, '/' as u8, tail];
    match tail2 {
        Some((a, b)) => {
            v.push(a);
            v.push(b);
        },
        None => {},
    }
    assert(v@ =~= seq!['H' as u8, 'T' as u8, 'T' as u8, 'P' as u8, '/' as u8] + match tail2 {
        Some((a, b)) => seq![tail, a, b],
        None => seq![tail],
    });
    v
}

fn version_valid_at(s: &[u8], at: usize) -> (r: bool)
    ensures
        r == version_at(s@, at as int),
{
    let v09 = version_bytes('0' as u8, Some(('.' as u8, '9' as u8)));
    let v10 = version_bytes('1' as u8, Some(('.' as u8, '0' as u8)));
    let v11 = version_bytes('1' as u8, Some(('.' as u8, '1' as u8)));
    let v2 = version_bytes('2' as u8, None);
    let v3 = version_bytes('3' as u8, None);
    prefix_at(s, at, v09.as_slice()) || prefix_at(s, at, v10.as_slice()) || prefix_at(
        s,
        at,
        v11.as_slice(),
    ) || prefix_at(s, at, v2.as_slice()) || prefix_at(s, at, v3.as_slice())
}

/// Whether `s` starts with a request line.
pub fn request_line_valid(s: &[u8]) -> (r: bool)
    ensures
        r == request_line_ok(s@),
{
    let m = find_byte(s, 32, 0);
    if m == s.len() {
        return false;
    }
    if method_token(s, m).is_none() {
        return false;
    }
    let t = find_byte(s, 32, m + 1);
    if t == s.len() {
        return false;
    }
    proof {
        lemma_find_from(s@, 32, m + 1);
    }
    let target = copy_range(s, m + 1, t);
    if !target_valid(target.as_slice()) {
        return false;
    }
    version_valid_at(s, t + 1)
}

/// What follows the `?` of the request target, or nothing without one.
pub open spec fn spec_query_string(s: Seq<u8>) -> Seq<u8> {
    if query_mark(s) < target_end(s) {
        s.subrange(query_mark(s) + 1, target_end(s))
    } else {
        Seq::empty()
    }
}

/// The query of a request's target, as a CGI program gets it in `QUERY_STRING`.
pub fn query_string(request: &[u8]) -> (r: Vec<u8>)
    requires
        request_line_ok(request@),
    ensures
        r@ == spec_query_string(request@),
{
    let m = find_byte(request, 32, 0);
    let t = find_byte(request, 32, m + 1);
    let q = find_byte(request, 63, m + 1);
    if q < t {
        copy_range(request, q + 1, t)
    } else {
        Vec::new()
    }
}

/// End of the line that starts at `start`, without its line break.
pub fn line_end(s: &[u8], start: usize) -> (r: usize)
    requires
        start <= s.len(),
    ensures
        r == line_content_end(s@, start as int),
        start <= r <= s.len(),
{
    let e = find_byte(s, 10, start);
    proof {
        lemma_find_from(s@, 10, start as int);
    }
    if e < s.len() && e > start && s[e - 1] == 13 {
        e - 1
    } else {
        e
    }
}

/// Whether `n` is a header name.
pub fn header_name_valid(n: &[u8]) -> (r: bool)
    ensures
        r == valid_header_name(n@),
{
    let len = n.len();
    if len == 0 || !alnum(n[0]) || !alnum(n[len - 1]) {
        return false;
    }
    let mut i: usize = 0;
    while i < len
        invariant
            len == n.len(),
            i <= len,
            forall|k: int| 0 <= k < i ==> #[trigger] name_char_ok(n@, k),
        decreases len - i,
    {
        let c = n[i];
        let ok = alnum(c) || ((c == 45 || c == 95) && i > 0 && alnum(n[i - 1]));
        if !ok {
            assert(!name_char_ok(n@, i as int));
            return false;
        }
        i += 1;
    }
    true
}

/// Whether `line` is a header line.
pub fn header_line_valid(line: &[u8]) -> (r: bool)
    ensures
        r == valid_header_line(line@),
{
    let c = find_byte(line, 58, 0);
    if c >= line.len() || line.len() - c <= 2 {
        return false;
    }
    let name = copy_range(line, 0, c);
    if !header_name_valid(name.as_slice()) {
        return false;
    }
    if line[c + 1] != 32 {
        return false;
    }
    let mut i = c + 2;
    while i < line.len()
        invariant
            c == find_from(line@, 58, 0),
            c + 2 <= i <= line.len(),
            c + 2 < line.len(),
            valid_header_name(line@.subrange(0, c as int)),
            line@[c + 1] == 32,
            forall|k: int| c + 2 <= k < i ==> is_value_char(#[trigger] line@[k]),
        decreases line.len() - i,
    {
        let b = line[i];
        if b < 32 || b > 126 || b == 92 {
            return false;
        }
        i += 1;
    }
    true
}

/// The trimmed, lower-case name and the trimmed value of a header line.
pub fn split_header_line(line: &[u8]) -> (r: (Vec<u8>, Vec<u8>))
    requires
        valid_header_line(line@),
    ensures
        (r.0@, r.1@) == header_pair(line@),
{
    let c = find_byte(line, 58, 0);
    proof {
        lemma_find_from(line@, 58, 0);
    }
    let name = copy_range(line, 0, c);
    let name_trimmed = trim_bytes(name.as_slice());
    let lower_name = to_lower(name_trimmed.as_slice());
    let value = copy_range(line, c + 1, line.len());
    let value_trimmed = trim_bytes(value.as_slice());
    (lower_name, value_trimmed)
}

// ---------------------------------------------------------------------------
// Parsing
/// Every `&`-separated piece of `q` holds a `=`.
pub open spec fn pairs_complete(q: Seq<u8>) -> bool {
    forall|i: int|
        0 <= i < split(q, 38).len() ==> find_from(#[trigger] split(q, 38)[i], 61, 0) < split(
            q,
            38,
        )[i].len()
}

/// Whether every `&`-separated piece of `q` holds a `=`.
pub fn pieces_complete(q: &[u8]) -> (r: bool)
    ensures
        r == pairs_complete(q@),
{
    let pieces = split_bytes(q, 38);
    let mut i: usize = 0;
    while i < pieces.len()
        invariant
            views(pieces@) == split(q@, 38),
            i <= pieces.len(),
            forall|k: int|
                0 <= k < i ==> find_from(#[trigger] split(q@, 38)[k], 61, 0) < split(q@, 38)[k].len(),
        decreases pieces.len() - i,
    {
        assert(views(pieces@)[i as int] == pieces@[i as int]@);
        let e = find_byte(pieces[i].as_slice(), 61, 0);
        if e == pieces[i].len() {
            return false;
        }
        i += 1;
    }
    true
}

/// The `name=value` pairs of `q`, or `None` when a name comes twice.
pub fn parse_query(q: &[u8]) -> (r: Option<Fields>)
    requires
        pairs_complete(q@),
    ensures
        r is Some <==> distinct_keys(query_pairs(q@)),
        r matches Some(f) ==> f@ == query_pairs(q@),
{
    let pieces = split_bytes(q, 38);
    let ghost pairs = query_pairs(q@);
    let mut f = Fields::new();
    let mut i: usize = 0;
    while i < pieces.len()
        invariant
            views(pieces@) == split(q@, 38),
            pairs == query_pairs(q@),
            pairs_complete(q@),
            i <= pieces.len(),
            f@ == pairs.subrange(0, i as int),
            distinct_keys(pairs.subrange(0, i as int)),
        decreases pieces.len() - i,
    {
        let kv = &pieces[i];
        assert(views(pieces@)[i as int] == kv@);
        let e = find_byte(kv.as_slice(), 61, 0);
        let key = copy_range(kv.as_slice(), 0, e);
        let value = copy_range(kv.as_slice(), e + 1, kv.len());
        assert(pairs[i as int] == (key@, value@));
        let ghost before = f@;
        proof {
            lemma_has_key_index(before, key@);
        }
        match f.insert(key, value) {
            Some(_) => {
                proof {
                    let j = choose|j: int| 0 <= j < before.len() && #[trigger] before[j].0 == pairs[i as int].0;
                    assert(pairs[j].0 == pairs[i as int].0);
                }
                return None;
            },
            None => {
                assert(!has_key(before, pairs[i as int].0));
                assert(f@ == before.push(pairs[i as int]));
                assert(pairs.subrange(0, i + 1) == before.push(pairs[i as int]));
                let ghost np = pairs.subrange(0, i + 1);
                assert forall|a: int, b: int|
                    #![trigger np[a], np[b]]
                    0 <= a < np.len() && 0 <= b < np.len() && a != b implies np[a].0 != np[b].0 by {
                    if a == i {
                        assert(before[b].0 == pairs[b].0);
                    } else if b == i {
                        assert(before[a].0 == pairs[a].0);
                    }
                }
            },
        }
        i += 1;
    }
    assert(pairs.subrange(0, i as int) == pairs);
    Some(f)
}

/// The header fields on the lines from `start` on, each name set to its value in turn.
pub fn parse_headers(s: &[u8], start: usize) -> (r: Fields)
    requires
        start <= s.len(),
    ensures
        r.map() == fold_pairs(header_lines_from(s@, start as int)),
{
    let mut pos = start;
    let mut h = Fields::new();
    let ghost mut acc: Seq<(Seq<u8>, Seq<u8>)> = Seq::empty();
    let mut stop = false;
    while !stop && pos < s.len()
        invariant
            start <= pos <= s.len(),
            acc + (if stop {
                Seq::empty()
            } else {
                header_lines_from(s@, pos as int)
            }) == header_lines_from(s@, start as int),
            h.map() == fold_pairs(acc),
        decreases s.len() - pos, if stop { 0int } else { 1int },
    {
        let ce = line_end(s, pos);
        let e = find_byte(s, 10, pos);
        let line = copy_range(s, pos, ce);
        if !header_line_valid(line.as_slice()) {
            assert(header_lines_from(s@, pos as int) == Seq::<(Seq<u8>, Seq<u8>)>::empty());
            assert(acc + Seq::<(Seq<u8>, Seq<u8>)>::empty() == acc);
            stop = true;
        } else {
            let (k, v) = split_header_line(line.as_slice());
            let ghost p = (k@, v@);
            h.insert(k, v);
            let ghost next = e + 1;
            assert(header_lines_from(s@, pos as int) == seq![p] + header_lines_from(s@, next));
            proof {
                assert(acc.push(p).drop_last() == acc);
                acc = acc.push(p);
            }
            if e == s.len() {
                assert(header_lines_from(s@, next) == Seq::<(Seq<u8>, Seq<u8>)>::empty());
                assert(header_lines_from(s@, s.len() as int) == Seq::<
                    (Seq<u8>, Seq<u8>),
                >::empty());
                pos = s.len();
            } else {
                pos = e + 1;
            }
        }
    }
    if !stop {
        assert(header_lines_from(s@, pos as int) == Seq::<(Seq<u8>, Seq<u8>)>::empty());
    }
    assert(acc + Seq::<(Seq<u8>, Seq<u8>)>::empty() == acc);
    h
}

fn bytes_of_host() -> (r: Vec<u8>)
    ensures
        r@ == host_key(),
{
    let r = vec!['h' as u8, 'o' as u8, 's' as u8, 't' as u8];
    assert(r@ =~= host_key());
    r
}

fn bytes_of_connection() -> (r: Vec<u8>)
    ensures
        r@ == connection_key(),
{
    let r = vec![
        'c' as u8,
        'o' as u8,
        'n' as u8,
        'n' as u8,
        'e' as u8,
        'c' as u8,
        't' as u8,
        'i' as u8,
        'o' as u8,
        'n' as u8,
    ];
    assert(r@ =~= connection_key());
    r
}

fn bytes_of_close() -> (r: Vec<u8>)
    ensures
        r@ == close_value(),
{
    let r = vec!['c' as u8, 'l' as u8, 'o' as u8, 's' as u8, 'e' as u8];
    assert(r@ =~= close_value());
    r
}

fn bytes_of_http11() -> (r: Vec<u8>)
    ensures
        r@ == http11(),
{
    let r = vec!['H' as u8, 'T' as u8, 'T' as u8, 'P' as u8, '/' as u8, '1' as u8, '.' as u8, '1' as u8];
    assert(r@ =~= http11());
    r
}

/// Whether parsing `request` would stop with a panic (see `parse_panics`).
pub fn parse_would_panic(request: &[u8]) -> (r: bool)
    ensures
        r == parse_panics(request@),
{
    if !request_line_valid(request) {
        return false;
    }
    let m_end = find_byte(request, 32, 0);
    if method_token(request, m_end) == Some(Method::Trace) {
        return false;
    }
    let t_end = find_byte(request, 32, m_end + 1);
    let v = t_end + 1;
    let ce0 = line_end(request, 0);
    let http = bytes_of_http11();
    let version_ok = prefix_at(request, v, http.as_slice()) && (v + 8 == ce0 || ws_len_at(
        request,
        v + 8,
    ) > 0);
    if !version_ok {
        return false;
    }
    let q = find_byte(request, 63, m_end + 1);
    let first_q = find_byte(request, 63, 0);
    q >= t_end && first_q < ce0
}

impl Request {
    /// Whether the server reads a body for this request: `POST`, `PUT` and `PATCH`.
    pub fn takes_body(&self) -> (r: bool)
        ensures
            r == (self@.method == Method::Post || self@.method == Method::Put || self@.method
                == Method::Patch),
    {
        match self {
            Request::Post { .. } | Request::Put { .. } | Request::Patch { .. } => true,
            _ => false,
        }
    }

    /// The header fields of a request that has them.
    pub fn headers(&self) -> (r: Option<&Fields>)
        ensures
            match r {
                Some(h) => h.map() == self@.headers && !(self@.method == Method::Connect
                    || self@.method == Method::Options || self@.method == Method::Trace),
                None => self@.method == Method::Connect || self@.method == Method::Options
                    || self@.method == Method::Trace,
            },
    {
        match self {
            Request::Get { headers, .. } | Request::Head { headers, .. } | Request::Post {
                headers,
                ..
            } | Request::Put { headers, .. } | Request::Delete { headers, .. } | Request::Patch {
                headers,
                ..
            } => Some(headers),
            _ => None,
        }
    }

    /// Attaches the form data of the body to a `POST`, `PUT` or `PATCH`; other requests
    /// stay as they are.
    pub fn set_data(&mut self, form: Fields)
        ensures
            (old(self)@.method == Method::Post || old(self)@.method == Method::Put
                || old(self)@.method == Method::Patch) ==> final(self)@ == (RequestView {
                data: Some(form.map()),
                ..old(self)@
            }),
            !(old(self)@.method == Method::Post || old(self)@.method == Method::Put
                || old(self)@.method == Method::Patch) ==> final(self)@ == old(self)@,
    {
        match self {
            Request::Post { data, .. } => {
                *data = Some(form);
            },
            Request::Put { data, .. } => {
                *data = Some(form);
            },
            Request::Patch { data, .. } => {
                *data = Some(form);
            },
            _ => {},
        }
    }

    /// Parses the head of a request: its request line and header fields.
    ///
    /// A request whose first line does not start with a method, a request target and an
    /// HTTP version is refused with `InvalidRequest`; `TRACE` gives back the whole request;
    /// any version other than `HTTP/1.1` is refused with `VersionNotSupported`; a query
    /// that names a parameter twice, or a request without a `host` header, is refused with
    /// `InvalidRequest`. `connection: close` clears `keep_alive`.
    pub fn parse_from_string(request: &[u8], keep_alive: &mut bool) -> (r: Result<
        Request,
        ServerError,
    >)
        requires
            !parse_panics(request@),
        ensures
            view_result(r) == spec_parse(request@),
            *final(keep_alive) == if asks_close(request@) {
                false
            } else {
                *old(keep_alive)
            },
    {
        let ghost s = request@;
        if !request_line_valid(request) {
            return Err(ServerError::InvalidRequest);
        }
        let m_end = find_byte(request, 32, 0);
        let method = match method_token(request, m_end) {
            Some(m) => m,
            None => {
                return Err(ServerError::InvalidRequest);
            },
        };
        if method == Method::Trace {
            let raw = copy_range(request, 0, request.len());
            assert(raw@ == s);
            return Ok(Request::Trace(raw));
        }
        let t_end = find_byte(request, 32, m_end + 1);
        let v = t_end + 1;
        let ce0 = line_end(request, 0);
        let http = bytes_of_http11();
        let version_ok = prefix_at(request, v, http.as_slice()) && (v + 8 == ce0 || ws_len_at(
            request,
            v + 8,
        ) > 0);
        if !version_ok {
            return Err(ServerError::VersionNotSupported);
        }
        let q = find_byte(request, 63, m_end + 1);
        let has_query = q < t_end;
        let ghost target = target_of(s);
        proof {
            lemma_find_sub(s, 63, m_end + 1, t_end as int, m_end + 2);
            lemma_find_sub(s, 63, m_end + 1, t_end as int, m_end + 1);
        }
        let params = if has_query {
            assert(target[0] == 47);
            assert(find_from(target, 63, 1) == q - (m_end + 1));
            let query = copy_range(request, q + 1, t_end);
            assert(query@ == target.subrange(find_from(target, 63, 1) + 1, target.len() as int));
            assert forall|i: int| 0 <= i < split(query@, 38).len() implies find_from(
                #[trigger] split(query@, 38)[i],
                61,
                0,
            ) < split(query@, 38)[i].len() by {
                assert(valid_pair(split(query@, 38)[i]));
            }
            match parse_query(query.as_slice()) {
                Some(f) => f,
                None => {
                    return Err(ServerError::InvalidRequest);
                },
            }
        } else {
            let f = Fields::new();
            assert(f@ == Seq::<(Seq<u8>, Seq<u8>)>::empty());
            f
        };
        let resource = copy_range(request, m_end + 1, if has_query {
            q
        } else {
            t_end
        });
        let nl = find_byte(request, 10, 0);
        let first = if nl < request.len() {
            nl + 1
        } else {
            request.len()
        };
        let headers = parse_headers(request, first);
        assert(header_lines_from(s, first as int) == header_pairs(s));
        let host = bytes_of_host();
        if !headers.contains_key(host.as_slice()) {
            return Err(ServerError::InvalidRequest);
        }
        let conn = bytes_of_connection();
        match headers.get(conn.as_slice()) {
            Some(c) => {
                let close = bytes_of_close();
                if bytes_eq(c.as_slice(), close.as_slice()) {
                    *keep_alive = false;
                }
            },
            None => {},
        }
        let params = if params.is_empty() {
            None
        } else {
            Some(params)
        };
        match method {
            Method::Get => Ok(Request::Get { resource, params, headers }),
            Method::Head => Ok(Request::Head { resource, params, headers }),
            Method::Post => Ok(Request::Post { resource, params, headers, data: None }),
            Method::Put => Ok(Request::Put { resource, params, headers, data: None }),
            Method::Delete => Ok(Request::Delete { resource, params, headers, data: None }),
            Method::Connect => Ok(Request::Connect),
            Method::Options => Ok(Request::Options),
            Method::Patch => Ok(Request::Patch { resource, params, headers, data: None }),
            Method::Trace => Err(ServerError::InvalidRequest),
        }
    }
}

} // verus!
