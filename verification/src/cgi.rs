//! The Common Gateway Interface: the environment a CGI program gets, where its script
//! is found, what its exit means, and how its output becomes a response.
use vstd::prelude::*;
use crate::codec::{lossy_text, lossy_utf8, to_lowercase_text, unicode_lowercase, utf8_lossy};
use crate::error::ServerError;
use crate::fields::{fold_pairs, Fields};
use crate::response::{bytes_of, crlf};
use crate::text::{
    all_ascii, copy_range, decimal, decimal_bytes, find_byte, find_from, find_pattern,
    find_pattern_from, is_ascii_bytes, lowercase, parse_unsigned, push_all, split,
    split_bytes, split_pattern, split_pattern_from, to_lower, trim, trim_bytes, upper, views,
};

verus! {

/// A request body handed to a CGI program, with its media type.
pub struct CGIData {
    pub data: Vec<u8>,
    pub content_type: String,
}

/// What became of an attempt to serve a resource through CGI.
pub enum CGIStatus {
    /// The program answered and its response was sent.
    Available,
    /// The program could not serve the resource; an endpoint may.
    Unavailable { not_found_guaranteed: bool, resource_present_in_endpoints: bool },
    /// Access to the resource is denied and that answer was sent.
    Denied,
    /// A directory listing was sent.
    IndexOf,
}

/// What the server knows of a CGI request, as bytes.
pub struct CgiContext {
    pub server_addr: Vec<u8>,
    pub server_name: Vec<u8>,
    pub server_port: u16,
    pub server_version: Vec<u8>,
    pub document_root: Vec<u8>,
    pub request_uri: Vec<u8>,
    pub request_method: Vec<u8>,
    pub query_string: Vec<u8>,
    pub https: bool,
    pub remote_addr: Vec<u8>,
    pub remote_port: u16,
    pub script_name: Vec<u8>,
    pub script_filename: Vec<u8>,
    pub path_info: Vec<u8>,
}

/// The variables every CGI program gets, in the order they are set.
pub open spec fn base_env(c: CgiContext) -> Seq<(Seq<u8>, Seq<u8>)> {
    seq![
        (bytes_of("GATEWAY_INTERFACE"@), bytes_of("CGI/1.1"@)),
        (bytes_of("SERVER_ADDR"@), c.server_addr@),
        (bytes_of("SERVER_NAME"@), c.server_name@),
        (bytes_of("SERVER_PORT"@), decimal(c.server_port as nat)),
        (bytes_of("SERVER_PROTOCOL"@), bytes_of("HTTP/1.1"@)),
        (bytes_of("SERVER_SOFTWARE"@), bytes_of("Drain "@) + c.server_version@),
        (bytes_of("DOCUMENT_ROOT"@), c.document_root@),
        (bytes_of("REQUEST_URI"@), c.request_uri@),
        (bytes_of("REQUEST_METHOD"@), c.request_method@),
        (bytes_of("QUERY_STRING"@), c.query_string@),
        (bytes_of("HTTPS"@), if c.https {
            bytes_of("1"@)
        } else {
            Seq::empty()
        }),
        (bytes_of("REMOTE_ADDR"@), c.remote_addr@),
        (bytes_of("REMOTE_PORT"@), decimal(c.remote_port as nat)),
        (bytes_of("SCRIPT_NAME"@), c.script_name@),
        (bytes_of("SCRIPT_FILENAME"@), c.script_filename@),
        (bytes_of("REDIRECT_STATUS"@), bytes_of("1"@)),
        (bytes_of("PATH_INFO"@), c.path_info@),
    ]
}

/// `HTTP_` and the header name in upper case with `-` turned into `_`.
pub open spec fn http_var(name: Seq<u8>) -> Seq<u8> {
    bytes_of("HTTP_"@) + name.map_values(
        |b: u8|
            if b == 45 {
                95u8
            } else {
                upper(b)
            },
    )
}

/// The variables that carry the request's header fields.
pub open spec fn header_vars(h: Seq<(Seq<u8>, Seq<u8>)>) -> Seq<(Seq<u8>, Seq<u8>)> {
    h.map_values(|p: (Seq<u8>, Seq<u8>)| (http_var(p.0), p.1))
}

/// The environment of a CGI program: the base variables and the header variables,
/// without `HTTP_CONTENT_TYPE` and `HTTP_CONTENT_LENGTH`; with a body, `CONTENT_TYPE` and
/// `CONTENT_LENGTH` describe it.
pub open spec fn spec_cgi_env(
    c: CgiContext,
    headers: Seq<(Seq<u8>, Seq<u8>)>,
    body: Option<(Seq<u8>, Seq<char>)>,
) -> Map<Seq<u8>, Seq<u8>> {
    let m = fold_pairs(base_env(c) + header_vars(headers)).remove(
        bytes_of("HTTP_CONTENT_TYPE"@),
    ).remove(bytes_of("HTTP_CONTENT_LENGTH"@));
    match body {
        None => m,
        Some((data, ct)) => m.insert(bytes_of("CONTENT_TYPE"@), bytes_of(ct)).insert(
            bytes_of("CONTENT_LENGTH"@),
            decimal(data.len()),
        ),
    }
}

fn bytes_vec(s: &str) -> (r: Vec<u8>)
    ensures
        r@ == bytes_of(s@),
{
    let b = s.as_bytes();
    let r = copy_range(b, 0, b.len());
    assert(r@ == b@);
    r
}

fn set_var(env: &mut Fields, acc: Ghost<Seq<(Seq<u8>, Seq<u8>)>>, k: Vec<u8>, v: Vec<u8>)
    requires
        old(env).map() == fold_pairs(acc@),
    ensures
        final(env).map() == fold_pairs(acc@.push((k@, v@))),
{
    let ghost kk = k@;
    let ghost vv = v@;
    env.insert(k, v);
    assert(acc@.push((kk, vv)).drop_last() =~= acc@);
}

/// The CGI name of a header: `HTTP_` and the name in upper case, `-` turned into `_`.
pub fn http_var_name(name: &[u8]) -> (r: Vec<u8>)
    ensures
        r@ == http_var(name@),
{
    let mut out = bytes_vec("HTTP_");
    let ghost prefix = out@;
    let mut i: usize = 0;
    while i < name.len()
        invariant
            i <= name.len(),
            prefix == bytes_of("HTTP_"@),
            out@ == prefix + name@.subrange(0, i as int).map_values(
                |b: u8|
                    if b == 45 {
                        95u8
                    } else {
                        upper(b)
                    },
            ),
        decreases name.len() - i,
    {
        let b = name[i];
        let c = if b == 45 {
            95u8
        } else if 97 <= b && b <= 122 {
            b - 32
        } else {
            b
        };
        out.push(c);
        i += 1;
        assert(name@.subrange(0, i as int).map_values(
            |b: u8|
                if b == 45 {
                    95u8
                } else {
                    upper(b)
                },
        ) =~= name@.subrange(0, i - 1).map_values(
            |b: u8|
                if b == 45 {
                    95u8
                } else {
                    upper(b)
                },
        ).push(c));
    }
    assert(name@.subrange(0, i as int) == name@);
    out
}

/// The environment of a CGI program; see `spec_cgi_env`.
pub fn cgi_environment(c: &CgiContext, headers: &Fields, body: Option<&CGIData>) -> (r: Fields)
    ensures
        r.map() == spec_cgi_env(
            *c,
            headers@,
            match body {
                Some(d) => Some((d.data@, d.content_type@)),
                None => None,
            },
        ),
{
    let mut env = Fields::new();
    let ghost mut acc: Seq<(Seq<u8>, Seq<u8>)> = Seq::empty();
    assert(env.map() =~= fold_pairs(acc));
    let https = if c.https {
        bytes_vec("1")
    } else {
        let v: Vec<u8> = Vec::new();
        assert(v@ =~= Seq::<u8>::empty());
        v
    };
    let mut software = bytes_vec("Drain ");
    push_all(&mut software, c.server_version.as_slice());
    let pairs: Vec<(Vec<u8>, Vec<u8>)> = vec![
        (bytes_vec("GATEWAY_INTERFACE"), bytes_vec("CGI/1.1")),
        (bytes_vec("SERVER_ADDR"), copy_range(c.server_addr.as_slice(), 0, c.server_addr.len())),
        (bytes_vec("SERVER_NAME"), copy_range(c.server_name.as_slice(), 0, c.server_name.len())),
        (bytes_vec("SERVER_PORT"), decimal_bytes(c.server_port as u64)),
        (bytes_vec("SERVER_PROTOCOL"), bytes_vec("HTTP/1.1")),
        (bytes_vec("SERVER_SOFTWARE"), software),
        (bytes_vec("DOCUMENT_ROOT"), copy_range(c.document_root.as_slice(), 0, c.document_root.len())),
        (bytes_vec("REQUEST_URI"), copy_range(c.request_uri.as_slice(), 0, c.request_uri.len())),
        (bytes_vec("REQUEST_METHOD"), copy_range(c.request_method.as_slice(), 0, c.request_method.len())),
        (bytes_vec("QUERY_STRING"), copy_range(c.query_string.as_slice(), 0, c.query_string.len())),
        (bytes_vec("HTTPS"), https),
        (bytes_vec("REMOTE_ADDR"), copy_range(c.remote_addr.as_slice(), 0, c.remote_addr.len())),
        (bytes_vec("REMOTE_PORT"), decimal_bytes(c.remote_port as u64)),
        (bytes_vec("SCRIPT_NAME"), copy_range(c.script_name.as_slice(), 0, c.script_name.len())),
        (bytes_vec("SCRIPT_FILENAME"), copy_range(c.script_filename.as_slice(), 0, c.script_filename.len())),
        (bytes_vec("REDIRECT_STATUS"), bytes_vec("1")),
        (bytes_vec("PATH_INFO"), copy_range(c.path_info.as_slice(), 0, c.path_info.len())),
    ];
    let ghost pv = pairs@.map_values(|p: (Vec<u8>, Vec<u8>)| (p.0@, p.1@));
    assert(c.server_addr@.subrange(0, c.server_addr@.len() as int) == c.server_addr@);
    assert(c.server_name@.subrange(0, c.server_name@.len() as int) == c.server_name@);
    assert(c.document_root@.subrange(0, c.document_root@.len() as int) == c.document_root@);
    assert(c.request_uri@.subrange(0, c.request_uri@.len() as int) == c.request_uri@);
    assert(c.request_method@.subrange(0, c.request_method@.len() as int) == c.request_method@);
    assert(c.query_string@.subrange(0, c.query_string@.len() as int) == c.query_string@);
    assert(c.remote_addr@.subrange(0, c.remote_addr@.len() as int) == c.remote_addr@);
    assert(c.script_name@.subrange(0, c.script_name@.len() as int) == c.script_name@);
    assert(c.script_filename@.subrange(0, c.script_filename@.len() as int) == c.script_filename@);
    assert(c.path_info@.subrange(0, c.path_info@.len() as int) == c.path_info@);
    assert(pv =~= base_env(*c));
    let mut pairs = pairs;
    let mut i: usize = 0;
    let n = pairs.len();
    while i < n
        invariant
            n == pairs@.len(),
            i <= n,
            pv == pairs@.map_values(|p: (Vec<u8>, Vec<u8>)| (p.0@, p.1@)),
            acc == pv.subrange(0, i as int),
            env.map() == fold_pairs(acc),
        decreases n - i,
    {
        let k = copy_range(pairs[i].0.as_slice(), 0, pairs[i].0.len());
        let v = copy_range(pairs[i].1.as_slice(), 0, pairs[i].1.len());
        assert((k@, v@) == pv[i as int]);
        set_var(&mut env, Ghost(acc), k, v);
        proof {
            assert(pv.subrange(0, i + 1) == pv.subrange(0, i as int).push(pv[i as int]));
            acc = acc.push(pv[i as int]);
        }
        i += 1;
    }
    assert(pv.subrange(0, n as int) == pv);
    let ghost hv = header_vars(headers@);
    let mut j: usize = 0;
    while j < headers.len()
        invariant
            j <= headers@.len(),
            hv == header_vars(headers@),
            acc == base_env(*c) + hv.subrange(0, j as int),
            env.map() == fold_pairs(acc),
        decreases headers@.len() - j,
    {
        let k = http_var_name(headers.key_at(j).as_slice());
        let v = copy_range(headers.value_at(j).as_slice(), 0, headers.value_at(j).len());
        assert((k@, v@) == hv[j as int]);
        set_var(&mut env, Ghost(acc), k, v);
        proof {
            assert(hv.subrange(0, j + 1) == hv.subrange(0, j as int).push(hv[j as int]));
            acc = acc.push(hv[j as int]);
        }
        j += 1;
    }
    assert(hv.subrange(0, j as int) == hv);
    env.remove("HTTP_CONTENT_TYPE".as_bytes());
    env.remove("HTTP_CONTENT_LENGTH".as_bytes());
    match body {
        Some(d) => {
            let ct = bytes_vec(d.content_type.as_str());
            env.insert(bytes_vec("CONTENT_TYPE"), ct);
            env.insert(bytes_vec("CONTENT_LENGTH"), decimal_bytes(d.data.len() as u64));
        },
        None => {},
    }
    env
}

// ---------------------------------------------------------------------------
// Where the script is
/// `/p[a]/p[a+1]/.../p[b-1]`
pub open spec fn slash_join(p: Seq<Seq<u8>>, a: int, b: int) -> Seq<u8>
    decreases b - a,
{
    if b <= a {
        Seq::empty()
    } else {
        slash_join(p, a, b - 1) + seq![47u8] + p[b - 1]
    }
}

/// The script file after `pos` path pieces of `resource` (split at `/`) were tried: the
/// document root followed by pieces `1 .. pos`.
pub open spec fn script_filename(root: Seq<u8>, resource: Seq<u8>, pos: int) -> Seq<u8> {
    root + slash_join(split(resource, 47), 1, pos)
}

/// The number of `/`-separated pieces of `resource`.
pub fn path_piece_count(resource: &[u8]) -> (r: usize)
    ensures
        r == split(resource@, 47).len(),
{
    let parts = split_bytes(resource, 47);
    assert(views(parts@).len() == parts@.len());
    parts.len()
}

fn slash_join_exec(p: &Vec<Vec<u8>>, a: usize, b: usize) -> (r: Vec<u8>)
    requires
        a <= b <= p@.len(),
    ensures
        r@ == slash_join(views(p@), a as int, b as int),
{
    let mut out: Vec<u8> = Vec::new();
    let mut i = a;
    while i < b
        invariant
            a <= i <= b <= p@.len(),
            out@ == slash_join(views(p@), a as int, i as int),
        decreases b - i,
    {
        out.push(47);
        push_all(&mut out, p[i].as_slice());
        assert(views(p@)[i as int] == p@[i as int]@);
        i += 1;
    }
    out
}

/// The file that is tried as the script after `pos` pieces; see `script_filename`. The
/// caller steps `pos` from 1 until this names a file or all pieces are used.
pub fn script_candidate(root: &[u8], resource: &[u8], pos: usize) -> (r: Vec<u8>)
    requires
        pos <= split(resource@, 47).len(),
    ensures
        r@ == script_filename(root@, resource@, pos as int),
{
    let parts = split_bytes(resource, 47);
    let mut out = copy_range(root, 0, root.len());
    assert(out@ == root@);
    if pos >= 1 {
        let tail = slash_join_exec(&parts, 1, pos);
        push_all(&mut out, tail.as_slice());
    } else {
        assert(slash_join(split(resource@, 47), 1, pos as int) =~= Seq::<u8>::empty());
        assert(out@ =~= root@ + Seq::<u8>::empty());
    }
    out
}

/// `SCRIPT_NAME` and `PATH_INFO` once the script was found after `pos` pieces: the last
/// piece used, and the pieces that were not used, each after a `/`.
pub fn script_name_and_path_info(resource: &[u8], pos: usize) -> (r: (Vec<u8>, Vec<u8>))
    requires
        1 <= pos <= split(resource@, 47).len(),
    ensures
        r.0@ == split(resource@, 47)[pos - 1],
        r.1@ == slash_join(split(resource@, 47), pos as int, split(resource@, 47).len() as int),
{
    let parts = split_bytes(resource, 47);
    let name = copy_range(parts[pos - 1].as_slice(), 0, parts[pos - 1].len());
    assert(views(parts@)[pos - 1] == parts@[pos - 1]@);
    let info = slash_join_exec(&parts, pos, parts.len());
    (name, info)
}

// ---------------------------------------------------------------------------
// What the program's exit means
/// The outcome of a program that exited: an exit without error output but with failure
/// means the resource is not there (unless an endpoint serves it); a failure with error
/// output is a bad gateway; anything else goes on to its output (`None`).
pub open spec fn spec_exit_outcome(stderr_empty: bool, success: bool, endpoint_available: bool) -> Option<
    Result<(bool, bool), ServerError>,
> {
    if !success && stderr_empty {
        Some(Ok((!endpoint_available, endpoint_available)))
    } else if !success {
        Some(Err(ServerError::BadGateway))
    } else {
        None
    }
}

/// What a finished CGI program's exit means; see `spec_exit_outcome`. `Some(Ok(s))` is an
/// `Unavailable` status.
pub fn cgi_exit_outcome(stderr_empty: bool, success: bool, endpoint_available: bool) -> (r: Option<
    Result<CGIStatus, ServerError>,
>)
    ensures
        match spec_exit_outcome(stderr_empty, success, endpoint_available) {
            None => r is None,
            Some(Err(e)) => r matches Some(Err(e2)) && e2 == e,
            Some(Ok((nf, present))) => r matches Some(
                Ok(CGIStatus::Unavailable { not_found_guaranteed, resource_present_in_endpoints }),
            ) && not_found_guaranteed == nf && resource_present_in_endpoints == present,
        },
{
    if !success && stderr_empty {
        Some(
            Ok(
                CGIStatus::Unavailable {
                    not_found_guaranteed: !endpoint_available,
                    resource_present_in_endpoints: endpoint_available,
                },
            ),
        )
    } else if !success {
        Some(Err(ServerError::BadGateway))
    } else {
        None
    }
}

// ---------------------------------------------------------------------------
// Reading the program's output
/// `\r\n\r\n`
pub open spec fn blank_line() -> Seq<u8> {
    crlf() + crlf()
}

/// A text read as text (invalid UTF-8 replaced) and put in lower case.
pub open spec fn lower_text(t: Seq<u8>) -> Seq<u8> {
    if all_ascii(t) {
        lowercase(t)
    } else {
        bytes_of(unicode_lowercase(vstd::utf8::decode_utf8(utf8_lossy(t))))
    }
}

/// A header line of the program's output as name and value: both read as text and
/// trimmed, the name in lower case.
pub open spec fn cgi_field(line: Seq<u8>) -> (Seq<u8>, Seq<u8>) {
    let c = find_from(line, 58, 0);
    (
        lower_text(trim(utf8_lossy(line.subrange(0, c)))),
        trim(utf8_lossy(line.subrange(c + 1, line.len() as int))),
    )
}

/// The header lines of the program's output.
pub open spec fn cgi_lines(out: Seq<u8>) -> Seq<Seq<u8>> {
    split_pattern_from(out.subrange(0, find_pattern_from(out, blank_line(), 0)), crlf(), 0)
}

/// The header fields of the program's output, when every header line has a `:`.
pub open spec fn cgi_fields(out: Seq<u8>) -> Map<Seq<u8>, Seq<u8>> {
    fold_pairs(cgi_lines(out).map_values(|l: Seq<u8>| cgi_field(l)))
}

/// The output has a blank line and every header line before it has a `:`.
pub open spec fn cgi_head_ok(out: Seq<u8>) -> bool {
    &&& find_pattern_from(out, blank_line(), 0) < out.len()
    &&& forall|i: int|
        0 <= i < cgi_lines(out).len() ==> find_from(#[trigger] cgi_lines(out)[i], 58, 0) < cgi_lines(
            out,
        )[i].len()
}

/// `status`
pub open spec fn status_key() -> Seq<u8> {
    bytes_of("status"@)
}

/// `location`
pub open spec fn location_key() -> Seq<u8> {
    bytes_of("location"@)
}

/// A `status` value whose first three bytes cannot be cut off: it is shorter, or the
/// fourth byte continues a character.
pub open spec fn status_uncuttable(v: Seq<u8>) -> bool {
    v.len() < 3 || (v.len() > 3 && 0x80 <= v[3] <= 0xbf)
}

/// The inputs on which reading the output stops with a panic.
pub open spec fn cgi_output_panics(out: Seq<u8>) -> bool {
    &&& cgi_head_ok(out)
    &&& cgi_fields(out).contains_key(status_key())
    &&& status_uncuttable(cgi_fields(out)[status_key()])
}

/// The response a CGI program's output makes: status, header fields and body.
pub struct CgiResponse {
    pub status: u16,
    pub headers: Fields,
    pub content: Option<Vec<u8>>,
}

/// What reading the output gives: `BadGateway` without a blank line, for a header line
/// without `:`, or for a `status` whose first three bytes are not a number; else the
/// status it names (200 when none; 302 when there is a `location`), the header fields
/// without `status`, and the body after the blank line, if not empty.
pub open spec fn spec_cgi_output(out: Seq<u8>) -> Result<(u16, Map<Seq<u8>, Seq<u8>>, Seq<u8>), ServerError> {
    if !cgi_head_ok(out) {
        Err(ServerError::BadGateway)
    } else {
        let f = cgi_fields(out);
        let code = if f.contains_key(status_key()) {
            parse_unsigned(f[status_key()].subrange(0, 3), u16::MAX as nat)
        } else {
            Some(200nat)
        };
        match code {
            None => Err(ServerError::BadGateway),
            Some(n) => {
                let h = f.remove(status_key());
                Ok(
                    (
                        if h.contains_key(location_key()) {
                            302
                        } else {
                            n as u16
                        },
                        h,
                        out.subrange(
                            find_pattern_from(out, blank_line(), 0) + 4,
                            out.len() as int,
                        ),
                    ),
                )
            },
        }
    }
}

fn lower_text_exec(t: &[u8]) -> (r: Vec<u8>)
    ensures
        r@ == lower_text(t@),
{
    if is_ascii_bytes(t) {
        to_lower(t)
    } else {
        let text = lossy_text(t);
        proof {
            vstd::utf8::encode_utf8_decode_utf8(text@);
        }
        let lower = to_lowercase_text(text.as_str());
        let b = lower.as_str().as_bytes();
        copy_range(b, 0, b.len())
    }
}

/// The name and value of a header line of the program's output; see `cgi_field`.
pub fn cgi_field_exec(line: &[u8]) -> (r: (Vec<u8>, Vec<u8>))
    requires
        find_from(line@, 58, 0) < line@.len(),
    ensures
        (r.0@, r.1@) == cgi_field(line@),
{
    let c = find_byte(line, 58, 0);
    let name = copy_range(line, 0, c);
    let value = copy_range(line, c + 1, line.len());
    let name_text = lossy_utf8(name.as_slice());
    let value_text = lossy_utf8(value.as_slice());
    let name_trim = trim_bytes(name_text.as_slice());
    let value_trim = trim_bytes(value_text.as_slice());
    (lower_text_exec(name_trim.as_slice()), value_trim)
}

fn crlf_bytes() -> (r: Vec<u8>)
    ensures
        r@ == crlf(),
{
    let r = vec![13u8, 10u8];
    assert(r@ =~= crlf());
    r
}

fn blank_line_bytes() -> (r: Vec<u8>)
    ensures
        r@ == blank_line(),
{
    let r = vec![13u8, 10u8, 13u8, 10u8];
    assert(r@ =~= blank_line());
    r
}

/// Whether reading `out` would stop with a panic (see `cgi_output_panics`).
pub fn cgi_output_would_panic(out: &[u8]) -> (r: bool)
    ensures
        r == cgi_output_panics(out@),
{
    match read_fields(out) {
        None => false,
        Some(f) => match f.get("status".as_bytes()) {
            None => false,
            Some(v) => v.len() < 3 || (v.len() > 3 && 0x80 <= v[3] && v[3] <= 0xbf),
        },
    }
}

/// The header fields of the output, or `None` when `cgi_head_ok` fails.
fn read_fields(out: &[u8]) -> (r: Option<Fields>)
    ensures
        r is Some <==> cgi_head_ok(out@),
        r matches Some(f) ==> f.map() == cgi_fields(out@),
{
    let blank = blank_line_bytes();
    let sep = find_pattern(out, blank.as_slice(), 0);
    if sep == out.len() {
        return None;
    }
    let head = copy_range(out, 0, sep);
    let crlf = crlf_bytes();
    let lines = split_pattern(head.as_slice(), crlf.as_slice());
    let ghost lv = cgi_lines(out@);
    assert(views(lines@) == lv);
    let ghost fv = lv.map_values(|l: Seq<u8>| cgi_field(l));
    let mut f = Fields::new();
    let ghost mut acc: Seq<(Seq<u8>, Seq<u8>)> = Seq::empty();
    let mut i: usize = 0;
    while i < lines.len()
        invariant
            views(lines@) == lv,
            lv == cgi_lines(out@),
            fv == lv.map_values(|l: Seq<u8>| cgi_field(l)),
            find_pattern_from(out@, blank_line(), 0) < out@.len(),
            i <= lines@.len(),
            acc == fv.subrange(0, i as int),
            f.map() == fold_pairs(acc),
            forall|k: int| 0 <= k < i ==> find_from(#[trigger] lv[k], 58, 0) < lv[k].len(),
        decreases lines.len() - i,
    {
        assert(views(lines@)[i as int] == lines@[i as int]@);
        let c = find_byte(lines[i].as_slice(), 58, 0);
        if c == lines[i].len() {
            return None;
        }
        let (k, v) = cgi_field_exec(lines[i].as_slice());
        let ghost p = (k@, v@);
        assert(p == fv[i as int]);
        f.insert(k, v);
        proof {
            assert(acc.push(p).drop_last() == acc);
            assert(fv.subrange(0, i + 1) == acc.push(p));
            acc = acc.push(p);
        }
        i += 1;
    }
    assert(fv.subrange(0, i as int) == fv);
    Some(f)
}

/// Reads a CGI program's output; see `spec_cgi_output`.
pub fn parse_cgi_output(out: &[u8]) -> (r: Result<CgiResponse, ServerError>)
    requires
        !cgi_output_panics(out@),
    ensures
        match spec_cgi_output(out@) {
            Ok((status, headers, body)) => r matches Ok(resp) && resp.status == status
                && resp.headers.map() == headers && match resp.content {
                Some(c) => c@ == body && body.len() > 0,
                None => body.len() == 0,
            },
            Err(e) => r matches Err(e2) && e2 == e,
        },
{
    let mut f = match read_fields(out) {
        None => {
            return Err(ServerError::BadGateway);
        },
        Some(f) => f,
    };
    let code: u16 = match f.get("status".as_bytes()) {
        Some(v) => {
            let first = copy_range(v.as_slice(), 0, 3);
            match crate::text::parse_usize(first.as_slice()) {
                Some(n) => {
                    if n > 65535 {
                        return Err(ServerError::BadGateway);
                    }
                    n as u16
                },
                None => {
                    return Err(ServerError::BadGateway);
                },
            }
        },
        None => 200,
    };
    f.remove("status".as_bytes());
    let status = if f.contains_key("location".as_bytes()) {
        302
    } else {
        code
    };
    let blank = blank_line_bytes();
    let sep = find_pattern(out, blank.as_slice(), 0);
    proof {
        crate::text::lemma_find_pattern(out@, blank_line(), 0);
    }
    let body = copy_range(out, sep + 4, out.len());
    let content = if body.len() == 0 {
        None
    } else {
        Some(body)
    };
    Ok(CgiResponse { status, headers: f, content })
}

} // verus!
