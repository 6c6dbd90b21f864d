//! Writing a response: status line, `Date`, merged header fields, and a body that
//! may be compressed in the coding that `Content-Encoding` names.
use vstd::prelude::*;
use vstd::string::StringSliceAdditionalSpecFns;
use crate::codec::{brotli_encode, brotli_encoding, gzip_encode, gzip_encoding};
use crate::error::ServerError;
use crate::fields::{as_map, drop_entry, missing_from, Fields};
use crate::text::{copy_range, decimal, decimal_bytes, push_all, skip_ws_from, trim, trim_bytes, trim_start};

verus! {

/// The bytes of a text: its UTF-8 encoding.
pub open spec fn bytes_of(s: Seq<char>) -> Seq<u8> {
    vstd::utf8::encode_utf8(s)
}

/// The reason phrase of a status code, for the codes a response may have.
pub open spec fn reason(code: u16) -> Option<Seq<char>> {
    match code {
        100 => Some("Continue"@),
        101 => Some("Switching Protocols"@),
        102 => Some("Processing"@),
        103 => Some("Early Hints"@),
        200 => Some("OK"@),
        201 => Some("Created"@),
        202 => Some("Accepted"@),
        203 => Some("Non-Authoritative Information"@),
        204 => Some("No Content"@),
        205 => Some("Reset Content"@),
        206 => Some("Partial Content"@),
        207 => Some("Multi-Status"@),
        208 => Some("Already Reported"@),
        226 => Some("IM Used"@),
        300 => Some("Multiple Choices"@),
        301 => Some("Moved Permanently"@),
        302 => Some("Found"@),
        303 => Some("See Other"@),
        304 => Some("Not Modified"@),
        307 => Some("Temporary Redirect"@),
        308 => Some("Permanent Redirect"@),
        400 => Some("Bad Request"@),
        401 => Some("Unauthorized"@),
        402 => Some("Payment Required"@),
        403 => Some("Forbidden"@),
        404 => Some("Not Found"@),
        405 => Some("Method Not Allowed"@),
        406 => Some("Not Acceptable"@),
        407 => Some("Proxy Authentication Required"@),
        408 => Some("Request Timeout"@),
        409 => Some("Conflict"@),
        410 => Some("Gone"@),
        411 => Some("Length Required"@),
        412 => Some("Precondition Failed"@),
        413 => Some("Content Too Large"@),
        414 => Some("URI Too Long"@),
        415 => Some("Unsupported Media Type"@),
        416 => Some("Range Not Satisfiable"@),
        417 => Some("Expectation Failed"@),
        418 => Some("I'm a teapot"@),
        421 => Some("Misdirected Request"@),
        422 => Some("Unprocessable Content"@),
        423 => Some("Locked"@),
        424 => Some("Failed Dependency"@),
        425 => Some("Too Early"@),
        426 => Some("Upgrade Required"@),
        428 => Some("Precondition Required"@),
        429 => Some("Too Many Requests"@),
        431 => Some("Request Header Fields Too Large"@),
        451 => Some("Unavailable For Legal Reasons"@),
        500 => Some("Internal Server Error"@),
        501 => Some("Not Implemented"@),
        502 => Some("Bad Gateway"@),
        503 => Some("Service Unavailable"@),
        504 => Some("Gateway Timeout"@),
        505 => Some("HTTP Version Not Supported"@),
        506 => Some("Variant Also Negotiates"@),
        507 => Some("Insufficient Storage"@),
        508 => Some("Loop Detected"@),
        510 => Some("Not Extended"@),
        511 => Some("Network Authentication Required"@),
        _ => None,
    }
}

/// The reason phrase of `code`, or `None` for a code that has none.
pub fn reason_phrase(code: u16) -> (r: Option<&'static str>)
    ensures
        match r {
            Some(t) => reason(code) == Some(t@),
            None => reason(code) is None,
        },
{
    match code {
        100 => Some("Continue"),
        101 => Some("Switching Protocols"),
        102 => Some("Processing"),
        103 => Some("Early Hints"),
        200 => Some("OK"),
        201 => Some("Created"),
        202 => Some("Accepted"),
        203 => Some("Non-Authoritative Information"),
        204 => Some("No Content"),
        205 => Some("Reset Content"),
        206 => Some("Partial Content"),
        207 => Some("Multi-Status"),
        208 => Some("Already Reported"),
        226 => Some("IM Used"),
        300 => Some("Multiple Choices"),
        301 => Some("Moved Permanently"),
        302 => Some("Found"),
        303 => Some("See Other"),
        304 => Some("Not Modified"),
        307 => Some("Temporary Redirect"),
        308 => Some("Permanent Redirect"),
        400 => Some("Bad Request"),
        401 => Some("Unauthorized"),
        402 => Some("Payment Required"),
        403 => Some("Forbidden"),
        404 => Some("Not Found"),
        405 => Some("Method Not Allowed"),
        406 => Some("Not Acceptable"),
        407 => Some("Proxy Authentication Required"),
        408 => Some("Request Timeout"),
        409 => Some("Conflict"),
        410 => Some("Gone"),
        411 => Some("Length Required"),
        412 => Some("Precondition Failed"),
        413 => Some("Content Too Large"),
        414 => Some("URI Too Long"),
        415 => Some("Unsupported Media Type"),
        416 => Some("Range Not Satisfiable"),
        417 => Some("Expectation Failed"),
        418 => Some("I'm a teapot"),
        421 => Some("Misdirected Request"),
        422 => Some("Unprocessable Content"),
        423 => Some("Locked"),
        424 => Some("Failed Dependency"),
        425 => Some("Too Early"),
        426 => Some("Upgrade Required"),
        428 => Some("Precondition Required"),
        429 => Some("Too Many Requests"),
        431 => Some("Request Header Fields Too Large"),
        451 => Some("Unavailable For Legal Reasons"),
        500 => Some("Internal Server Error"),
        501 => Some("Not Implemented"),
        502 => Some("Bad Gateway"),
        503 => Some("Service Unavailable"),
        504 => Some("Gateway Timeout"),
        505 => Some("HTTP Version Not Supported"),
        506 => Some("Variant Also Negotiates"),
        507 => Some("Insufficient Storage"),
        508 => Some("Loop Detected"),
        510 => Some("Not Extended"),
        511 => Some("Network Authentication Required"),
        _ => None,
    }
}

/// `\r\n`
pub open spec fn crlf() -> Seq<u8> {
    seq![13u8, 10u8]
}

/// `name: value\r\n`
pub open spec fn header_line(p: (Seq<u8>, Seq<u8>)) -> Seq<u8> {
    p.0 + bytes_of(": "@) + p.1 + crlf()
}

/// The header lines of `pairs`, in order.
pub open spec fn header_block(pairs: Seq<(Seq<u8>, Seq<u8>)>) -> Seq<u8>
    decreases pairs.len(),
{
    if pairs.len() == 0 {
        Seq::empty()
    } else {
        header_block(pairs.drop_last()) + header_line(pairs.last())
    }
}

/// `HTTP/1.1 <code> <reason>\r\n`
pub open spec fn status_line(code: u16, phrase: Seq<char>) -> Seq<u8> {
    bytes_of("HTTP/1.1 "@) + decimal(code as nat) + bytes_of(" "@) + bytes_of(phrase) + crlf()
}

/// `Date: <date>\r\n`
pub open spec fn date_line(date: Seq<u8>) -> Seq<u8> {
    bytes_of("Date: "@) + date + crlf()
}

/// `Content-Length: <n>\r\n\r\n`
pub open spec fn length_line(n: nat) -> Seq<u8> {
    bytes_of("Content-Length: "@) + decimal(n) + crlf() + crlf()
}

/// The global header fields of a response: the configured ones, and for a response that
/// reports an error `Connection: close` among them.
pub open spec fn global_fields(global: Seq<(Seq<u8>, Seq<u8>)>, error: bool) -> Seq<(Seq<u8>, Seq<u8>)> {
    if error {
        crate::fields::set_entry(global, bytes_of("Connection"@), bytes_of("close"@))
    } else {
        global
    }
}

/// The body after the coding that `Content-Encoding` names is applied; a coding that fails
/// or that the server does not know leaves the body as it is.
pub open spec fn encoded_body(coding: Option<Seq<u8>>, body: Seq<u8>) -> Seq<u8> {
    if coding == Some(bytes_of("gzip"@)) {
        match gzip_encoding(body) {
            Some(v) => v,
            None => body,
        }
    } else if coding == Some(bytes_of("br"@)) {
        match brotli_encoding(body) {
            Some(v) => v,
            None => body,
        }
    } else {
        body
    }
}

/// The `Server` field of the global ones, alone, if there is one.
pub open spec fn server_field(g: Seq<(Seq<u8>, Seq<u8>)>) -> Seq<(Seq<u8>, Seq<u8>)> {
    if as_map(g).contains_key(bytes_of("Server"@)) {
        seq![(bytes_of("Server"@), as_map(g)[bytes_of("Server"@)])]
    } else {
        Seq::empty()
    }
}

/// The header fields a response writes: the local ones without `Date` (the server writes
/// its own) and, when there is a body, without `Content-Length`, followed by the global
/// fields whose names they do not have (the configured global fields are appended to the
/// response's own fields). Without local fields, only the `Server` field is written: the
/// `Server` header is sent on every response while it is enabled, and nothing else is
/// added to a response that has no fields of its own.
pub open spec fn written_fields(
    local: Option<Seq<(Seq<u8>, Seq<u8>)>>,
    has_body: bool,
    global: Seq<(Seq<u8>, Seq<u8>)>,
    error: bool,
) -> Seq<(Seq<u8>, Seq<u8>)> {
    let g = global_fields(global, error);
    match local {
        Some(h) => {
            let h1 = if has_body {
                drop_entry(drop_entry(h, bytes_of("Date"@)), bytes_of("Content-Length"@))
            } else {
                drop_entry(h, bytes_of("Date"@))
            };
            h1 + missing_from(h1, g)
        },
        None => server_field(g),
    }
}

/// The bytes of a response, or `None` for a status code without reason phrase.
///
/// The header fields are `written_fields`: with local fields, the global ones (for errors
/// `Connection: close` among them) are added unless a local field of the same name
/// replaces them; without local fields only the `Server` header is written. With local fields, a body is trimmed, compressed as
/// `Content-Encoding` says, and measured; without them, the body is only trimmed at its
/// start while its length is that of the body as given.
pub open spec fn spec_response(
    status: u16,
    date: Seq<u8>,
    local: Option<Seq<(Seq<u8>, Seq<u8>)>>,
    content: Option<Seq<u8>>,
    global: Seq<(Seq<u8>, Seq<u8>)>,
    error: bool,
) -> Option<Seq<u8>> {
    match reason(status) {
        None => None,
        Some(phrase) => {
            let head = status_line(status, phrase) + date_line(date);
            let m = written_fields(local, content is Some, global, error);
            Some(
                match (local, content) {
                    (Some(_), Some(c)) => {
                        let coding = if as_map(m).contains_key(bytes_of("Content-Encoding"@)) {
                            Some(as_map(m)[bytes_of("Content-Encoding"@)])
                        } else {
                            None
                        };
                        let body = encoded_body(coding, trim(c));
                        head + header_block(m) + length_line(body.len()) + body
                    },
                    (None, Some(c)) => head + header_block(m) + length_line(c.len()) + trim_start(c),
                    (_, None) => head + header_block(m) + crlf(),
                },
            )
        },
    }
}

fn push_crlf(out: &mut Vec<u8>)
    ensures
        final(out)@ == old(out)@ + crlf(),
{
    out.push(13);
    out.push(10);
    assert(out@ =~= old(out)@ + crlf());
}

/// Appends the header lines of `h` to `out`.
fn push_header_block(out: &mut Vec<u8>, h: &Fields)
    ensures
        final(out)@ == old(out)@ + header_block(h@),
{
    let mut i: usize = 0;
    while i < h.len()
        invariant
            i <= h@.len(),
            out@ == old(out)@ + header_block(h@.subrange(0, i as int)),
        decreases h@.len() - i,
    {
        let ghost before = out@;
        push_all(out, h.key_at(i).as_slice());
        push_all(out, ": ".as_bytes());
        push_all(out, h.value_at(i).as_slice());
        push_crlf(out);
        let ghost sub = h@.subrange(0, i + 1);
        assert(sub.drop_last() == h@.subrange(0, i as int));
        assert(sub.last() == h@[i as int]);
        assert(out@ == before + header_line(h@[i as int]));
        i += 1;
    }
    assert(h@.subrange(0, i as int) == h@);
}

/// Appends `Content-Length: <n>\r\n\r\n` to `out`.
fn push_length(out: &mut Vec<u8>, n: usize)
    ensures
        final(out)@ == old(out)@ + length_line(n as nat),
{
    push_all(out, "Content-Length: ".as_bytes());
    let digits = decimal_bytes(n as u64);
    push_all(out, digits.as_slice());
    push_crlf(out);
    push_crlf(out);
}

/// The global header fields for a response; see `global_fields`.
pub fn response_globals(global: &Fields, error: bool) -> (r: Fields)
    ensures
        r@ == global_fields(global@, error),
{
    let mut f = global.duplicate();
    if error {
        let k = copy_range("Connection".as_bytes(), 0, "Connection".as_bytes().len());
        let v = copy_range("close".as_bytes(), 0, "close".as_bytes().len());
        assert(k@ == bytes_of("Connection"@));
        assert(v@ == bytes_of("close"@));
        f.insert(k, v);
    }
    f
}

/// The header fields configured for every response, and `Server: Drain <version>` when
/// the `Server` header is enabled.
pub open spec fn server_fields(
    configured: Option<Map<Seq<u8>, Seq<u8>>>,
    enable_server_header: bool,
    version: Seq<u8>,
) -> Map<Seq<u8>, Seq<u8>> {
    let base = match configured {
        Some(m) => m,
        None => Map::empty(),
    };
    if enable_server_header {
        base.insert(bytes_of("Server"@), bytes_of("Drain "@) + version)
    } else {
        base
    }
}

/// The global header fields of responses; see `server_fields`.
pub fn server_globals(configured: &Option<Fields>, enable_server_header: bool, version: &[u8]) -> (r: Fields)
    ensures
        r.map() == server_fields(
            match configured {
                Some(f) => Some(f.map()),
                None => None,
            },
            enable_server_header,
            version@,
        ),
{
    let mut f = match configured {
        Some(c) => c.duplicate(),
        None => {
            let e = Fields::new();
            assert(e.map() =~= Map::<Seq<u8>, Seq<u8>>::empty());
            e
        },
    };
    if enable_server_header {
        let k = copy_range("Server".as_bytes(), 0, "Server".as_bytes().len());
        let mut v = copy_range("Drain ".as_bytes(), 0, "Drain ".as_bytes().len());
        assert(k@ == bytes_of("Server"@));
        assert(v@ == bytes_of("Drain "@));
        push_all(&mut v, version);
        f.insert(k, v);
    }
    f
}

/// Applies the coding that `Content-Encoding` names to `body`; see `encoded_body`.
pub fn encode_body(coding: Option<&Vec<u8>>, body: Vec<u8>) -> (r: Vec<u8>)
    ensures
        r@ == encoded_body(
            match coding {
                Some(c) => Some(c@),
                None => None,
            },
            body@,
        ),
{
    match coding {
        Some(c) => {
            if crate::text::bytes_eq(c.as_slice(), "gzip".as_bytes()) {
                match gzip_encode(body.as_slice()) {
                    Some(v) => v,
                    None => body,
                }
            } else if crate::text::bytes_eq(c.as_slice(), "br".as_bytes()) {
                match brotli_encode(body.as_slice()) {
                    Some(v) => v,
                    None => body,
                }
            } else {
                body
            }
        },
        None => body,
    }
}

/// The `Server` field of `globals` alone; see `server_field`.
fn server_only(globals: &Fields) -> (r: Fields)
    ensures
        r@ == server_field(globals@),
{
    let mut f = Fields::new();
    let k = copy_range("Server".as_bytes(), 0, "Server".as_bytes().len());
    assert(k@ == bytes_of("Server"@));
    match globals.get(k.as_slice()) {
        Some(v) => {
            let value = copy_range(v.as_slice(), 0, v.len());
            assert(value@ =~= v@);
            let ghost before = f@;
            f.insert(k, value);
            assert(crate::fields::key_index(before, bytes_of("Server"@), 0) == 0);
            assert(f@ =~= server_field(globals@));
        },
        None => {
            assert(f@ =~= server_field(globals@));
        },
    }
    f
}

/// The bytes of the response with the given status, date, header fields and body;
/// `InvalidStatusCode` for a status code without reason phrase. See `spec_response`.
pub fn build_response(
    status: u16,
    date: &[u8],
    local_response_headers: Option<Fields>,
    content: Option<Vec<u8>>,
    global_response_headers: &Fields,
    error: bool,
) -> (r: Result<Vec<u8>, ServerError>)
    ensures
        match r {
            Ok(b) => spec_response(
                status,
                date@,
                match local_response_headers {
                    Some(h) => Some(h@),
                    None => None,
                },
                match content {
                    Some(c) => Some(c@),
                    None => None,
                },
                global_response_headers@,
                error,
            ) == Some(b@),
            Err(e) => e == ServerError::InvalidStatusCode(status) && reason(status) is None,
        },
{
    let phrase = match reason_phrase(status) {
        Some(t) => t,
        None => {
            return Err(ServerError::InvalidStatusCode(status));
        },
    };
    let mut out: Vec<u8> = Vec::new();
    push_all(&mut out, "HTTP/1.1 ".as_bytes());
    let digits = decimal_bytes(status as u64);
    push_all(&mut out, digits.as_slice());
    push_all(&mut out, " ".as_bytes());
    push_all(&mut out, phrase.as_bytes());
    push_crlf(&mut out);
    push_all(&mut out, "Date: ".as_bytes());
    push_all(&mut out, date);
    push_crlf(&mut out);
    let ghost head = out@;
    assert(head == status_line(status, phrase@) + date_line(date@));
    let globals = response_globals(global_response_headers, error);
    match (local_response_headers, content) {
        (Some(h), Some(c)) => {
            let mut h = h;
            h.remove("Date".as_bytes());
            h.remove("Content-Length".as_bytes());
            h.extend_missing(&globals);
            push_header_block(&mut out, &h);
            let trimmed = trim_bytes(c.as_slice());
            let body = encode_body(h.get("Content-Encoding".as_bytes()), trimmed);
            push_length(&mut out, body.len());
            push_all(&mut out, body.as_slice());
        },
        (None, Some(c)) => {
            let server = server_only(&globals);
            push_header_block(&mut out, &server);
            push_length(&mut out, c.len());
            let a = skip_ws_from(c.as_slice(), 0);
            let rest = copy_range(c.as_slice(), a, c.len());
            push_all(&mut out, rest.as_slice());
        },
        (Some(h), None) => {
            let mut h = h;
            h.remove("Date".as_bytes());
            h.extend_missing(&globals);
            push_header_block(&mut out, &h);
            push_crlf(&mut out);
        },
        (None, None) => {
            let server = server_only(&globals);
            push_header_block(&mut out, &server);
            push_crlf(&mut out);
        },
    }
    Ok(out)
}

} // verus!
