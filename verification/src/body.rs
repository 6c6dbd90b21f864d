//! The body of a request: its declared length, its content coding, and the form data
//! it carries.
use vstd::prelude::*;
use crate::codec::{brotli_decode, brotli_decoding, gzip_decode, gzip_decoding, lossy_text, lossy_utf8, utf8_lossy};
use crate::error::ServerError;
use crate::fields::{distinct_keys, Fields};
use crate::request::{
    asks_close, pairs_complete, parse_panics, parse_query, pieces_complete, query_pairs, spec_parse,
    Method, Request, RequestView,
};
use crate::cgi::CGIData;
use crate::response::bytes_of;
use crate::text::{bytes_eq, parse_unsigned, parse_usize};

verus! {

/// `content-length`
pub open spec fn content_length_key() -> Seq<u8> {
    bytes_of("content-length"@)
}

/// `content-encoding`
pub open spec fn content_encoding_key() -> Seq<u8> {
    bytes_of("content-encoding"@)
}

/// The declared length of a body: `content-length` read as a number (a missing header
/// counts as 0). A length that is not a number, or 0, is refused as `InvalidRequest`;
/// one above `max` as `BodyTooLarge`.
pub open spec fn spec_body_length(headers: Map<Seq<u8>, Seq<u8>>, max: usize) -> Result<usize, ServerError> {
    let text = if headers.contains_key(content_length_key()) {
        headers[content_length_key()]
    } else {
        bytes_of("0"@)
    };
    match parse_unsigned(text, usize::MAX as nat) {
        None => Err(ServerError::InvalidRequest),
        Some(n) => if n == 0 {
            Err(ServerError::InvalidRequest)
        } else if n > max {
            Err(ServerError::BodyTooLarge)
        } else {
            Ok(n as usize)
        },
    }
}

/// The length of the body that a request's headers announce; see `spec_body_length`.
pub fn body_length(headers: &Fields, max_content_length: usize) -> (r: Result<usize, ServerError>)
    ensures
        r == spec_body_length(headers.map(), max_content_length),
{
    let zero = "0".as_bytes();
    let text = match headers.get("content-length".as_bytes()) {
        Some(t) => t.as_slice(),
        None => zero,
    };
    match parse_usize(text) {
        None => Err(ServerError::InvalidRequest),
        Some(n) => if n == 0 {
            Err(ServerError::InvalidRequest)
        } else if n > max_content_length {
            Err(ServerError::BodyTooLarge)
        } else {
            Ok(n)
        },
    }
}

/// The server decodes `coding`: it is one of `supported`.
pub open spec fn supports(supported: Seq<String>, coding: Seq<u8>) -> bool {
    exists|i: int| 0 <= i < supported.len() && bytes_of(#[trigger] supported[i]@) == coding
}

/// Whether `coding` is one of `supported`.
pub fn supported_coding(supported: &Vec<String>, coding: &[u8]) -> (r: bool)
    ensures
        r == supports(supported@, coding@),
{
    let mut i: usize = 0;
    while i < supported.len()
        invariant
            i <= supported@.len(),
            forall|k: int| 0 <= k < i ==> bytes_of(#[trigger] supported@[k]@) != coding@,
        decreases supported.len() - i,
    {
        if bytes_eq(supported[i].as_str().as_bytes(), coding) {
            return true;
        }
        i += 1;
    }
    false
}

/// What decoding a body gives, apart from which I/O error a failed decompression reports.
/// A coding the server does not support, or any coding when it supports none, is refused
/// with `UnsupportedEncoding`; a supported coding other than `gzip` or `br` too. The
/// decoded (or, without `content-encoding`, the raw) bytes are read as UTF-8 text,
/// invalid sequences replaced.
pub open spec fn spec_decode_body(
    headers: Map<Seq<u8>, Seq<u8>>,
    raw: Seq<u8>,
    supported: Option<Seq<String>>,
) -> Option<Result<Seq<u8>, ServerError>> {
    if !headers.contains_key(content_encoding_key()) {
        Some(Ok(utf8_lossy(raw)))
    } else {
        let ce = headers[content_encoding_key()];
        match supported {
            None => Some(Err(ServerError::UnsupportedEncoding)),
            Some(sup) => if !supports(sup, ce) {
                Some(Err(ServerError::UnsupportedEncoding))
            } else if ce == bytes_of("gzip"@) {
                match gzip_decoding(raw) {
                    Some(d) => Some(Ok(utf8_lossy(d))),
                    None => None,
                }
            } else if ce == bytes_of("br"@) {
                match brotli_decoding(raw) {
                    Some(d) => Some(Ok(utf8_lossy(d))),
                    None => None,
                }
            } else {
                Some(Err(ServerError::UnsupportedEncoding))
            },
        }
    }
}

/// Decodes a request body as its `content-encoding` says; see `spec_decode_body`. Where
/// that is `None`, the decompressor refused the bytes and the result is a
/// `DecompressionError`.
pub fn decode_body(headers: &Fields, raw: &[u8], supported: Option<&Vec<String>>) -> (r: Result<
    Vec<u8>,
    ServerError,
>)
    ensures
        match spec_decode_body(
            headers.map(),
            raw@,
            match supported {
                Some(v) => Some(v@),
                None => None,
            },
        ) {
            Some(Ok(d)) => r matches Ok(v) && v@ == d,
            Some(Err(e)) => r == Err::<Vec<u8>, ServerError>(e),
            None => r matches Err(ServerError::DecompressionError(_)),
        },
        !headers.map().contains_key(content_encoding_key()) && vstd::utf8::valid_utf8(raw@) ==> (r matches Ok(
            v,
        ) && v@ == raw@),
{
    match headers.get("content-encoding".as_bytes()) {
        None => Ok(lossy_utf8(raw)),
        Some(ce) => match supported {
            None => Err(ServerError::UnsupportedEncoding),
            Some(sup) => {
                if !supported_coding(sup, ce.as_slice()) {
                    return Err(ServerError::UnsupportedEncoding);
                }
                if bytes_eq(ce.as_slice(), "gzip".as_bytes()) {
                    match gzip_decode(raw) {
                        Ok(d) => Ok(lossy_utf8(d.as_slice())),
                        Err(e) => Err(ServerError::DecompressionError(e)),
                    }
                } else if bytes_eq(ce.as_slice(), "br".as_bytes()) {
                    match brotli_decode(raw) {
                        Ok(d) => Ok(lossy_utf8(d.as_slice())),
                        Err(e) => Err(ServerError::DecompressionError(e)),
                    }
                } else {
                    Err(ServerError::UnsupportedEncoding)
                }
            },
        },
    }
}

/// The form data of a decoded body: `name=value` pairs joined by `&`; a name given twice
/// is refused with `UnsupportedEncoding`.
pub open spec fn spec_form_data(data: Seq<u8>) -> Result<Map<Seq<u8>, Seq<u8>>, ServerError> {
    if distinct_keys(query_pairs(data)) {
        Ok(crate::fields::as_map(query_pairs(data)))
    } else {
        Err(ServerError::UnsupportedEncoding)
    }
}

/// Reads the form data of a decoded body. Every piece must hold a `=` (test it with
/// `crate::request::pieces_complete`).
pub fn parse_form_data(data: &[u8]) -> (r: Result<Fields, ServerError>)
    requires
        pairs_complete(data@),
    ensures
        match r {
            Ok(f) => spec_form_data(data@) == Ok::<Map<Seq<u8>, Seq<u8>>, ServerError>(f.map()),
            Err(e) => spec_form_data(data@) == Err::<Map<Seq<u8>, Seq<u8>>, ServerError>(e),
        },
{
    match parse_query(data) {
        Some(f) => Ok(f),
        None => Err(ServerError::UnsupportedEncoding),
    }
}

// ---------------------------------------------------------------------------
// A whole request
/// `POST`, `PUT` and `PATCH` carry a body.
pub open spec fn method_takes_body(m: Method) -> bool {
    m == Method::Post || m == Method::Put || m == Method::Patch
}

/// What the head of a request decides: the request and, for a method with a body, the
/// number of bytes to read as its body; or the error that answers it.
pub open spec fn spec_read_head(head: Seq<u8>, max: usize) -> Result<(RequestView, Option<usize>), ServerError> {
    match spec_parse(head) {
        Err(e) => Err(e),
        Ok(v) => if method_takes_body(v.method) {
            match spec_body_length(v.headers, max) {
                Ok(n) => Ok((v, Some(n))),
                Err(e) => Err(e),
            }
        } else {
            Ok((v, None))
        },
    }
}

/// Reads the head of a request; see `spec_read_head`. `connection: close` clears
/// `keep_alive`.
pub fn read_head(head: &[u8], keep_alive: &mut bool, max_content_length: usize) -> (r: Result<
    (Request, Option<usize>),
    ServerError,
>)
    requires
        !parse_panics(head@),
    ensures
        match r {
            Ok((q, n)) => spec_read_head(head@, max_content_length) == Ok::<
                (RequestView, Option<usize>),
                ServerError,
            >((q@, n)),
            Err(e) => spec_read_head(head@, max_content_length) == Err::<
                (RequestView, Option<usize>),
                ServerError,
            >(e),
        },
        *final(keep_alive) == if asks_close(head@) {
            false
        } else {
            *old(keep_alive)
        },
{
    let request = Request::parse_from_string(head, keep_alive)?;
    if request.takes_body() {
        let n = match request.headers() {
            Some(h) => body_length(h, max_content_length)?,
            None => {
                return Err(ServerError::InvalidRequest);
            },
        };
        Ok((request, Some(n)))
    } else {
        Ok((request, None))
    }
}

/// What reading a body gives.
pub enum BodyRead {
    /// The request with its form data, and the decoded body with its media type.
    Form(Request, CGIData),
    /// The body is refused with this error.
    Refused(ServerError),
    /// A piece of the decoded body has no `=`: reading it as form data stops.
    Unreadable,
}

/// The media type of a body: its `content-type`, read as text, or empty.
pub open spec fn body_media_type(h: Map<Seq<u8>, Seq<u8>>) -> Seq<u8> {
    if h.contains_key(bytes_of("content-type"@)) {
        utf8_lossy(h[bytes_of("content-type"@)])
    } else {
        Seq::empty()
    }
}

/// What reading a body gives, given what decoding it gave (`dec`; see
/// `spec_decode_body`): a decompression failure or a refused coding is refused; a body
/// whose pieces are not all `name=value` is unreadable; a name given twice is refused;
/// else the request gets the form data, and the decoded body is kept with the media type.
pub open spec fn body_read_as(r: BodyRead, request: RequestView, dec: Option<Result<Seq<u8>, ServerError>>) -> bool {
    match dec {
        None => r matches BodyRead::Refused(ServerError::DecompressionError(_)),
        Some(Err(e)) => r == BodyRead::Refused(e),
        Some(Ok(d)) => if !pairs_complete(d) {
            r is Unreadable
        } else {
            match spec_form_data(d) {
                Err(e) => r == BodyRead::Refused(e),
                Ok(m) => match r {
                    BodyRead::Form(q, body) => q@ == (RequestView { data: Some(m), ..request })
                        && body.data@ == d && bytes_of(body.content_type@) == body_media_type(
                        request.headers,
                    ),
                    _ => false,
                },
            }
        },
    }
}

/// Reads the body of a request that has one: decodes it as its `content-encoding` says
/// (see `decode_body`), then reads it as form data (see `parse_form_data`) and attaches
/// that to the request; the decoded body and its media type are kept for CGI. See
/// `body_read_as`.
pub fn read_body(request: Request, raw: &[u8], supported: Option<&Vec<String>>) -> (r: BodyRead)
    requires
        method_takes_body(request@.method),
    ensures
        body_read_as(
            r,
            request@,
            spec_decode_body(
                request@.headers,
                raw@,
                match supported {
                    Some(v) => Some(v@),
                    None => None,
                },
            ),
        ),
{
    let decoded = match request.headers() {
        Some(h) => match decode_body(h, raw, supported) {
            Ok(d) => d,
            Err(e) => {
                return BodyRead::Refused(e);
            },
        },
        None => {
            return BodyRead::Refused(ServerError::InvalidRequest);
        },
    };
    if !pieces_complete(decoded.as_slice()) {
        return BodyRead::Unreadable;
    }
    let form = match parse_form_data(decoded.as_slice()) {
        Ok(f) => f,
        Err(e) => {
            return BodyRead::Refused(e);
        },
    };
    let content_type = match request.headers() {
        Some(h) => match h.get("content-type".as_bytes()) {
            Some(t) => lossy_text(t.as_slice()),
            None => String::new(),
        },
        None => String::new(),
    };
    let mut request = request;
    request.set_data(form);
    BodyRead::Form(request, CGIData { data: decoded, content_type })
}

} // verus!
