//! The decisions of the request handlers: which response a dynamic page or a static
//! file makes, which methods the server offers, where a directory request goes, and
//! how a failed request is answered.
use vstd::prelude::*;
use vstd::string::StringSliceAdditionalSpecFns;
use crate::config::{should_encode, Config};
use crate::error::{spec_error_status, ServerError};
use crate::fields::{as_map, Fields};
use crate::cgi::CGIStatus;
use crate::mime::{declared_type, parsed_type};
use crate::pages::{html_type, internal_server_error, spec_internal_error_page};
use crate::response::bytes_of;
use crate::text::{bytes_eq, copy_range, decimal, decimal_bytes, push_all, split, split_bytes, trim_quotes, trim_quotes_bytes, views};

verus! {

/// A response to send: status, header fields (or none), and body (or none).
pub struct ResponsePlan {
    pub status: u16,
    pub headers: Option<Fields>,
    pub content: Option<Vec<u8>>,
}

/// The header fields of a plan as a map.
pub open spec fn plan_headers(p: ResponsePlan) -> Option<Map<Seq<u8>, Seq<u8>>> {
    match p.headers {
        Some(h) => Some(h.map()),
        None => None,
    }
}

/// The body of a plan as bytes.
pub open spec fn plan_content(p: ResponsePlan) -> Option<Seq<u8>> {
    match p.content {
        Some(c) => Some(c@),
        None => None,
    }
}

fn text_bytes(s: &str) -> (r: Vec<u8>)
    ensures
        r@ == bytes_of(s@),
{
    let b = s.as_bytes();
    copy_range(b, 0, b.len())
}

/// The header fields once a body is known to be compressed with `coding`:
/// `Content-Encoding` names it and `Vary` names `Accept-Encoding`.
pub open spec fn with_coding(h: Map<Seq<u8>, Seq<u8>>, coding: Seq<u8>) -> Map<Seq<u8>, Seq<u8>> {
    h.insert(bytes_of("Content-Encoding"@), coding).insert(
        bytes_of("Vary"@),
        bytes_of("Accept-Encoding"@),
    )
}

/// `content-type`
pub open spec fn content_type_key() -> Seq<u8> {
    bytes_of("content-type"@)
}

/// What a dynamic page's answer becomes. With a body and a declared media type that
/// parses, the body is sent, compressed where `should_encode` says; a media type that does
/// not parse is dropped and so is the body; without a body or a declared type, no body is
/// sent. Where `follow_location` holds, a `location` header turns the status into 302.
pub open spec fn spec_dynamic_plan(
    config_encoding: Option<crate::config::Encoding>,
    request_headers: Map<Seq<u8>, Seq<u8>>,
    status: u16,
    headers: Map<Seq<u8>, Seq<u8>>,
    content: Option<Seq<u8>>,
    follow_location: bool,
) -> (u16, Map<Seq<u8>, Seq<u8>>, Option<Seq<u8>>) {
    let located = |h: Map<Seq<u8>, Seq<u8>>|
        if follow_location && h.contains_key(bytes_of("location"@)) {
            302u16
        } else {
            status
        };
    match content {
        Some(c) if headers.contains_key(content_type_key()) => match parsed_type(
            headers[content_type_key()],
        ) {
            None => (status, headers.remove(content_type_key()), None),
            Some((mime, general)) => {
                let h = if should_encode(config_encoding, c, mime, general, request_headers) {
                    with_coding(headers, bytes_of(config_encoding->Some_0.use_encoding@))
                } else {
                    headers
                };
                (located(h), h, Some(c))
            },
        },
        _ => (located(headers), headers, None),
    }
}

fn add_coding(h: &mut Fields, coding: &String)
    ensures
        final(h).map() == with_coding(old(h).map(), bytes_of(coding@)),
{
    h.insert(text_bytes("Content-Encoding"), text_bytes(coding.as_str()));
    h.insert(text_bytes("Vary"), text_bytes("Accept-Encoding"));
}

/// The response a dynamic page's answer makes; see `spec_dynamic_plan`.
pub fn plan_dynamic(
    config: &Config,
    request_headers: &Fields,
    status: u16,
    response_headers: Fields,
    content: Option<Vec<u8>>,
    follow_location: bool,
) -> (r: ResponsePlan)
    ensures
        (r.status, plan_headers(r), plan_content(r)) == ({
            let (s, h, c) = spec_dynamic_plan(
                config.encoding,
                request_headers.map(),
                status,
                response_headers.map(),
                match content {
                    Some(c) => Some(c@),
                    None => None,
                },
                follow_location,
            );
            (s, Some(h), c)
        }),
{
    let mut h = response_headers;
    match content {
        Some(c) => {
            let declared = match h.get("content-type".as_bytes()) {
                Some(t) => Some(declared_type(t.as_slice())),
                None => None,
            };
            match declared {
                Some(None) => {
                    h.remove("content-type".as_bytes());
                    ResponsePlan { status, headers: Some(h), content: None }
                },
                Some(Some((mime, general))) => {
                    match config.get_response_encoding(&c, &mime, &general, request_headers) {
                        Some(coding) => add_coding(&mut h, coding),
                        None => {},
                    }
                    let st = if follow_location && h.contains_key("location".as_bytes()) {
                        302
                    } else {
                        status
                    };
                    ResponsePlan { status: st, headers: Some(h), content: Some(c) }
                },
                None => {
                    let st = if follow_location && h.contains_key("location".as_bytes()) {
                        302
                    } else {
                        status
                    };
                    ResponsePlan { status: st, headers: Some(h), content: None }
                },
            }
        },
        None => {
            let st = if follow_location && h.contains_key("location".as_bytes()) {
                302
            } else {
                status
            };
            ResponsePlan { status: st, headers: Some(h), content: None }
        },
    }
}

// ---------------------------------------------------------------------------
// Static files
/// The entity tags that `if-none-match` lists, each without white space and quotes.
pub open spec fn listed_etags(value: Seq<u8>) -> Seq<Seq<u8>> {
    split(value, 44).map_values(|e: Seq<u8>| trim_quotes(e))
}

/// The first listed tag (in order) that the server knows, if any.
pub open spec fn first_known(listed: Seq<Seq<u8>>, known: Seq<Seq<u8>>, from: int) -> Option<Seq<u8>>
    decreases listed.len() - from,
{
    if from < 0 || from >= listed.len() {
        None
    } else if known.contains(listed[from]) {
        Some(listed[from])
    } else {
        first_known(listed, known, from + 1)
    }
}

/// `max-age=<n>`
pub open spec fn max_age(cache_max_age: u64) -> Seq<u8> {
    bytes_of("max-age="@) + decimal(cache_max_age as nat)
}

/// What a static file becomes: its media type goes in `Content-Type`, compressed where
/// `should_encode` says, and every answer carries `Cache-Control: max-age=<n>`; an empty
/// file is sent without body; when `if-none-match` lists a tag the server knows, 304 with
/// that `ETag`; else 200 with the file.
pub open spec fn spec_static_plan(
    config_encoding: Option<crate::config::Encoding>,
    cache_max_age: u64,
    request_headers: Map<Seq<u8>, Seq<u8>>,
    content: Seq<u8>,
    guess: Seq<char>,
    general: Seq<char>,
    known: Seq<Seq<u8>>,
) -> (u16, Map<Seq<u8>, Seq<u8>>, Option<Seq<u8>>) {
    let h0 = if should_encode(config_encoding, content, guess, general, request_headers) {
        with_coding(Map::empty(), bytes_of(config_encoding->Some_0.use_encoding@))
    } else {
        Map::empty()
    };
    let h = h0.insert(bytes_of("Content-Type"@), bytes_of(guess)).insert(
        bytes_of("Cache-Control"@),
        max_age(cache_max_age),
    );
    if content.len() == 0 {
        (200, h, None)
    } else {
        let inm = bytes_of("if-none-match"@);
        let hit = if request_headers.contains_key(inm) {
            first_known(listed_etags(request_headers[inm]), known, 0)
        } else {
            None
        };
        match hit {
            Some(tag) => (304, h.insert(bytes_of("ETag"@), tag), None),
            None => (200, h, Some(content)),
        }
    }
}

fn known_tag(known: &Vec<Vec<u8>>, tag: &[u8]) -> (r: bool)
    ensures
        r == views(known@).contains(tag@),
{
    let mut i: usize = 0;
    while i < known.len()
        invariant
            i <= known@.len(),
            forall|k: int| 0 <= k < i ==> known@[k]@ != tag@,
        decreases known.len() - i,
    {
        if bytes_eq(known[i].as_slice(), tag) {
            assert(views(known@)[i as int] == tag@);
            return true;
        }
        i += 1;
    }
    assert(!views(known@).contains(tag@)) by {
        if views(known@).contains(tag@) {
            let k = choose|k: int| 0 <= k < views(known@).len() && views(known@)[k] == tag@;
            assert(known@[k]@ == tag@);
        }
    }
    false
}

/// The first tag `value` lists that is in `known`; see `first_known`.
pub fn matching_etag(value: &[u8], known: &Vec<Vec<u8>>) -> (r: Option<Vec<u8>>)
    ensures
        match r {
            Some(t) => first_known(listed_etags(value@), views(known@), 0) == Some(t@),
            None => first_known(listed_etags(value@), views(known@), 0) is None,
        },
{
    let pieces = split_bytes(value, 44);
    let ghost listed = listed_etags(value@);
    let mut i: usize = 0;
    while i < pieces.len()
        invariant
            views(pieces@) == split(value@, 44),
            listed == listed_etags(value@),
            i <= pieces@.len(),
            first_known(listed, views(known@), i as int) == first_known(listed, views(known@), 0),
        decreases pieces.len() - i,
    {
        assert(views(pieces@)[i as int] == pieces@[i as int]@);
        let tag = trim_quotes_bytes(pieces[i].as_slice());
        assert(listed[i as int] == tag@);
        if known_tag(known, tag.as_slice()) {
            return Some(tag);
        }
        i += 1;
    }
    None
}

/// The response a static file makes; see `spec_static_plan`.
pub fn plan_static(
    config: &Config,
    request_headers: &Fields,
    content: Vec<u8>,
    guess: &String,
    general: &String,
    known_etags: &Vec<Vec<u8>>,
) -> (r: ResponsePlan)
    ensures
        (r.status, plan_headers(r), plan_content(r)) == ({
            let (s, h, c) = spec_static_plan(
                config.encoding,
                config.cache_max_age,
                request_headers.map(),
                content@,
                guess@,
                general@,
                views(known_etags@),
            );
            (s, Some(h), c)
        }),
{
    let mut h = Fields::new();
    assert(h.map() =~= Map::<Seq<u8>, Seq<u8>>::empty());
    match config.get_response_encoding(&content, guess, general, request_headers) {
        Some(coding) => add_coding(&mut h, coding),
        None => {},
    }
    h.insert(text_bytes("Content-Type"), text_bytes(guess.as_str()));
    h.insert(text_bytes("Cache-Control"), max_age_bytes(config.cache_max_age));
    if content.len() == 0 {
        return ResponsePlan { status: 200, headers: Some(h), content: None };
    }
    let hit = match request_headers.get("if-none-match".as_bytes()) {
        Some(v) => matching_etag(v.as_slice(), known_etags),
        None => None,
    };
    match hit {
        Some(tag) => {
            h.insert(text_bytes("ETag"), tag);
            ResponsePlan { status: 304, headers: Some(h), content: None }
        },
        None => ResponsePlan { status: 200, headers: Some(h), content: Some(content) },
    }
}

fn max_age_bytes(cache_max_age: u64) -> (r: Vec<u8>)
    ensures
        r@ == max_age(cache_max_age),
{
    let mut age = text_bytes("max-age=");
    let digits = decimal_bytes(cache_max_age);
    push_all(&mut age, digits.as_slice());
    age
}

/// The header fields of a `HEAD` for a static file of `len` bytes:
/// `Cache-Control: max-age=<n>`, and `Content-Length` when the file is not empty.
pub open spec fn head_static_fields(len: nat, cache_max_age: u64) -> Map<Seq<u8>, Seq<u8>> {
    let h = Map::<Seq<u8>, Seq<u8>>::empty().insert(bytes_of("Cache-Control"@), max_age(cache_max_age));
    if len == 0 {
        h
    } else {
        h.insert(bytes_of("Content-Length"@), decimal(len))
    }
}

/// A `HEAD` for a static file of `len` bytes: 200 without body; see `head_static_fields`.
pub fn plan_head_static(len: usize, cache_max_age: u64) -> (r: ResponsePlan)
    ensures
        r.status == 200,
        r.content is None,
        plan_headers(r) == Some(head_static_fields(len as nat, cache_max_age)),
{
    let mut h = Fields::new();
    assert(h.map() =~= Map::<Seq<u8>, Seq<u8>>::empty());
    h.insert(text_bytes("Cache-Control"), max_age_bytes(cache_max_age));
    if len > 0 {
        h.insert(text_bytes("Content-Length"), decimal_bytes(len as u64));
    }
    ResponsePlan { status: 200, headers: Some(h), content: None }
}

/// A `HEAD` answered by a dynamic page: its header fields, with `Content-Length` set to
/// the length of the body it returned, if any; 302 when it set `location`, else its status;
/// never a body.
pub fn plan_head_dynamic(status: u16, response_headers: Fields, content_len: Option<usize>) -> (r: ResponsePlan)
    ensures
        r.content is None,
        plan_headers(r) == Some(
            match content_len {
                Some(n) => response_headers.map().insert(
                    bytes_of("Content-Length"@),
                    decimal(n as nat),
                ),
                None => response_headers.map(),
            },
        ),
        r.status == if response_headers.map().contains_key(bytes_of("location"@)) {
            302
        } else {
            status
        },
{
    let mut h = response_headers;
    let located = h.contains_key("location".as_bytes());
    match content_len {
        Some(n) => {
            h.insert(text_bytes("Content-Length"), decimal_bytes(n as u64));
        },
        None => {},
    }
    let st = if located {
        302
    } else {
        status
    };
    ResponsePlan { status: st, headers: Some(h), content: None }
}

// ---------------------------------------------------------------------------
// Methods, directories, endpoints, errors
/// The `Accept` value of an `OPTIONS` answer.
pub open spec fn spec_options_accept(library: bool, trace: bool) -> Seq<u8> {
    bytes_of("GET, HEAD, POST, "@) + (if library {
        bytes_of("PUT, DELETE, PATCH"@)
    } else {
        Seq::empty()
    }) + bytes_of(" OPTIONS"@) + (if trace {
        bytes_of(", TRACE"@)
    } else {
        Seq::empty()
    })
}

/// The `Accept` value of the 405 answer to a method the server does not serve.
pub open spec fn spec_refused_accept(library: bool, trace: bool) -> Seq<u8> {
    bytes_of("GET, HEAD, POST,"@) + (if library {
        bytes_of(" PUT, DELETE, PATCH,"@)
    } else {
        Seq::empty()
    }) + bytes_of(" OPTIONS"@) + (if trace {
        bytes_of(", TRACE"@)
    } else {
        Seq::empty()
    })
}

/// The `Accept` value of the 405 answer to `PUT`, `DELETE` or `PATCH` without an endpoint
/// library.
pub open spec fn spec_no_library_accept(trace: bool) -> Seq<u8> {
    bytes_of("GET, HEAD, POST, OPTIONS"@) + if trace {
        bytes_of(", TRACE"@)
    } else {
        Seq::empty()
    }
}

fn push_trace(out: &mut Vec<u8>, trace: bool)
    ensures
        final(out)@ == old(out)@ + if trace {
            bytes_of(", TRACE"@)
        } else {
            Seq::empty()
        },
{
    if trace {
        push_all(out, ", TRACE".as_bytes());
    } else {
        assert(out@ =~= old(out)@ + Seq::<u8>::empty());
    }
}

/// The `Accept` value of an `OPTIONS` answer; see `spec_options_accept`.
pub fn options_accept(library: bool, trace: bool) -> (r: Vec<u8>)
    ensures
        r@ == spec_options_accept(library, trace),
{
    let mut out = text_bytes("GET, HEAD, POST, ");
    let ghost a = out@;
    if library {
        push_all(&mut out, "PUT, DELETE, PATCH".as_bytes());
    }
    assert(out@ == a + (if library {
        bytes_of("PUT, DELETE, PATCH"@)
    } else {
        Seq::empty()
    }));
    push_all(&mut out, " OPTIONS".as_bytes());
    push_trace(&mut out, trace);
    out
}

/// The `Accept` value of a 405 answer; see `spec_refused_accept`.
pub fn refused_accept(library: bool, trace: bool) -> (r: Vec<u8>)
    ensures
        r@ == spec_refused_accept(library, trace),
{
    let mut out = text_bytes("GET, HEAD, POST,");
    let ghost a = out@;
    if library {
        push_all(&mut out, " PUT, DELETE, PATCH,".as_bytes());
    }
    assert(out@ == a + (if library {
        bytes_of(" PUT, DELETE, PATCH,"@)
    } else {
        Seq::empty()
    }));
    push_all(&mut out, " OPTIONS".as_bytes());
    push_trace(&mut out, trace);
    out
}

/// The `Accept` value when no endpoint library is loaded; see `spec_no_library_accept`.
pub fn no_library_accept(trace: bool) -> (r: Vec<u8>)
    ensures
        r@ == spec_no_library_accept(trace),
{
    let mut out = text_bytes("GET, HEAD, POST, OPTIONS");
    push_trace(&mut out, trace);
    out
}

/// The answer to `OPTIONS`: 204 with `Accept`.
pub fn handle_options(library: bool, trace: bool) -> (r: ResponsePlan)
    ensures
        r.status == 204,
        r.content is None,
        plan_headers(r) == Some(
            Map::<Seq<u8>, Seq<u8>>::empty().insert(
                bytes_of("Accept"@),
                spec_options_accept(library, trace),
            ),
        ),
{
    let mut h = Fields::new();
    assert(h.map() =~= Map::<Seq<u8>, Seq<u8>>::empty());
    h.insert(text_bytes("Accept"), options_accept(library, trace));
    ResponsePlan { status: 204, headers: Some(h), content: None }
}

/// The answer to a method the server refuses: 405 with `Accept`.
pub fn refuse_method(accept: Vec<u8>) -> (r: ResponsePlan)
    ensures
        r.status == 405,
        r.content is None,
        plan_headers(r) == Some(Map::<Seq<u8>, Seq<u8>>::empty().insert(bytes_of("Accept"@), accept@)),
{
    let mut h = Fields::new();
    assert(h.map() =~= Map::<Seq<u8>, Seq<u8>>::empty());
    h.insert(text_bytes("Accept"), accept);
    ResponsePlan { status: 405, headers: Some(h), content: None }
}

/// The answer to `TRACE`: 200 with the request as `message/http` when TRACE is enabled,
/// else the 405 of a refused method.
pub fn handle_trace(request: Vec<u8>, enable_trace: bool, library: bool) -> (r: ResponsePlan)
    ensures
        enable_trace ==> r.status == 200 && plan_content(r) == Some(request@) && plan_headers(r)
            == Some(
            Map::<Seq<u8>, Seq<u8>>::empty().insert(
                bytes_of("Content-Type"@),
                bytes_of("message/http"@),
            ),
        ),
        !enable_trace ==> r.status == 405 && r.content is None && plan_headers(r) == Some(
            Map::<Seq<u8>, Seq<u8>>::empty().insert(
                bytes_of("Accept"@),
                spec_refused_accept(library, enable_trace),
            ),
        ),
{
    if enable_trace {
        let mut h = Fields::new();
        assert(h.map() =~= Map::<Seq<u8>, Seq<u8>>::empty());
        h.insert(text_bytes("Content-Type"), text_bytes("message/http"));
        ResponsePlan { status: 200, headers: Some(h), content: Some(request) }
    } else {
        refuse_method(refused_accept(library, enable_trace))
    }
}

/// The answer to a request that could not be read: the error's status, for an
/// unsupported media type with the `Accept` and `Vary` fields that list what is taken,
/// and for an error that is the server's own the 500 page of version `version`.
pub fn error_response(e: &ServerError, version: &[u8]) -> (r: ResponsePlan)
    ensures
        r.status == spec_error_status(*e),
        (*e matches ServerError::UnsupportedMediaType) ==> r.content is None && plan_headers(r)
            == Some(
            Map::<Seq<u8>, Seq<u8>>::empty().insert(
                bytes_of("Accept"@),
                bytes_of(
                    "application/x-www-form-urlencoded, multipart/form-data, text/plain, application/octet-stream"@,
                ),
            ).insert(bytes_of("Vary"@), bytes_of("Content-Type"@)),
        ),
        spec_error_status(*e) == 500 ==> plan_content(r) == Some(
            spec_internal_error_page(version@),
        ) && plan_headers(r) == Some(
            Map::<Seq<u8>, Seq<u8>>::empty().insert(bytes_of("Content-Type"@), html_type()),
        ),
        !(*e matches ServerError::UnsupportedMediaType) && spec_error_status(*e) != 500
            ==> r.headers is None && r.content is None,
{
    match e {
        ServerError::UnsupportedMediaType => {
            let mut h = Fields::new();
            assert(h.map() =~= Map::<Seq<u8>, Seq<u8>>::empty());
            h.insert(
                text_bytes("Accept"),
                text_bytes(
                    "application/x-www-form-urlencoded, multipart/form-data, text/plain, application/octet-stream",
                ),
            );
            h.insert(text_bytes("Vary"), text_bytes("Content-Type"));
            ResponsePlan { status: e.status(), headers: Some(h), content: None }
        },
        _ => {
            let status = e.status();
            if status == 500 {
                internal_server_error(version)
            } else {
                ResponsePlan { status, headers: None, content: None }
            }
        },
    }
}

/// What the connection handler does once CGI has been tried for a resource.
#[derive(Debug, Clone, Copy, PartialEq, Eq, Structural)]
pub enum CgiFollowUp {
    /// The CGI side sent its answer; nothing more is sent.
    Done,
    /// Nothing serves the resource: answer 404.
    NotFound,
    /// Serve the resource as usual; the flag tells whether an endpoint is known for it.
    Serve { resource_present_in_endpoints: bool },
    /// The CGI program failed: answer 502.
    BadGateway,
}

/// The follow-up to a CGI attempt: done when the program answered, denied access or
/// listed a directory; 404 when nothing can serve the resource and no endpoint has it;
/// 502 when the attempt failed; else the ordinary handler, told whether an endpoint has it.
pub open spec fn spec_after_cgi(outcome: Result<CGIStatus, ServerError>) -> CgiFollowUp {
    match outcome {
        Ok(CGIStatus::Available) | Ok(CGIStatus::Denied) | Ok(CGIStatus::IndexOf) => CgiFollowUp::Done,
        Ok(CGIStatus::Unavailable { not_found_guaranteed, resource_present_in_endpoints }) => {
            if resource_present_in_endpoints {
                CgiFollowUp::Serve { resource_present_in_endpoints: true }
            } else if not_found_guaranteed {
                CgiFollowUp::NotFound
            } else {
                CgiFollowUp::Serve { resource_present_in_endpoints: false }
            }
        },
        Err(_) => CgiFollowUp::BadGateway,
    }
}

/// The follow-up to a CGI attempt; see `spec_after_cgi`.
pub fn after_cgi(outcome: &Result<CGIStatus, ServerError>) -> (r: CgiFollowUp)
    ensures
        r == spec_after_cgi(*outcome),
{
    match outcome {
        Ok(CGIStatus::Available) | Ok(CGIStatus::Denied) | Ok(CGIStatus::IndexOf) => CgiFollowUp::Done,
        Ok(CGIStatus::Unavailable { not_found_guaranteed, resource_present_in_endpoints }) => {
            if *resource_present_in_endpoints {
                CgiFollowUp::Serve { resource_present_in_endpoints: true }
            } else if *not_found_guaranteed {
                CgiFollowUp::NotFound
            } else {
                CgiFollowUp::Serve { resource_present_in_endpoints: false }
            }
        },
        Err(_) => CgiFollowUp::BadGateway,
    }
}

/// The endpoint that answers a denied resource: `not_found` for a deny action of 404,
/// `forbidden` otherwise.
pub fn deny_page(deny_action: u16) -> (r: &'static str)
    ensures
        r@ == if deny_action == 404 {
            "not_found"@
        } else {
            "forbidden"@
        },
{
    if deny_action == 404 {
        "not_found"
    } else {
        "forbidden"
    }
}

/// The symbol of an endpoint in the library: its name with every `/` and `\` turned into
/// `::`.
pub open spec fn endpoint_symbol_of(name: Seq<u8>) -> Seq<u8>
    decreases name.len(),
{
    if name.len() == 0 {
        Seq::empty()
    } else {
        endpoint_symbol_of(name.drop_last()) + if name.last() == 47 || name.last() == 92 {
            seq![58u8, 58u8]
        } else {
            seq![name.last()]
        }
    }
}

/// The symbol of an endpoint; see `endpoint_symbol_of`.
pub fn endpoint_symbol(name: &[u8]) -> (r: Vec<u8>)
    ensures
        r@ == endpoint_symbol_of(name@),
{
    let mut out: Vec<u8> = Vec::new();
    let mut i: usize = 0;
    while i < name.len()
        invariant
            i <= name.len(),
            out@ == endpoint_symbol_of(name@.subrange(0, i as int)),
        decreases name.len() - i,
    {
        let b = name[i];
        if b == 47 || b == 92 {
            out.push(58);
            out.push(58);
        } else {
            out.push(b);
        }
        assert(name@.subrange(0, i + 1).drop_last() == name@.subrange(0, i as int));
        i += 1;
    }
    assert(name@.subrange(0, i as int) == name@);
    out
}

/// `s` without the `/` at its start (`str::trim_start_matches('/')`).
pub open spec fn strip_slashes(s: Seq<u8>) -> Seq<u8>
    decreases s.len(),
{
    if s.len() > 0 && s[0] == 47 {
        strip_slashes(s.drop_first())
    } else {
        s
    }
}

/// `s` without the `/` at its start.
pub fn trim_leading_slashes(s: &[u8]) -> (r: Vec<u8>)
    ensures
        r@ == strip_slashes(s@),
{
    let mut i: usize = 0;
    assert(s@.subrange(0, s@.len() as int) == s@);
    while i < s.len() && s[i] == 47
        invariant
            i <= s.len(),
            strip_slashes(s@.subrange(i as int, s.len() as int)) == strip_slashes(s@),
        decreases s.len() - i,
    {
        assert(s@.subrange(i as int, s.len() as int).drop_first() == s@.subrange(
            i + 1,
            s.len() as int,
        ));
        i += 1;
    }
    copy_range(s, i, s.len())
}

/// `name` is one of the endpoints `v`.
pub open spec fn lists_endpoint(v: Seq<String>, name: Seq<u8>) -> bool {
    exists|i: int| 0 <= i < v.len() && bytes_of(#[trigger] v[i]@) == name
}

/// Whether `name` is one of the configured endpoints.
pub fn has_endpoint(endpoints: &Option<Vec<String>>, name: &[u8]) -> (r: bool)
    ensures
        r == (endpoints is Some && lists_endpoint(endpoints->Some_0@, name@)),
{
    match endpoints {
        None => false,
        Some(v) => {
            let mut i: usize = 0;
            while i < v.len()
                invariant
                    i <= v@.len(),
                    endpoints is Some,
                    endpoints->Some_0@ == v@,
                    forall|k: int| 0 <= k < i ==> bytes_of(#[trigger] v@[k]@) != name@,
                decreases v.len() - i,
            {
                if bytes_eq(v[i].as_str().as_bytes(), name) {
                    assert(bytes_of(v@[i as int]@) == name@);
                    return true;
                }
                i += 1;
            }
            false
        },
    }
}

} // verus!
