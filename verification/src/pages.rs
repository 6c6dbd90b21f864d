//! The pages the server writes itself: 502, 500 and 404 pages and directory listings.
use vstd::prelude::*;
use crate::config::{should_encode, Config};
use crate::fields::Fields;
use crate::response::bytes_of;
use crate::routing::{plan_content, plan_headers, with_coding, ResponsePlan};
use crate::text::{copy_range, decimal, decimal_bytes, push_all};

verus! {

fn text_bytes(s: &str) -> (r: Vec<u8>)
    ensures
        r@ == bytes_of(s@),
{
    let b = s.as_bytes();
    copy_range(b, 0, b.len())
}

/// `text/html; charset=utf-8`
pub open spec fn html_type() -> Seq<u8> {
    bytes_of("text/html; charset=utf-8"@)
}

/// The 502 page for server version `version`.
pub open spec fn spec_bad_gateway_page(version: Seq<u8>) -> Seq<u8> {
    bytes_of("\n    <!DOCTYPE html>\n    <html lang=\"en\">\n        <head>\n            <meta charset=\"utf-8\">\n            <meta name=\"viewport\" content=\"width=device-width, initial-scale=1.0\">\n            <title>502</title>\n        </head>\n        <body>\n            <h2>502 Bad Gateway</h2>\n            <hr>\n            <small>Drain "@) + version + bytes_of("</small>\n        </body>\n    </html>\n    "@)
}

/// The 500 page for server version `version`.
pub open spec fn spec_internal_error_page(version: Seq<u8>) -> Seq<u8> {
    bytes_of("\n    <!DOCTYPE html>\n    <html lang=\"en\">\n        <head>\n            <meta charset=\"utf-8\">\n            <meta name=\"viewport\" content=\"width=device-width, initial-scale=1.0\">\n            <title>500</title>\n        </head>\n        <body>\n            <h2>500 Internal Server Error</h2>\n            <hr>\n            <small>Drain "@) + version + bytes_of("</small>\n        </body>\n    </html>\n    "@)
}

/// The 404 page written without an endpoint library.
pub open spec fn spec_not_found_page() -> Seq<u8> {
    bytes_of("\n    <!DOCTYPE html>\n        <head>\n            <meta charset=\"utf-8\">\n            <meta name=\"viewport\" content=\"width=device-width, initial-scale=1.0\">\n            <link rel=\"stylesheet\" href=\"main.css\">\n            <title>404</title>\n        </head>\n        <body>\n            Requested content isn't found on the server.\n        </body>\n    </html>"@)
}

/// The 502 answer: the page as `text/html`.
pub fn bad_gateway(version: &[u8]) -> (r: ResponsePlan)
    ensures
        r.status == 502,
        plan_content(r) == Some(spec_bad_gateway_page(version@)),
        plan_headers(r) == Some(Map::<Seq<u8>, Seq<u8>>::empty().insert(bytes_of("Content-Type"@), html_type())),
{
    let mut c = text_bytes("\n    <!DOCTYPE html>\n    <html lang=\"en\">\n        <head>\n            <meta charset=\"utf-8\">\n            <meta name=\"viewport\" content=\"width=device-width, initial-scale=1.0\">\n            <title>502</title>\n        </head>\n        <body>\n            <h2>502 Bad Gateway</h2>\n            <hr>\n            <small>Drain ");
    push_all(&mut c, version);
    push_all(&mut c, "</small>\n        </body>\n    </html>\n    ".as_bytes());
    let mut h = Fields::new();
    assert(h.map() =~= Map::<Seq<u8>, Seq<u8>>::empty());
    h.insert(text_bytes("Content-Type"), text_bytes("text/html; charset=utf-8"));
    ResponsePlan { status: 502, headers: Some(h), content: Some(c) }
}

/// The 500 answer: the page as `text/html`.
pub fn internal_server_error(version: &[u8]) -> (r: ResponsePlan)
    ensures
        r.status == 500,
        plan_content(r) == Some(spec_internal_error_page(version@)),
        plan_headers(r) == Some(Map::<Seq<u8>, Seq<u8>>::empty().insert(bytes_of("Content-Type"@), html_type())),
{
    let mut c = text_bytes("\n    <!DOCTYPE html>\n    <html lang=\"en\">\n        <head>\n            <meta charset=\"utf-8\">\n            <meta name=\"viewport\" content=\"width=device-width, initial-scale=1.0\">\n            <title>500</title>\n        </head>\n        <body>\n            <h2>500 Internal Server Error</h2>\n            <hr>\n            <small>Drain ");
    push_all(&mut c, version);
    push_all(&mut c, "</small>\n        </body>\n    </html>\n    ".as_bytes());
    let mut h = Fields::new();
    assert(h.map() =~= Map::<Seq<u8>, Seq<u8>>::empty());
    h.insert(text_bytes("Content-Type"), text_bytes("text/html; charset=utf-8"));
    ResponsePlan { status: 500, headers: Some(h), content: Some(c) }
}

/// The 404 answer without an endpoint library: the given header fields and the page as
/// `text/html`.
pub fn not_found(response_headers: Fields) -> (r: ResponsePlan)
    ensures
        r.status == 404,
        plan_content(r) == Some(spec_not_found_page()),
        plan_headers(r) == Some(response_headers.map().insert(bytes_of("Content-Type"@), html_type())),
{
    let mut h = response_headers;
    h.insert(text_bytes("Content-Type"), text_bytes("text/html; charset=utf-8"));
    ResponsePlan { status: 404, headers: Some(h), content: Some(text_bytes("\n    <!DOCTYPE html>\n        <head>\n            <meta charset=\"utf-8\">\n            <meta name=\"viewport\" content=\"width=device-width, initial-scale=1.0\">\n            <link rel=\"stylesheet\" href=\"main.css\">\n            <title>404</title>\n        </head>\n        <body>\n            Requested content isn't found on the server.\n        </body>\n    </html>")) }
}

// ---------------------------------------------------------------------------
// Directory listings
/// `s` without the copies of `p` at its start (`str::trim_start_matches(p)`).
pub open spec fn strip_prefixes(s: Seq<u8>, p: Seq<u8>) -> Seq<u8>
    decreases s.len(),
{
    if p.len() > 0 && p.len() <= s.len() && s.subrange(0, p.len() as int) == p {
        strip_prefixes(s.subrange(p.len() as int, s.len() as int), p)
    } else {
        s
    }
}

/// `s` without the copies of `p` at its start.
pub fn trim_prefixes(s: &[u8], p: &[u8]) -> (r: Vec<u8>)
    ensures
        r@ == strip_prefixes(s@, p@),
{
    let mut i: usize = 0;
    assert(s@.subrange(0, s@.len() as int) == s@);
    while p.len() > 0 && crate::text::prefix_at(s, i, p)
        invariant
            i <= s.len(),
            strip_prefixes(s@.subrange(i as int, s.len() as int), p@) == strip_prefixes(s@, p@),
        decreases s.len() - i,
    {
        let ghost rest = s@.subrange(i as int, s.len() as int);
        assert(rest.subrange(0, p@.len() as int) == s@.subrange(i as int, i + p@.len()));
        assert(rest.subrange(p@.len() as int, rest.len() as int) == s@.subrange(
            i + p@.len(),
            s.len() as int,
        ));
        i = i + p.len();
    }
    proof {
        let rest = s@.subrange(i as int, s.len() as int);
        if p@.len() > 0 && p@.len() <= rest.len() && rest.subrange(0, p@.len() as int) == p@ {
            assert(s@.subrange(i as int, i + p@.len()) == rest.subrange(0, p@.len() as int));
        }
    }
    copy_range(s, i, s.len())
}

/// The name a listing shows for a path: without the document root at its start and,
/// where access rules apply, without the slashes after it.
pub open spec fn spec_index_entry(path: Seq<u8>, document_root: Seq<u8>, strip_slash: bool) -> Seq<u8> {
    let t = strip_prefixes(path, document_root);
    if strip_slash {
        crate::routing::strip_slashes(t)
    } else {
        t
    }
}

/// The name a listing shows for a path; see `spec_index_entry`.
pub fn index_entry(path: &[u8], document_root: &[u8], strip_slash: bool) -> (r: Vec<u8>)
    ensures
        r@ == spec_index_entry(path@, document_root@, strip_slash),
{
    let t = trim_prefixes(path, document_root);
    if strip_slash {
        crate::routing::trim_leading_slashes(t.as_slice())
    } else {
        t
    }
}

/// `<li><a href=/NAME>NAME</a></li>` for each entry, in order.
pub open spec fn list_items(entries: Seq<Seq<u8>>) -> Seq<u8>
    decreases entries.len(),
{
    if entries.len() == 0 {
        Seq::empty()
    } else {
        list_items(entries.drop_last()) + bytes_of("<li><a href=/"@) + entries.last() + bytes_of(
            ">"@,
        ) + entries.last() + bytes_of("</a></li>"@)
    }
}

/// The listing page of `directory` with the given entries, for server version `version`.
pub open spec fn spec_index_page(directory: Seq<u8>, entries: Seq<Seq<u8>>, version: Seq<u8>) -> Seq<u8> {
    bytes_of("\n    <!DOCTYPE html>\n    <html lang=\"en\">\n        <head>\n            <meta charset=\"utf-8\">\n            <meta name=\"viewport\" content=\"width=device-width, initial-scale=1.0\">\n            <title>Index of /"@) + directory + bytes_of("</title>\n        </head>\n        <body>\n            <h2>Index of /"@) + directory + bytes_of("</h2>\n\n            <ul>\n                "@) + list_items(entries)
        + bytes_of("\n            </ul>\n            <hr>\n            <small>Drain "@) + version + bytes_of("</small>\n        </body>\n    </html>\n    "@)
}

/// The listing page; see `spec_index_page`.
pub fn index_of_page(directory: &[u8], entries: &Vec<Vec<u8>>, version: &[u8]) -> (r: Vec<u8>)
    ensures
        r@ == spec_index_page(directory@, crate::text::views(entries@), version@),
{
    let ghost ev = crate::text::views(entries@);
    let mut items: Vec<u8> = Vec::new();
    let mut i: usize = 0;
    while i < entries.len()
        invariant
            i <= entries@.len(),
            ev == crate::text::views(entries@),
            items@ == list_items(ev.subrange(0, i as int)),
        decreases entries.len() - i,
    {
        push_all(&mut items, "<li><a href=/".as_bytes());
        push_all(&mut items, entries[i].as_slice());
        push_all(&mut items, ">".as_bytes());
        push_all(&mut items, entries[i].as_slice());
        push_all(&mut items, "</a></li>".as_bytes());
        assert(ev[i as int] == entries@[i as int]@);
        assert(ev.subrange(0, i + 1).drop_last() == ev.subrange(0, i as int));
        i += 1;
    }
    assert(ev.subrange(0, i as int) == ev);
    let mut out = text_bytes("\n    <!DOCTYPE html>\n    <html lang=\"en\">\n        <head>\n            <meta charset=\"utf-8\">\n            <meta name=\"viewport\" content=\"width=device-width, initial-scale=1.0\">\n            <title>Index of /");
    push_all(&mut out, directory);
    push_all(&mut out, "</title>\n        </head>\n        <body>\n            <h2>Index of /".as_bytes());
    push_all(&mut out, directory);
    push_all(&mut out, "</h2>\n\n            <ul>\n                ".as_bytes());
    push_all(&mut out, items.as_slice());
    push_all(&mut out, "\n            </ul>\n            <hr>\n            <small>Drain ".as_bytes());
    push_all(&mut out, version);
    push_all(&mut out, "</small>\n        </body>\n    </html>\n    ".as_bytes());
    out
}

/// The answer with a listing page: `text/html`, compressed where `should_encode` says;
/// for `HEAD` the body's length in `Content-Length` instead of the body.
pub fn index_of_response(config: &Config, request_headers: &Fields, content: Vec<u8>, head: bool) -> (r: ResponsePlan)
    ensures
        r.status == 200,
        ({
            let h0 = Map::<Seq<u8>, Seq<u8>>::empty().insert(bytes_of("Content-Type"@), html_type());
            let h1 = if should_encode(config.encoding, content@, "text/html"@, "text"@, request_headers.map()) {
                with_coding(h0, bytes_of(config.encoding->Some_0.use_encoding@))
            } else {
                h0
            };
            if head {
                plan_headers(r) == Some(h1.insert(bytes_of("Content-Length"@), decimal(content@.len())))
                    && r.content is None
            } else {
                plan_headers(r) == Some(h1) && plan_content(r) == Some(content@)
            }
        }),
{
    let mut h = Fields::new();
    h.insert(text_bytes("Content-Type"), text_bytes("text/html; charset=utf-8"));
    let html = "text/html".to_owned();
    let text = "text".to_owned();
    match config.get_response_encoding(&content, &html, &text, request_headers) {
        Some(coding) => {
            h.insert(text_bytes("Content-Encoding"), text_bytes(coding.as_str()));
            h.insert(text_bytes("Vary"), text_bytes("Accept-Encoding"));
        },
        None => {},
    }
    assert(Map::<Seq<u8>, Seq<u8>>::empty().insert(bytes_of("Content-Type"@), html_type()) =~= Map::<
        Seq<u8>,
        Seq<u8>,
    >::empty().insert(bytes_of("Content-Type"@), html_type()));
    if !head {
        return ResponsePlan { status: 200, headers: Some(h), content: Some(content) };
    }
    h.insert(text_bytes("Content-Length"), decimal_bytes(content.len() as u64));
    ResponsePlan { status: 200, headers: Some(h), content: None }
}

} // verus!
