use drain_server::response::server_globals;
use drain_server::error::ServerError;
use drain_server::fields::Fields;
use drain_server::response::{build_response, reason_phrase, response_globals};
use std::io::Read;

fn fields(pairs: &[(&str, &str)]) -> Fields {
    let mut f = Fields::new();
    for (k, v) in pairs {
        f.insert(k.as_bytes().to_vec(), v.as_bytes().to_vec());
    }
    f
}

fn text(b: Vec<u8>) -> String {
    String::from_utf8(b).unwrap()
}

#[test]
fn reason_phrases() {
    assert_eq!(reason_phrase(200), Some("OK"));
    assert_eq!(reason_phrase(418), Some("I'm a teapot"));
    assert_eq!(reason_phrase(511), Some("Network Authentication Required"));
    assert_eq!(reason_phrase(299), None);
    assert_eq!(reason_phrase(0), None);
}

#[test]
fn response_without_headers_or_body() {
    let r = build_response(204, b"Mon,  1 Jan 2024 00:00:00 GMT", None, None, &fields(&[]), false).unwrap();
    assert_eq!(text(r), "HTTP/1.1 204 No Content\r\nDate: Mon,  1 Jan 2024 00:00:00 GMT\r\n\r\n");
}

#[test]
fn law_server_header_on_every_response() {
    let globals = server_globals(&None, true, b"1.5.2");
    let r = text(build_response(200, b"d", None, None, &globals, false).unwrap());
    assert_eq!(r, "HTTP/1.1 200 OK\r\nDate: d\r\nServer: Drain 1.5.2\r\n\r\n");
}

#[test]
fn invalid_status_is_refused() {
    let r = build_response(299, b"d", None, None, &fields(&[]), false);
    assert!(matches!(r, Err(ServerError::InvalidStatusCode(299))));
}

#[test]
fn local_headers_override_globals_and_date_is_replaced() {
    let globals = fields(&[("Server", "Drain"), ("X-Frame-Options", "DENY")]);
    let local = fields(&[("Date", "yesterday"), ("X-Frame-Options", "SAMEORIGIN")]);
    let r = text(build_response(200, b"today", Some(local), None, &globals, false).unwrap());
    assert_eq!(r, "HTTP/1.1 200 OK\r\nDate: today\r\nX-Frame-Options: SAMEORIGIN\r\nServer: Drain\r\n\r\n");
}

#[test]
fn error_responses_close_the_connection() {
    let globals = fields(&[("Server", "Drain")]);
    let r = text(build_response(500, b"d", Some(fields(&[])), None, &globals, true).unwrap());
    assert_eq!(r, "HTTP/1.1 500 Internal Server Error\r\nDate: d\r\nServer: Drain\r\nConnection: close\r\n\r\n");
    let r = text(build_response(400, b"d", None, None, &globals, true).unwrap());
    assert_eq!(r, "HTTP/1.1 400 Bad Request\r\nDate: d\r\nServer: Drain\r\n\r\n");
    let g = response_globals(&globals, false);
    assert_eq!(g.len(), 1);
    let g = response_globals(&fields(&[("Connection", "keep-alive")]), true);
    assert_eq!(g.len(), 1);
    assert_eq!(g.get(b"Connection").cloned(), Some(b"close".to_vec()));
}

#[test]
fn responses_without_fields_get_only_the_server_field() {
    let globals = fields(&[("X-Frame-Options", "DENY"), ("Server", "Drain")]);
    let r = text(build_response(404, b"d", None, None, &globals, false).unwrap());
    assert_eq!(r, "HTTP/1.1 404 Not Found\r\nDate: d\r\nServer: Drain\r\n\r\n");
    let r = text(build_response(400, b"d", None, None, &fields(&[("X-Frame-Options", "DENY")]), true).unwrap());
    assert_eq!(r, "HTTP/1.1 400 Bad Request\r\nDate: d\r\n\r\n");
}

#[test]
fn body_is_trimmed_and_measured() {
    let local = fields(&[("Content-Type", "text/plain"), ("Content-Length", "999")]);
    let r = text(build_response(200, b"d", Some(local), Some(b"  \n hello \r\n".to_vec()), &fields(&[]), false).unwrap());
    assert_eq!(r, "HTTP/1.1 200 OK\r\nDate: d\r\nContent-Type: text/plain\r\nContent-Length: 5\r\n\r\nhello");
}

#[test]
fn body_without_headers_keeps_given_length() {
    let r = text(build_response(200, b"d", None, Some(b"  hi".to_vec()), &fields(&[("Server", "x")]), false).unwrap());
    assert_eq!(r, "HTTP/1.1 200 OK\r\nDate: d\r\nServer: x\r\nContent-Length: 4\r\n\r\nhi");
}

#[test]
fn unicode_white_space_is_trimmed() {
    let body = "\u{a0}\u{3000}x\u{2003}".as_bytes().to_vec();
    let r = text(build_response(200, b"d", Some(fields(&[])), Some(body), &fields(&[]), false).unwrap());
    assert!(r.ends_with("Content-Length: 1\r\n\r\nx"));
}

#[test]
fn gzip_body_is_compressed() {
    let local = fields(&[("Content-Encoding", "gzip")]);
    let r = build_response(200, b"d", Some(local), Some(b"compress me".to_vec()), &fields(&[]), false).unwrap();
    let head_end = r.windows(4).position(|w| w == b"\r\n\r\n").unwrap();
    let head = String::from_utf8(r[..head_end].to_vec()).unwrap();
    let body = &r[head_end + 4..];
    assert!(head.contains(&format!("Content-Length: {}", body.len())));
    let mut out = String::new();
    flate2::read::GzDecoder::new(body).read_to_string(&mut out).unwrap();
    assert_eq!(out, "compress me");
}

#[test]
fn brotli_body_is_compressed() {
    let local = fields(&[("Content-Encoding", "br")]);
    let r = build_response(200, b"d", Some(local), Some(b"brotli body".to_vec()), &fields(&[]), false).unwrap();
    let head_end = r.windows(4).position(|w| w == b"\r\n\r\n").unwrap();
    let body = &r[head_end + 4..];
    let mut out = Vec::new();
    brotli::BrotliDecompress(&mut &body[..], &mut out).unwrap();
    assert_eq!(out, b"brotli body".to_vec());
}

#[test]
fn global_content_encoding_applies() {
    let globals = fields(&[("Content-Encoding", "identity")]);
    let r = text(build_response(200, b"d", Some(fields(&[])), Some(b"abc".to_vec()), &globals, false).unwrap());
    assert!(r.ends_with("Content-Encoding: identity\r\nContent-Length: 3\r\n\r\nabc"));
}

#[test]
fn server_header_joins_the_global_fields() {
    let g = server_globals(&Some(fields(&[("X-Frame-Options", "DENY")])), true, b"1.5.2");
    assert_eq!(g.get(b"Server").map(|v| v.clone()), Some(b"Drain 1.5.2".to_vec()));
    assert_eq!(g.get(b"X-Frame-Options").map(|v| v.clone()), Some(b"DENY".to_vec()));
    let g = server_globals(&None, false, b"1.5.2");
    assert!(g.is_empty());
}
