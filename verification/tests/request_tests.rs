use drain_server::body::{read_body, read_head, BodyRead};
use drain_server::request::query_string;
use drain_server::body::{body_length, decode_body, parse_form_data};
use drain_server::error::ServerError;
use drain_server::fields::Fields;
use drain_server::request::{parse_would_panic, pieces_complete, request_line_valid, Method, Request};
use std::io::Write;

fn field(f: &Fields, k: &str) -> Option<String> {
    f.get(k.as_bytes()).map(|v| String::from_utf8(v.clone()).unwrap())
}

fn fields(pairs: &[(&str, &str)]) -> Fields {
    let mut f = Fields::new();
    for (k, v) in pairs {
        f.insert(k.as_bytes().to_vec(), v.as_bytes().to_vec());
    }
    f
}

#[test]
fn parses_get_with_query_and_headers() {
    let raw = "GET /docs/index.html?a=1&b=two HTTP/1.1\r\nHost: example.com\r\nAccept-Encoding: gzip, br\r\n\r\n";
    let mut keep_alive = true;
    let req = Request::parse_from_string(raw.as_bytes(), &mut keep_alive).unwrap();
    assert!(keep_alive);
    match req {
        Request::Get { resource, params, headers } => {
            assert_eq!(resource, b"/docs/index.html".to_vec());
            let params = params.unwrap();
            assert_eq!(params.len(), 2);
            assert_eq!(field(&params, "a").as_deref(), Some("1"));
            assert_eq!(field(&params, "b").as_deref(), Some("two"));
            assert_eq!(field(&headers, "host").as_deref(), Some("example.com"));
            assert_eq!(field(&headers, "accept-encoding").as_deref(), Some("gzip, br"));
            assert_eq!(headers.len(), 2);
        }
        _ => panic!("expected GET"),
    }
}

#[test]
fn parses_each_method() {
    let cases: [(&str, Method); 6] = [
        ("GET", Method::Get),
        ("HEAD", Method::Head),
        ("POST", Method::Post),
        ("PUT", Method::Put),
        ("DELETE", Method::Delete),
        ("PATCH", Method::Patch),
    ];
    for (name, _) in cases.iter() {
        let raw = format!("{name} /a HTTP/1.1\r\nHost: h\r\n\r\n");
        let mut keep_alive = true;
        let req = Request::parse_from_string(raw.as_bytes(), &mut keep_alive).unwrap();
        let ok = match (&req, *name) {
            (Request::Get { .. }, "GET") => true,
            (Request::Head { .. }, "HEAD") => true,
            (Request::Post { data: None, .. }, "POST") => true,
            (Request::Put { data: None, .. }, "PUT") => true,
            (Request::Delete { data: None, .. }, "DELETE") => true,
            (Request::Patch { data: None, .. }, "PATCH") => true,
            _ => false,
        };
        assert!(ok, "{name}");
    }
    let mut k = true;
    assert!(matches!(Request::parse_from_string(b"OPTIONS / HTTP/1.1\r\nHost: h\r\n\r\n", &mut k), Ok(Request::Options)));
    assert!(matches!(Request::parse_from_string(b"CONNECT / HTTP/1.1\r\nHost: h\r\n\r\n", &mut k), Ok(Request::Connect)));
}

#[test]
fn connection_close_clears_keep_alive() {
    let mut keep_alive = true;
    let req = Request::parse_from_string(b"GET / HTTP/1.1\r\nHost: h\r\nConnection: close\r\n\r\n", &mut keep_alive);
    assert!(req.is_ok());
    assert!(!keep_alive);
    let mut keep_alive = true;
    let req = Request::parse_from_string(b"GET / HTTP/1.1\r\nHost: h\r\nConnection: keep-alive\r\n\r\n", &mut keep_alive);
    assert!(req.is_ok());
    assert!(keep_alive);
}

#[test]
fn keep_alive_is_never_set() {
    let mut keep_alive = false;
    let req = Request::parse_from_string(b"GET / HTTP/1.1\r\nHost: h\r\n\r\n", &mut keep_alive);
    assert!(req.is_ok());
    assert!(!keep_alive);
}

#[test]
fn missing_host_is_invalid() {
    let mut keep_alive = true;
    let r = Request::parse_from_string(b"GET / HTTP/1.1\r\nAccept: */*\r\n\r\n", &mut keep_alive);
    assert!(matches!(r, Err(ServerError::InvalidRequest)));
    assert!(keep_alive);
}

#[test]
fn other_versions_are_not_supported() {
    let mut keep_alive = true;
    let r = Request::parse_from_string(b"GET / HTTP/1.0\r\nHost: h\r\n\r\n", &mut keep_alive);
    assert!(matches!(r, Err(ServerError::VersionNotSupported)));
    let r = Request::parse_from_string(b"GET / HTTP/2\r\nHost: h\r\n\r\n", &mut keep_alive);
    assert!(matches!(r, Err(ServerError::VersionNotSupported)));
    let r = Request::parse_from_string(b"GET / HTTP/1.1x\r\nHost: h\r\n\r\n", &mut keep_alive);
    assert!(matches!(r, Err(ServerError::VersionNotSupported)));
}

#[test]
fn trace_gives_back_the_request() {
    let raw = b"TRACE /x HTTP/1.0\r\nAnything: here\r\n\r\n";
    let mut keep_alive = true;
    match Request::parse_from_string(raw, &mut keep_alive) {
        Ok(Request::Trace(bytes)) => assert_eq!(bytes, raw.to_vec()),
        _ => panic!("expected TRACE"),
    }
}

#[test]
fn duplicate_parameters_are_invalid() {
    let mut keep_alive = true;
    let r = Request::parse_from_string(b"GET /a?x=1&x=2 HTTP/1.1\r\nHost: h\r\n\r\n", &mut keep_alive);
    assert!(matches!(r, Err(ServerError::InvalidRequest)));
}

#[test]
fn malformed_request_lines_are_invalid() {
    for raw in [
        "get / HTTP/1.1\r\nHost: h\r\n\r\n",
        "GET /a//b HTTP/1.1\r\nHost: h\r\n\r\n",
        "GET a HTTP/1.1\r\nHost: h\r\n\r\n",
        "GET /?a=b HTTP/1.1\r\nHost: h\r\n\r\n",
        "GET /a?b HTTP/1.1\r\nHost: h\r\n\r\n",
        "GET /a. HTTP/1.1\r\nHost: h\r\n\r\n",
        "GET /a HTTP/4\r\nHost: h\r\n\r\n",
        "FETCH /a HTTP/1.1\r\nHost: h\r\n\r\n",
        "",
    ] {
        assert!(!request_line_valid(raw.as_bytes()), "{raw:?}");
        let mut keep_alive = true;
        assert!(matches!(Request::parse_from_string(raw.as_bytes(), &mut keep_alive), Err(ServerError::InvalidRequest)), "{raw:?}");
    }
    assert!(request_line_valid(b"GET /a.b/c-d_e/.f HTTP/1.1"));
    assert!(request_line_valid(b"GET / HTTP/0.9"));
}

#[test]
fn headers_stop_at_the_first_line_that_is_not_one() {
    let raw = b"GET / HTTP/1.1\r\nHost: h\r\nBad Header\r\nX-Later: 1\r\n\r\n";
    let mut keep_alive = true;
    match Request::parse_from_string(raw, &mut keep_alive) {
        Ok(Request::Get { headers, .. }) => {
            assert_eq!(headers.len(), 1);
            assert_eq!(field(&headers, "x-later"), None);
        }
        _ => panic!("expected GET"),
    }
}

#[test]
fn later_header_replaces_earlier() {
    let raw = b"GET / HTTP/1.1\r\nHost: one\r\nhost:   two  \r\n\r\n";
    let mut keep_alive = true;
    match Request::parse_from_string(raw, &mut keep_alive) {
        Ok(Request::Get { headers, .. }) => {
            assert_eq!(headers.len(), 1);
            assert_eq!(field(&headers, "host").as_deref(), Some("two"));
        }
        _ => panic!("expected GET"),
    }
}

#[test]
fn question_mark_after_version_would_panic() {
    assert!(parse_would_panic(b"GET / HTTP/1.1 ?\r\nHost: h\r\n\r\n"));
    assert!(!parse_would_panic(b"GET /a?b=c HTTP/1.1 ?\r\nHost: h\r\n\r\n"));
    assert!(!parse_would_panic(b"GET / HTTP/1.1\r\nHost: ?\r\n\r\n"));
}

#[test]
fn law_simple_request_reads_back() {
    let mut keep_alive = true;
    let req = Request::parse_from_string(b"PUT /files/report.txt HTTP/1.1\r\nHost: server.example\r\n\r\n", &mut keep_alive).unwrap();
    assert!(keep_alive);
    match req {
        Request::Put { resource, params, headers, data } => {
            assert_eq!(resource, b"/files/report.txt".to_vec());
            assert!(params.is_none());
            assert!(data.is_none());
            assert_eq!(headers.len(), 1);
            assert_eq!(field(&headers, "host").as_deref(), Some("server.example"));
        }
        _ => panic!("expected PUT"),
    }
}

#[test]
fn takes_body_and_set_data() {
    let mut k = true;
    let mut post = Request::parse_from_string(b"POST /form HTTP/1.1\r\nHost: h\r\nContent-Length: 3\r\n\r\n", &mut k).unwrap();
    assert!(post.takes_body());
    assert_eq!(field(post.headers().unwrap(), "content-length").as_deref(), Some("3"));
    post.set_data(fields(&[("a", "b")]));
    match post {
        Request::Post { data: Some(d), .. } => assert_eq!(field(&d, "a").as_deref(), Some("b")),
        _ => panic!("expected data"),
    }
    let get = Request::parse_from_string(b"DELETE /x HTTP/1.1\r\nHost: h\r\n\r\n", &mut k).unwrap();
    assert!(!get.takes_body());
}

#[test]
fn body_length_rules() {
    let max = 100;
    assert!(matches!(body_length(&fields(&[]), max), Err(ServerError::InvalidRequest)));
    assert!(matches!(body_length(&fields(&[("content-length", "0")]), max), Err(ServerError::InvalidRequest)));
    assert!(matches!(body_length(&fields(&[("content-length", "abc")]), max), Err(ServerError::InvalidRequest)));
    assert!(matches!(body_length(&fields(&[("content-length", "-3")]), max), Err(ServerError::InvalidRequest)));
    assert!(matches!(body_length(&fields(&[("content-length", "42")]), max), Ok(42)));
    assert!(matches!(body_length(&fields(&[("content-length", "+7")]), max), Ok(7)));
    assert!(matches!(body_length(&fields(&[("content-length", "101")]), max), Err(ServerError::BodyTooLarge)));
    assert!(matches!(body_length(&fields(&[("content-length", "99999999999999999999999")]), max), Err(ServerError::InvalidRequest)));
}

#[test]
fn law_written_length_reads_back() {
    for n in [1usize, 9, 10, 1234, 1073741824] {
        let text = n.to_string();
        assert!(matches!(body_length(&fields(&[("content-length", &text)]), usize::MAX), Ok(m) if m == n));
        assert_eq!(drain_server::text::decimal_bytes(n as u64), text.into_bytes());
    }
}

#[test]
fn decode_plain_and_gzip_bodies() {
    let supported = vec![String::from("gzip"), String::from("br")];
    let plain = decode_body(&fields(&[]), b"a=1&b=2", Some(&supported)).unwrap();
    assert_eq!(plain, b"a=1&b=2".to_vec());
    let lossy = decode_body(&fields(&[]), b"a=\xff", None).unwrap();
    assert_eq!(lossy, "a=\u{fffd}".as_bytes().to_vec());

    let mut enc = flate2::write::GzEncoder::new(Vec::new(), flate2::Compression::default());
    enc.write_all(b"x=5&y=6").unwrap();
    let gz = enc.finish().unwrap();
    let decoded = decode_body(&fields(&[("content-encoding", "gzip")]), &gz, Some(&supported)).unwrap();
    assert_eq!(decoded, b"x=5&y=6".to_vec());

    let mut br = Vec::new();
    brotli::BrotliCompress(&mut &b"k=v"[..], &mut br, &brotli::enc::BrotliEncoderParams::default()).unwrap();
    let decoded = decode_body(&fields(&[("content-encoding", "br")]), &br, Some(&supported)).unwrap();
    assert_eq!(decoded, b"k=v".to_vec());
}

#[test]
fn decode_errors() {
    let supported = vec![String::from("gzip")];
    assert!(matches!(decode_body(&fields(&[("content-encoding", "br")]), b"x", Some(&supported)), Err(ServerError::UnsupportedEncoding)));
    assert!(matches!(decode_body(&fields(&[("content-encoding", "gzip")]), b"x", None), Err(ServerError::UnsupportedEncoding)));
    assert!(matches!(decode_body(&fields(&[("content-encoding", "gzip")]), b"not gzip", Some(&supported)), Err(ServerError::DecompressionError(_))));
    let odd = vec![String::from("deflate")];
    assert!(matches!(decode_body(&fields(&[("content-encoding", "deflate")]), b"x", Some(&odd)), Err(ServerError::UnsupportedEncoding)));
}

#[test]
fn form_data() {
    assert!(pieces_complete(b"a=1&b=2"));
    assert!(!pieces_complete(b"a=1&b"));
    assert!(!pieces_complete(b""));
    let f = parse_form_data(b"a=1&b=x=y&c=").unwrap();
    assert_eq!(field(&f, "a").as_deref(), Some("1"));
    assert_eq!(field(&f, "b").as_deref(), Some("x=y"));
    assert_eq!(field(&f, "c").as_deref(), Some(""));
    assert!(matches!(parse_form_data(b"a=1&a=2"), Err(ServerError::UnsupportedEncoding)));
}

#[test]
fn error_statuses() {
    assert_eq!(ServerError::InvalidRequest.status(), 400);
    assert_eq!(ServerError::MalformedPayload.status(), 400);
    assert_eq!(ServerError::UnsupportedEncoding.status(), 406);
    assert_eq!(ServerError::DecompressionError(std::io::Error::new(std::io::ErrorKind::Other, "x")).status(), 406);
    assert_eq!(ServerError::UnsupportedMediaType.status(), 415);
    assert_eq!(ServerError::BodyTooLarge.status(), 413);
    assert_eq!(ServerError::VersionNotSupported.status(), 505);
    assert_eq!(ServerError::BadGateway.status(), 500);
    assert_eq!(ServerError::InvalidStatusCode(7).status(), 500);
}

#[test]
fn query_of_the_request_target() {
    assert_eq!(query_string(b"GET /index.php?a=1&b=2 HTTP/1.1\r\nHost: x\r\n\r\n"), b"a=1&b=2".to_vec());
    assert_eq!(query_string(b"GET /index.php HTTP/1.1\r\nHost: x\r\n\r\n"), Vec::<u8>::new());
}

#[test]
fn head_then_body() {
    let mut keep = true;
    let head = b"POST /form HTTP/1.1\r\nHost: x\r\nContent-Length: 7\r\nContent-Type: application/x-www-form-urlencoded\r\n\r\n";
    let (req, n) = read_head(head, &mut keep, 1024).unwrap();
    assert_eq!(n, Some(7));
    match read_body(req, b"a=1&b=2", None) {
        BodyRead::Form(Request::Post { data: Some(d), .. }, body) => {
            assert_eq!(field(&d, "a").as_deref(), Some("1"));
            assert_eq!(field(&d, "b").as_deref(), Some("2"));
            assert_eq!(body.data, b"a=1&b=2".to_vec());
            assert_eq!(body.content_type, "application/x-www-form-urlencoded");
        },
        _ => panic!("expected form data"),
    }
    let (req, _) = read_head(head, &mut keep, 1024).unwrap();
    assert!(matches!(read_body(req, b"a=1&b", None), BodyRead::Unreadable));
    let (req, _) = read_head(head, &mut keep, 1024).unwrap();
    assert!(matches!(read_body(req, b"a=1&a=2", None), BodyRead::Refused(ServerError::UnsupportedEncoding)));
    assert!(matches!(read_head(head, &mut keep, 3), Err(ServerError::BodyTooLarge)));
    let (_, n) = read_head(b"GET / HTTP/1.1\r\nHost: x\r\n\r\n", &mut keep, 3).unwrap();
    assert_eq!(n, None);
    let no_length = b"PUT /x HTTP/1.1\r\nHost: x\r\n\r\n";
    assert!(matches!(read_head(no_length, &mut keep, 1024), Err(ServerError::InvalidRequest)));
}

#[test]
fn law_root_request_reads_back() {
    let mut keep_alive = true;
    let req = Request::parse_from_string(b"GET / HTTP/1.1\r\nHost: a\r\n\r\n", &mut keep_alive).unwrap();
    assert!(keep_alive);
    match req {
        Request::Get { resource, params, headers } => {
            assert_eq!(resource, b"/".to_vec());
            assert!(params.is_none());
            assert_eq!(field(&headers, "host").as_deref(), Some("a"));
        },
        _ => panic!("expected GET"),
    }
}
