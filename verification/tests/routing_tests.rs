use drain_server::routing::plan_head_dynamic;
use drain_server::config::{Config, Encoding};
use drain_server::date::get_current_date;
use drain_server::error::ServerError;
use drain_server::fields::Fields;
use drain_server::mime::{content_type_for, declared_type};
use drain_server::pages::{bad_gateway, index_entry, index_of_page, index_of_response, internal_server_error, not_found, trim_prefixes};
use drain_server::routing::{
    deny_page, endpoint_symbol, error_response, handle_options, handle_trace,
    has_endpoint, matching_etag, no_library_accept, options_accept, plan_dynamic,
    plan_head_static, plan_static, refuse_method, refused_accept, trim_leading_slashes,
    ResponsePlan,
};

fn fields(pairs: &[(&str, &str)]) -> Fields {
    let mut f = Fields::new();
    for (k, v) in pairs {
        f.insert(k.as_bytes().to_vec(), v.as_bytes().to_vec());
    }
    f
}

fn field(p: &ResponsePlan, k: &str) -> Option<String> {
    p.headers.as_ref().and_then(|h| h.get(k.as_bytes()).map(|v| String::from_utf8(v.clone()).unwrap()))
}

fn config(encoding: Option<Encoding>) -> Config {
    Config {
        max_content_length: Config::default_max_content_length(),
        global_response_headers: None,
        access_control: None,
        bind_host: String::from("127.0.0.1"),
        bind_port: 8080,
        endpoints: Some(vec![String::from("index"), String::from("settings/index")]),
        endpoints_library: None,
        cache_max_age: 3600,
        encoding,
        document_root: String::from("/srv/www"),
        server_root: String::from("/srv"),
        https: None,
        chroot: false,
        enable_trace: false,
        enable_server_header: true,
        request_timeout: 10,
        be_verbose: false,
        cgi: None,
        indices: vec![String::from("index.html"), String::from("index.php")],
        index_of_page_rules: vec![(b"pub/*".to_vec(), true)],
    }
}

fn gzip() -> Encoding {
    Encoding {
        use_encoding: String::from("gzip"),
        supported_encodings: vec![String::from("gzip"), String::from("br")],
        encoding_applicable_mime_types: None,
    }
}

#[test]
fn static_file_with_known_etag_is_not_modified() {
    let c = config(None);
    let req = fields(&[("if-none-match", "\"abc\", \"def\"")]);
    let known = vec![b"def".to_vec(), b"xyz".to_vec()];
    let p = plan_static(&c, &req, b"hello".to_vec(), &String::from("text/plain"), &String::from("text"), &known);
    assert_eq!(p.status, 304);
    assert_eq!(p.content, None);
    assert_eq!(field(&p, "ETag").as_deref(), Some("def"));
    assert_eq!(field(&p, "Cache-Control").as_deref(), Some("max-age=3600"));
    assert_eq!(field(&p, "Content-Type").as_deref(), Some("text/plain"));
}

#[test]
fn static_file_is_sent_and_compressed_when_accepted() {
    let c = config(Some(gzip()));
    let req = fields(&[("accept-encoding", "br, gzip")]);
    let p = plan_static(&c, &req, b"hello".to_vec(), &String::from("text/plain"), &String::from("text"), &vec![]);
    assert_eq!(p.status, 200);
    assert_eq!(p.content, Some(b"hello".to_vec()));
    assert_eq!(field(&p, "Content-Encoding").as_deref(), Some("gzip"));
    assert_eq!(field(&p, "Vary").as_deref(), Some("Accept-Encoding"));
    assert_eq!(field(&p, "Cache-Control").as_deref(), Some("max-age=3600"));
    let image = plan_static(&c, &req, b"\x89PNG".to_vec(), &String::from("image/png"), &String::from("image"), &vec![]);
    assert_eq!(field(&image, "Content-Encoding"), None);
    assert_eq!(field(&image, "Content-Type").as_deref(), Some("image/png"));
}

#[test]
fn empty_static_file_has_no_body() {
    let c = config(None);
    let req = fields(&[("if-none-match", "abc")]);
    let p = plan_static(&c, &req, Vec::new(), &String::from("text/plain"), &String::from("text"), &vec![b"abc".to_vec()]);
    assert_eq!(p.status, 200);
    assert_eq!(p.content, None);
    assert_eq!(field(&p, "ETag"), None);
    assert_eq!(field(&p, "Cache-Control").as_deref(), Some("max-age=3600"));
}

#[test]
fn etag_lists() {
    let known = vec![b"b".to_vec()];
    assert_eq!(matching_etag(b" \"a\" , \"b\"", &known), Some(b"b".to_vec()));
    assert_eq!(matching_etag(b"a, c", &known), None);
}

#[test]
fn dynamic_answers() {
    let c = config(None);
    let req = Fields::new();
    let p = plan_dynamic(&c, &req, 200, fields(&[("content-type", "text/html")]), Some(b"<p>".to_vec()), true);
    assert_eq!(p.status, 200);
    assert_eq!(p.content, Some(b"<p>".to_vec()));
    let p = plan_dynamic(&c, &req, 200, fields(&[("location", "/x")]), None, true);
    assert_eq!(p.status, 302);
    assert_eq!(p.content, None);
    let p = plan_dynamic(&c, &req, 403, fields(&[("location", "/x")]), None, false);
    assert_eq!(p.status, 403);
    let p = plan_dynamic(&c, &req, 200, fields(&[("content-type", "not a type")]), Some(b"x".to_vec()), true);
    assert_eq!(p.status, 200);
    assert_eq!(p.content, None);
    assert_eq!(field(&p, "content-type"), None);
    let p = plan_dynamic(&c, &req, 201, Fields::new(), Some(b"x".to_vec()), true);
    assert_eq!(p.status, 201);
    assert_eq!(p.content, None);
}

#[test]
fn head_of_static_file() {
    let p = plan_head_static(0, 3600);
    assert_eq!(p.status, 200);
    assert_eq!(field(&p, "Cache-Control").as_deref(), Some("max-age=3600"));
    assert_eq!(field(&p, "Content-Length"), None);
    let p = plan_head_static(1234, 60);
    assert_eq!(field(&p, "Content-Length").as_deref(), Some("1234"));
    assert_eq!(field(&p, "Cache-Control").as_deref(), Some("max-age=60"));
    assert_eq!(p.content, None);
}

#[test]
fn offered_methods() {
    assert_eq!(options_accept(true, true), b"GET, HEAD, POST, PUT, DELETE, PATCH OPTIONS, TRACE".to_vec());
    assert_eq!(options_accept(false, false), b"GET, HEAD, POST,  OPTIONS".to_vec());
    assert_eq!(refused_accept(true, false), b"GET, HEAD, POST, PUT, DELETE, PATCH, OPTIONS".to_vec());
    assert_eq!(refused_accept(false, true), b"GET, HEAD, POST, OPTIONS, TRACE".to_vec());
    assert_eq!(no_library_accept(false), b"GET, HEAD, POST, OPTIONS".to_vec());
    let p = handle_options(false, true);
    assert_eq!(p.status, 204);
    assert_eq!(field(&p, "Accept").as_deref(), Some("GET, HEAD, POST,  OPTIONS, TRACE"));
    let p = refuse_method(b"GET".to_vec());
    assert_eq!(p.status, 405);
    assert_eq!(field(&p, "Accept").as_deref(), Some("GET"));
}

#[test]
fn trace_answers() {
    let p = handle_trace(b"TRACE / HTTP/1.1\r\n".to_vec(), true, false);
    assert_eq!(p.status, 200);
    assert_eq!(p.content, Some(b"TRACE / HTTP/1.1\r\n".to_vec()));
    assert_eq!(field(&p, "Content-Type").as_deref(), Some("message/http"));
    let p = handle_trace(b"TRACE / HTTP/1.1\r\n".to_vec(), false, true);
    assert_eq!(p.status, 405);
    assert_eq!(p.content, None);
    assert_eq!(field(&p, "Accept").as_deref(), Some("GET, HEAD, POST, PUT, DELETE, PATCH, OPTIONS"));
}

#[test]
fn answers_to_request_errors() {
    assert_eq!(error_response(&ServerError::UnsupportedEncoding, b"1.0").status, 406);
    assert_eq!(error_response(&ServerError::InvalidRequest, b"1.0").status, 400);
    assert_eq!(error_response(&ServerError::MalformedPayload, b"1.0").status, 400);
    assert_eq!(error_response(&ServerError::BodyTooLarge, b"1.0").status, 413);
    assert_eq!(error_response(&ServerError::VersionNotSupported, b"1.0").status, 505);
    let p = error_response(&ServerError::UnsupportedMediaType, b"1.0");
    assert_eq!(p.status, 415);
    assert_eq!(field(&p, "Vary").as_deref(), Some("Content-Type"));
    assert_eq!(
        field(&p, "Accept").as_deref(),
        Some("application/x-www-form-urlencoded, multipart/form-data, text/plain, application/octet-stream")
    );
    let p = error_response(&ServerError::InvalidStatusCode(999), b"1.0");
    assert_eq!(p.status, 500);
    let page = String::from_utf8(p.content.unwrap()).unwrap();
    assert!(page.contains("500 Internal Server Error"));
    assert!(page.contains("Drain 1.0"));
    let p = error_response(&ServerError::InvalidRequest, b"1.0");
    assert!(p.headers.is_none());
    assert!(p.content.is_none());
}

#[test]
fn denied_resources_and_endpoints() {
    assert_eq!(deny_page(404), "not_found");
    assert_eq!(deny_page(403), "forbidden");
    assert_eq!(endpoint_symbol(b"settings/index"), b"settings::index".to_vec());
    assert_eq!(endpoint_symbol(b"a\\b/c"), b"a::b::c".to_vec());
    let endpoints = Some(vec![String::from("index"), String::from("settings/index")]);
    assert!(has_endpoint(&endpoints, b"settings/index"));
    assert!(!has_endpoint(&endpoints, b"settings"));
    assert!(!has_endpoint(&None, b"index"));
}

#[test]
fn directory_requests() {
    assert_eq!(trim_leading_slashes(b"//docs/a"), b"docs/a".to_vec());
}

#[test]
fn own_pages() {
    let p = bad_gateway(b"1.0");
    assert_eq!(p.status, 502);
    assert_eq!(field(&p, "Content-Type").as_deref(), Some("text/html; charset=utf-8"));
    assert!(String::from_utf8(p.content.unwrap()).unwrap().contains("<h2>502 Bad Gateway</h2>"));
    let p = internal_server_error(b"2.1");
    assert_eq!(p.status, 500);
    assert!(String::from_utf8(p.content.unwrap()).unwrap().contains("<small>Drain 2.1</small>"));
    let p = not_found(fields(&[("X-A", "b")]));
    assert_eq!(p.status, 404);
    assert_eq!(field(&p, "X-A").as_deref(), Some("b"));
    assert!(String::from_utf8(p.content.unwrap()).unwrap().contains("Requested content isn't found on the server."));
}

#[test]
fn directory_listing() {
    assert_eq!(trim_prefixes(b"/srv/www/srv/www/a", b"/srv/www"), b"/a".to_vec());
    assert_eq!(index_entry(b"/srv/www/docs/a.txt", b"/srv/www", true), b"docs/a.txt".to_vec());
    let page = index_of_page(b"docs", &vec![b"docs/a.txt".to_vec(), b"docs/b".to_vec()], b"1.0");
    let page = String::from_utf8(page).unwrap();
    assert!(page.contains("docs/a.txt"));
    assert!(page.contains("docs/b"));
    assert!(page.contains("Drain 1.0"));
    let c = config(None);
    let p = index_of_response(&c, &Fields::new(), b"<ul></ul>".to_vec(), true);
    assert_eq!(p.status, 200);
    assert_eq!(p.content, None);
    assert_eq!(field(&p, "Content-Length").as_deref(), Some("9"));
    let p = index_of_response(&c, &Fields::new(), b"<ul></ul>".to_vec(), false);
    assert_eq!(p.content, Some(b"<ul></ul>".to_vec()));
    assert_eq!(field(&p, "Content-Type").as_deref(), Some("text/html; charset=utf-8"));
}

#[test]
fn media_types() {
    let (t, g) = content_type_for(b"index.html", b"<p>");
    assert_eq!((t.as_str(), g.as_str()), ("text/html", "text"));
    let (t, g) = content_type_for(b"notes.zzqq", b"hello");
    assert_eq!((t.as_str(), g.as_str()), ("text/plain", "text"));
    let (t, g) = content_type_for(b"blob.zzqq", &[0xff, 0xfe]);
    assert_eq!((t.as_str(), g.as_str()), ("application/octet-stream", "application"));
    let d = declared_type(b"text/html; charset=utf-8").unwrap();
    assert_eq!(d.1, "text");
    assert!(d.0.starts_with("text/html"));
    assert!(declared_type(b"not a type").is_none());
}

#[test]
fn http_dates() {
    let now = String::from_utf8(get_current_date()).unwrap();
    assert_eq!(now.len(), 29);
    assert!(now.ends_with(" GMT"));
    let b = now.as_bytes();
    assert_eq!(&b[3..5], b", ");
    assert_eq!(b[19], b':');
    assert_eq!(b[22], b':');
    assert!(["Mon", "Tue", "Wed", "Thu", "Fri", "Sat", "Sun"].contains(&&now[0..3]));
}

#[test]
fn head_of_dynamic_page() {
    let p = plan_head_dynamic(201, fields(&[("X-A", "b")]), Some(12));
    assert_eq!(p.status, 201);
    assert_eq!(p.content, None);
    assert_eq!(field(&p, "Content-Length").as_deref(), Some("12"));
    assert_eq!(field(&p, "X-A").as_deref(), Some("b"));
    let p = plan_head_dynamic(200, fields(&[("location", "/x")]), None);
    assert_eq!(p.status, 302);
    assert_eq!(field(&p, "Content-Length"), None);
}

#[test]
fn law_page_without_content_type_has_no_body() {
    let c = config(None);
    let p = plan_dynamic(&c, &Fields::new(), 200, fields(&[("X-A", "b")]), Some(b"body".to_vec()), true);
    assert_eq!(p.status, 200);
    assert_eq!(p.content, None);
}

#[test]
fn law_location_answers_302() {
    let c = config(None);
    let p = plan_dynamic(&c, &Fields::new(), 200, fields(&[("location", "/y"), ("content-type", "text/plain")]), Some(b"x".to_vec()), true);
    assert_eq!(p.status, 302);
    assert_eq!(p.content, Some(b"x".to_vec()));
}
