use drain_server::config::{AccessControl, Config, ConfigError, Encoding, Https, TlsVersion, CGI};
use drain_server::fields::Fields;

fn fields(pairs: &[(&str, &str)]) -> Fields {
    let mut f = Fields::new();
    for (k, v) in pairs {
        f.insert(k.as_bytes().to_vec(), v.as_bytes().to_vec());
    }
    f
}

fn config(encoding: Option<Encoding>, access: Option<AccessControl>) -> Config {
    Config {
        max_content_length: Config::default_max_content_length(),
        global_response_headers: None,
        access_control: access,
        bind_host: String::from("127.0.0.1"),
        bind_port: 8080,
        endpoints: Some(vec![String::from("index"), String::from("settings/index")]),
        endpoints_library: None,
        cache_max_age: Config::default_cache_max_age(),
        encoding,
        document_root: String::from("/srv/www"),
        server_root: String::from("/srv"),
        https: None,
        chroot: false,
        enable_trace: false,
        enable_server_header: Config::default_server_header_state(),
        request_timeout: Config::default_request_timeout(),
        be_verbose: false,
        cgi: None,
        indices: vec![String::from("index.html"), String::from("index.php")],
        index_of_page_rules: vec![(b"pub/*".to_vec(), true)],
    }
}

fn gzip_encoding(types: Option<Vec<String>>) -> Encoding {
    Encoding {
        use_encoding: String::from("gzip"),
        supported_encodings: vec![String::from("gzip"), String::from("br")],
        encoding_applicable_mime_types: types,
    }
}

#[test]
fn defaults() {
    assert_eq!(Config::default_max_content_length(), 1073741824);
    assert!(Config::default_server_header_state());
    assert_eq!(Config::default_cache_max_age(), 3600);
    assert_eq!(Config::default_request_timeout(), 10);
}

#[test]
fn supported_encodings() {
    let c = config(Some(gzip_encoding(None)), None);
    assert_eq!(c.get_supported_encodings().unwrap().len(), 2);
    let mut empty = gzip_encoding(None);
    empty.supported_encodings.clear();
    assert!(config(Some(empty), None).get_supported_encodings().is_none());
    assert!(config(None, None).get_supported_encodings().is_none());
}

#[test]
fn response_encoding_for_text() {
    let c = config(Some(gzip_encoding(None)), None);
    let h = fields(&[("accept-encoding", "deflate, gzip ,br")]);
    let enc = c.get_response_encoding(&b"body".to_vec(), &String::from("text/html"), &String::from("text"), &h);
    assert_eq!(enc.map(|s| s.as_str()), Some("gzip"));
    let h2 = fields(&[("accept-encoding", "br")]);
    assert!(c.get_response_encoding(&b"body".to_vec(), &String::from("text/html"), &String::from("text"), &h2).is_none());
    assert!(c.get_response_encoding(&Vec::new(), &String::from("text/html"), &String::from("text"), &h).is_none());
    assert!(c.get_response_encoding(&b"x".to_vec(), &String::from("text/html"), &String::from("text"), &fields(&[])).is_none());
}

#[test]
fn response_encoding_for_other_types() {
    let h = fields(&[("accept-encoding", "gzip")]);
    let c = config(Some(gzip_encoding(Some(vec![String::from("application/json")]))), None);
    let json = c.get_response_encoding(&b"{}".to_vec(), &String::from("application/json"), &String::from("application"), &h);
    assert_eq!(json.map(|s| s.as_str()), Some("gzip"));
    assert!(c.get_response_encoding(&b"x".to_vec(), &String::from("image/png"), &String::from("image"), &h).is_none());
    let none = config(Some(gzip_encoding(None)), None);
    assert!(none.get_response_encoding(&b"{}".to_vec(), &String::from("application/json"), &String::from("application"), &h).is_none());
}

#[test]
fn validation() {
    assert_eq!(config(None, None).validate(), Ok(()));
    let bad_action = AccessControl::new(500, fields(&[("*.txt", "deny")]));
    assert_eq!(config(None, Some(bad_action)).validate(), Err(ConfigError::InvalidDenyAction));
    let bad_word = AccessControl::new(403, fields(&[("*.txt", "block")]));
    assert_eq!(config(None, Some(bad_word)).validate(), Err(ConfigError::InvalidAccessWord));
    let mut enc = gzip_encoding(None);
    enc.use_encoding = String::from("zstd");
    assert_eq!(config(Some(enc), None).validate(), Ok(()));
    let ok = AccessControl::new(404, fields(&[("*.txt", "deny"), ("pub/*", "allow")]));
    assert_eq!(config(Some(gzip_encoding(None)), Some(ok)).validate(), Ok(()));
}

#[test]
fn law_unsupported_coding_leaves_responses_uncompressed() {
    let mut enc = gzip_encoding(None);
    enc.use_encoding = String::from("zstd");
    let c = config(Some(enc), None);
    let h = fields(&[("accept-encoding", "zstd, gzip")]);
    assert!(c.get_response_encoding(&b"body".to_vec(), &String::from("text/plain"), &String::from("text"), &h).is_none());
}

#[test]
fn law_loaded_config_encodes_with_supported_coding() {
    let c = config(Some(gzip_encoding(None)), None);
    assert_eq!(c.validate(), Ok(()));
    let h = fields(&[("accept-encoding", "gzip")]);
    let e = c.get_response_encoding(&b"b".to_vec(), &String::from("text/plain"), &String::from("text"), &h).unwrap();
    assert!(c.encoding.as_ref().unwrap().supported_encodings.contains(e));
}

#[test]
fn access_rules() {
    let ac = AccessControl::new(403, fields(&[("secret/*", "deny"), ("*.html", "allow")]));
    assert_eq!(ac.pattern(0, b"/srv/www"), b"/srv/www/secret/*".to_vec());
    let found = vec![vec![b"/srv/www/secret/a.txt".to_vec()], vec![b"/srv/www/index.html".to_vec()]];
    assert!(!ac.is_access_allowed(b"secret/a.txt", b"/srv/www", &found));
    assert!(ac.is_access_allowed(b"index.html", b"/srv/www", &found));
    assert!(ac.is_access_allowed(b"missing.txt", b"/srv/www", &found));
}

#[test]
fn law_access_allowed_without_deny_rules() {
    let ac = AccessControl::new(404, fields(&[("*", "allow")]));
    let found = vec![vec![b"/r/a".to_vec()]];
    assert!(ac.is_access_allowed(b"a", b"/r", &found));
}

#[test]
fn law_deny_rule_wins() {
    let ac = AccessControl::new(404, fields(&[("*", "allow"), ("a", "deny")]));
    let found = vec![vec![b"/r/a".to_vec()], vec![b"/r/a".to_vec()]];
    assert!(!ac.is_access_allowed(b"a", b"/r", &found));
}

#[test]
fn cgi_rules() {
    let cgi = CGI::new(true, String::from("php-cgi"), vec![(b"*.php".to_vec(), true), (b"admin/*".to_vec(), false)]);
    assert_eq!(cgi.pattern(1, b""), b"/admin/*".to_vec());
    let found = vec![vec![b"/admin/x.php".to_vec()], vec![b"/admin/x.php".to_vec()]];
    assert!(cgi.should_attempt_cgi(b"admin/x.php", b"", &found));
    let found2 = vec![vec![], vec![b"/admin/y".to_vec()]];
    assert!(!cgi.should_attempt_cgi(b"admin/y", b"", &found2));
}

#[test]
fn law_cgi_off_without_matching_rule() {
    let cgi = CGI::new(true, String::from("php-cgi"), vec![(b"*.php".to_vec(), true)]);
    let found = vec![vec![b"/x/a.php".to_vec()]];
    assert!(!cgi.should_attempt_cgi(b"b.php", b"/x", &found));
}

fn https(version: Option<&str>) -> Https {
    Https {
        enabled: true,
        bind_port: 443,
        min_protocol_version: version.map(String::from),
        cipher_list: String::from("TLS_AES_256_GCM_SHA384"),
        ssl_private_key_file: String::from("key.pem"),
        ssl_certificate_file: String::from("cert.pem"),
    }
}

#[test]
fn tls_versions() {
    assert_eq!(https(Some("SSL3")).min_proto_version(), Some(TlsVersion::Ssl3));
    assert_eq!(https(Some("TLS1")).min_proto_version(), Some(TlsVersion::Tls1));
    assert_eq!(https(Some("TLS1.1")).min_proto_version(), Some(TlsVersion::Tls1_1));
    assert_eq!(https(Some("TLS1.2")).min_proto_version(), Some(TlsVersion::Tls1_2));
    assert_eq!(https(Some("TLS1.3")).min_proto_version(), Some(TlsVersion::Tls1_3));
    assert_eq!(https(Some("DTLS1")).min_proto_version(), Some(TlsVersion::Dtls1));
    assert_eq!(https(Some("DTLS1.2")).min_proto_version(), Some(TlsVersion::Dtls1_2));
    assert_eq!(https(Some("tls1.3")).min_proto_version(), None);
    assert_eq!(https(None).min_proto_version(), None);
}

fn suites(list: &str) -> String {
    let mut h = https(Some("TLS1.2"));
    h.cipher_list = String::from(list);
    String::from_utf8(h.ciphersuites()).unwrap()
}

#[test]
fn tls_ciphersuites() {
    assert_eq!(suites("TLS_AES_256_GCM_SHA384:TLS_AES_128_GCM_SHA256"), "TLS_AES_256_GCM_SHA384:TLS_AES_128_GCM_SHA256");
    assert_eq!(suites("FOO:TLS_SHA256_SHA256:BAR"), "TLS_SHA256_SHA256");
    assert_eq!(
        suites("FOO"),
        "TLS_AES_256_GCM_SHA384:TLS_CHACHA20_POLY1305_SHA256:TLS_AES_128_GCM_SHA256"
    );
    assert_eq!(
        suites(""),
        "TLS_AES_256_GCM_SHA384:TLS_CHACHA20_POLY1305_SHA256:TLS_AES_128_GCM_SHA256"
    );
}

#[test]
fn index_listing_rules_and_defaults() {
    let mut c = config(None, None);
    assert_eq!(c.index_rule_pattern(0, b"/srv/www"), b"/srv/www/pub/*".to_vec());
    assert!(c.should_display_index_of(b"pub/docs", b"/srv/www", &vec![vec![b"/srv/www/pub/docs".to_vec()]]));
    assert!(!c.should_display_index_of(b"private", b"/srv/www", &vec![vec![b"/srv/www/pub/docs".to_vec()]]));
    c.index_of_page_rules.clear();
    assert!(!c.should_display_index_of(b"pub/docs", b"/srv/www", &vec![]));
    assert_eq!(Config::default_indices(), vec![String::from("index.html")]);
    assert_eq!(AccessControl::default_deny_action(), 404);
}
