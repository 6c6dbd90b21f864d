use drain_server::config::{AccessControl, Config};
use drain_server::gateway::{CgiAction, CgiEvent, CgiRun};
use drain_server::cgi::{
    cgi_environment, cgi_exit_outcome, cgi_output_would_panic, http_var_name, parse_cgi_output,
    path_piece_count, script_candidate, script_name_and_path_info, CGIData, CGIStatus, CgiContext,
};
use drain_server::error::ServerError;
use drain_server::fields::Fields;
use drain_server::routing::{after_cgi, CgiFollowUp};

fn fields(pairs: &[(&str, &str)]) -> Fields {
    let mut f = Fields::new();
    for (k, v) in pairs {
        f.insert(k.as_bytes().to_vec(), v.as_bytes().to_vec());
    }
    f
}

fn field(f: &Fields, k: &str) -> Option<String> {
    f.get(k.as_bytes()).map(|v| String::from_utf8(v.clone()).unwrap())
}

fn context(https: bool) -> CgiContext {
    CgiContext {
        server_addr: b"127.0.0.1".to_vec(),
        server_name: b"localhost".to_vec(),
        server_port: 8080,
        server_version: b"1.0".to_vec(),
        document_root: b"/srv/www".to_vec(),
        request_uri: b"/cgi-bin/test.py/extra?a=1".to_vec(),
        request_method: b"POST".to_vec(),
        query_string: b"a=1".to_vec(),
        https,
        remote_addr: b"10.0.0.2".to_vec(),
        remote_port: 51000,
        script_name: b"test.py".to_vec(),
        script_filename: b"/srv/www/cgi-bin/test.py".to_vec(),
        path_info: b"/extra".to_vec(),
    }
}

#[test]
fn environment_of_a_cgi_program() {
    let headers = fields(&[
        ("user-agent", "curl"),
        ("content-type", "text/plain"),
        ("content-length", "3"),
        ("x-forwarded-for", "1.2.3.4"),
    ]);
    let body = CGIData { data: b"abc".to_vec(), content_type: String::from("text/plain") };
    let env = cgi_environment(&context(true), &headers, Some(&body));
    assert_eq!(field(&env, "GATEWAY_INTERFACE").as_deref(), Some("CGI/1.1"));
    assert_eq!(field(&env, "SERVER_PORT").as_deref(), Some("8080"));
    assert_eq!(field(&env, "REMOTE_PORT").as_deref(), Some("51000"));
    assert_eq!(field(&env, "SERVER_PROTOCOL").as_deref(), Some("HTTP/1.1"));
    assert_eq!(field(&env, "SERVER_SOFTWARE").as_deref(), Some("Drain 1.0"));
    assert_eq!(field(&env, "HTTPS").as_deref(), Some("1"));
    assert_eq!(field(&env, "REDIRECT_STATUS").as_deref(), Some("1"));
    assert_eq!(field(&env, "PATH_INFO").as_deref(), Some("/extra"));
    assert_eq!(field(&env, "HTTP_USER_AGENT").as_deref(), Some("curl"));
    assert_eq!(field(&env, "HTTP_X_FORWARDED_FOR").as_deref(), Some("1.2.3.4"));
    assert_eq!(field(&env, "HTTP_CONTENT_TYPE"), None);
    assert_eq!(field(&env, "HTTP_CONTENT_LENGTH"), None);
    assert_eq!(field(&env, "CONTENT_TYPE").as_deref(), Some("text/plain"));
    assert_eq!(field(&env, "CONTENT_LENGTH").as_deref(), Some("3"));
}

#[test]
fn environment_without_body_or_tls() {
    let headers = fields(&[("content-type", "text/plain")]);
    let env = cgi_environment(&context(false), &headers, None);
    assert_eq!(field(&env, "HTTPS").as_deref(), Some(""));
    assert_eq!(field(&env, "CONTENT_TYPE"), None);
    assert_eq!(field(&env, "CONTENT_LENGTH"), None);
    assert_eq!(field(&env, "HTTP_CONTENT_TYPE"), None);
    assert_eq!(env.len(), 17);
}

#[test]
fn header_variable_names() {
    assert_eq!(http_var_name(b"x-forwarded-for"), b"HTTP_X_FORWARDED_FOR".to_vec());
    assert_eq!(http_var_name(b"accept"), b"HTTP_ACCEPT".to_vec());
}

#[test]
fn script_lookup() {
    let resource: &[u8] = b"/cgi-bin/test.py/extra";
    assert_eq!(path_piece_count(resource), 4);
    assert_eq!(script_candidate(b"/srv/www", resource, 1), b"/srv/www".to_vec());
    assert_eq!(script_candidate(b"/srv/www", resource, 2), b"/srv/www/cgi-bin".to_vec());
    assert_eq!(script_candidate(b"/srv/www", resource, 3), b"/srv/www/cgi-bin/test.py".to_vec());
    assert_eq!(script_candidate(b"/srv/www", resource, 4), b"/srv/www/cgi-bin/test.py/extra".to_vec());
    let (name, info) = script_name_and_path_info(resource, 3);
    assert_eq!(name, b"test.py".to_vec());
    assert_eq!(info, b"/extra".to_vec());
    let (name, info) = script_name_and_path_info(resource, 4);
    assert_eq!(name, b"extra".to_vec());
    assert_eq!(info, Vec::<u8>::new());
}

#[test]
fn exit_outcomes() {
    match cgi_exit_outcome(true, false, false) {
        Some(Ok(CGIStatus::Unavailable { not_found_guaranteed, resource_present_in_endpoints })) => {
            assert!(not_found_guaranteed);
            assert!(!resource_present_in_endpoints);
        },
        _ => panic!("expected Unavailable"),
    }
    match cgi_exit_outcome(true, false, true) {
        Some(Ok(CGIStatus::Unavailable { not_found_guaranteed, resource_present_in_endpoints })) => {
            assert!(!not_found_guaranteed);
            assert!(resource_present_in_endpoints);
        },
        _ => panic!("expected Unavailable"),
    }
    assert!(matches!(cgi_exit_outcome(false, false, true), Some(Err(ServerError::BadGateway))));
    assert!(cgi_exit_outcome(false, true, false).is_none());
    assert!(cgi_exit_outcome(true, true, false).is_none());
}

#[test]
fn output_with_status_and_body() {
    let out = b"Content-Type: text/html\r\nStatus: 404 Not Found\r\n\r\n<p>gone</p>";
    assert!(!cgi_output_would_panic(out));
    let r = parse_cgi_output(out).unwrap();
    assert_eq!(r.status, 404);
    assert_eq!(field(&r.headers, "content-type").as_deref(), Some("text/html"));
    assert_eq!(field(&r.headers, "status"), None);
    assert_eq!(r.headers.len(), 1);
    assert_eq!(r.content, Some(b"<p>gone</p>".to_vec()));
}

#[test]
fn output_without_status_is_ok_and_location_redirects() {
    let r = parse_cgi_output(b"X-Test:  yes \r\n\r\n").unwrap();
    assert_eq!(r.status, 200);
    assert_eq!(field(&r.headers, "x-test").as_deref(), Some("yes"));
    assert_eq!(r.content, None);
    let r = parse_cgi_output(b"Location: /elsewhere\r\nStatus: 200 OK\r\n\r\n").unwrap();
    assert_eq!(r.status, 302);
    assert_eq!(field(&r.headers, "location").as_deref(), Some("/elsewhere"));
}

#[test]
fn malformed_output_is_a_bad_gateway() {
    assert!(matches!(parse_cgi_output(b"Content-Type: text/html\r\n"), Err(ServerError::BadGateway)));
    assert!(matches!(parse_cgi_output(b"no colon here\r\n\r\nbody"), Err(ServerError::BadGateway)));
    assert!(matches!(parse_cgi_output(b"Status: abc\r\n\r\n"), Err(ServerError::BadGateway)));
}

#[test]
fn short_status_would_panic() {
    assert!(cgi_output_would_panic(b"Status: 20\r\n\r\n"));
    assert!(!cgi_output_would_panic(b"Status: 200\r\n\r\n"));
    assert!(!cgi_output_would_panic(b"no blank line"));
}

#[test]
fn follow_up_after_cgi() {
    assert_eq!(after_cgi(&Ok(CGIStatus::Available)), CgiFollowUp::Done);
    assert_eq!(after_cgi(&Ok(CGIStatus::Denied)), CgiFollowUp::Done);
    assert_eq!(after_cgi(&Ok(CGIStatus::IndexOf)), CgiFollowUp::Done);
    assert_eq!(
        after_cgi(&Ok(CGIStatus::Unavailable { not_found_guaranteed: true, resource_present_in_endpoints: false })),
        CgiFollowUp::NotFound
    );
    assert_eq!(
        after_cgi(&Ok(CGIStatus::Unavailable { not_found_guaranteed: false, resource_present_in_endpoints: true })),
        CgiFollowUp::Serve { resource_present_in_endpoints: true }
    );
    assert_eq!(
        after_cgi(&Ok(CGIStatus::Unavailable { not_found_guaranteed: false, resource_present_in_endpoints: false })),
        CgiFollowUp::Serve { resource_present_in_endpoints: false }
    );
    assert_eq!(after_cgi(&Err(ServerError::BadGateway)), CgiFollowUp::BadGateway);
}

#[test]
fn output_header_names_are_lowercased_as_text() {
    let out = "X-ÜBER: Ja\r\n\r\n".as_bytes();
    let r = parse_cgi_output(out).unwrap();
    assert_eq!(field(&r.headers, "x-über").as_deref(), Some("Ja"));
}

fn config(deny_action: Option<u16>) -> Config {
    Config {
        max_content_length: Config::default_max_content_length(),
        global_response_headers: None,
        access_control: deny_action.map(|d| AccessControl::new(d, Fields::new())),
        bind_host: String::from("127.0.0.1"),
        bind_port: 8080,
        endpoints: Some(vec![String::from("index"), String::from("app/index")]),
        endpoints_library: None,
        cache_max_age: 3600,
        encoding: None,
        document_root: String::from("/srv/www"),
        server_root: String::from("/srv"),
        https: None,
        chroot: false,
        enable_trace: false,
        enable_server_header: true,
        request_timeout: 10,
        be_verbose: false,
        cgi: None,
        indices: vec![String::from("index.html"), String::from("index.php")],
        index_of_page_rules: vec![(b"pub/*".to_vec(), true)],
    }
}

#[test]
fn cgi_run_finds_the_script_and_sends_its_answer() {
    let c = config(None);
    let (run, a) = CgiRun::start(b"/cgi-bin/test.py/extra", b"/srv/www", false);
    assert!(matches!(&a, CgiAction::CheckAccess(r) if r == b"cgi-bin/test.py/extra"));
    let (run, a) = run.step(&c, false, CgiEvent::Access(true));
    assert!(matches!(&a, CgiAction::ProbeDirectory(_)));
    let (run, a) = run.step(&c, false, CgiEvent::Directory(false));
    assert!(matches!(&a, CgiAction::ProbeScript(p) if p == b"/srv/www"));
    let (run, a) = run.step(&c, false, CgiEvent::ScriptIsFile(false));
    assert!(matches!(&a, CgiAction::ProbeScript(p) if p == b"/srv/www/cgi-bin"));
    let (run, a) = run.step(&c, false, CgiEvent::ScriptIsFile(false));
    assert!(matches!(&a, CgiAction::ProbeScript(p) if p == b"/srv/www/cgi-bin/test.py"));
    let (run, a) = run.step(&c, false, CgiEvent::ScriptIsFile(true));
    match &a {
        CgiAction::Run { script_filename, script_name, path_info, request_uri } => {
            assert_eq!(script_filename, b"/srv/www/cgi-bin/test.py");
            assert_eq!(script_name, b"test.py");
            assert_eq!(path_info, b"/extra");
            assert_eq!(request_uri, b"/cgi-bin/test.py/extra");
        },
        _ => panic!("expected Run"),
    }
    let stdout = b"Content-Type: text/plain\r\n\r\nhi".to_vec();
    let (_, a) = run.step(&c, false, CgiEvent::Exited { stderr_empty: true, success: true, stdout });
    match a {
        CgiAction::Send { plan, then } => {
            assert_eq!(plan.status, 200);
            assert_eq!(plan.content, Some(b"hi".to_vec()));
            assert!(matches!(then, CGIStatus::Available));
        },
        _ => panic!("expected Send"),
    }
}

#[test]
fn cgi_run_outcomes() {
    let c = config(Some(403));
    let (run, _) = CgiRun::start(b"/secret.php", b"/srv/www", false);
    let (_, a) = run.step(&c, true, CgiEvent::Access(false));
    assert!(matches!(&a, CgiAction::CallPage { name, status: 403 } if name == b"forbidden"));
    let (run, _) = CgiRun::start(b"/secret.php", b"/srv/www", false);
    let (_, a) = run.step(&c, false, CgiEvent::Access(false));
    assert!(matches!(&a, CgiAction::Send { plan, then: CGIStatus::Denied } if plan.status == 403));

    let c = config(None);
    let (run, _) = CgiRun::start(b"/index", b"/srv/www", false);
    let (run, _) = run.step(&c, true, CgiEvent::Access(true));
    let (run, _) = run.step(&c, true, CgiEvent::Directory(false));
    let (run, a) = run.step(&c, true, CgiEvent::ScriptIsFile(false));
    assert!(matches!(&a, CgiAction::ProbeScript(p) if p == b"/srv/www/index"));
    let (run, a) = run.step(&c, true, CgiEvent::ScriptIsFile(false));
    assert!(matches!(&a, CgiAction::Run { script_filename, .. } if script_filename == b"/srv/www/index"));
    let (_, a) = run.step(&c, true, CgiEvent::Exited { stderr_empty: true, success: false, stdout: Vec::new() });
    assert!(matches!(a, CgiAction::Finish(Ok(CGIStatus::Unavailable { not_found_guaranteed: false, resource_present_in_endpoints: true }))));

    let (run, _) = CgiRun::start(b"/broken.php", b"/srv/www", false);
    let (run, _) = run.step(&c, true, CgiEvent::Access(true));
    let (run, _) = run.step(&c, true, CgiEvent::Directory(false));
    let (run, _) = run.step(&c, true, CgiEvent::ScriptIsFile(true));
    let (_, a) = run.step(&c, true, CgiEvent::Exited { stderr_empty: false, success: false, stdout: Vec::new() });
    assert!(matches!(a, CgiAction::Finish(Err(ServerError::BadGateway))));

    let (run, _) = CgiRun::start(b"/x", b"/srv/www", false);
    let (_, a) = run.step(&c, true, CgiEvent::Failed);
    assert!(matches!(a, CgiAction::Finish(Err(ServerError::BadGateway))));
}

#[test]
fn cgi_run_directories() {
    let c = config(None);
    let (run, _) = CgiRun::start(b"/app", b"/srv/www", true);
    let (run, _) = run.step(&c, true, CgiEvent::Access(true));
    let (run, a) = run.step(&c, true, CgiEvent::Directory(true));
    assert!(matches!(&a, CgiAction::ProbeIndex(r) if r == b"app/index.html"));
    let (run, a) = run.step(&c, true, CgiEvent::IndexFile(false));
    assert!(matches!(&a, CgiAction::ProbeIndex(r) if r == b"app/index.php"));
    let (_, a) = run.step(&c, true, CgiEvent::IndexFile(false));
    assert!(matches!(a, CgiAction::Finish(Ok(CGIStatus::Unavailable { not_found_guaranteed: false, resource_present_in_endpoints: true }))));

    let (run, _) = CgiRun::start(b"/docs", b"/srv/www", true);
    let (run, _) = run.step(&c, false, CgiEvent::Access(true));
    let (run, _) = run.step(&c, false, CgiEvent::Directory(true));
    let (run, _) = run.step(&c, false, CgiEvent::IndexFile(false));
    let (run, a) = run.step(&c, false, CgiEvent::IndexFile(false));
    assert!(matches!(&a, CgiAction::CheckIndexRules(r) if r == b"docs"));
    let (_, a) = run.step(&c, false, CgiEvent::IndexRules(true));
    assert!(matches!(&a, CgiAction::ListDirectory { directory, head: true } if directory == b"docs"));

    let (run, _) = CgiRun::start(b"/docs", b"/srv/www", false);
    let (run, _) = run.step(&c, false, CgiEvent::Access(true));
    let (run, _) = run.step(&c, false, CgiEvent::Directory(true));
    let (run, _) = run.step(&c, false, CgiEvent::IndexFile(false));
    let (run, _) = run.step(&c, false, CgiEvent::IndexFile(false));
    let (_, a) = run.step(&c, false, CgiEvent::IndexRules(false));
    assert!(matches!(a, CgiAction::Finish(Ok(CGIStatus::Unavailable { not_found_guaranteed: true, resource_present_in_endpoints: false }))));

    let (run, _) = CgiRun::start(b"/docs", b"/srv/www", false);
    let (run, _) = run.step(&c, false, CgiEvent::Access(true));
    let (run, _) = run.step(&c, false, CgiEvent::Directory(true));
    let (_, a) = run.step(&c, false, CgiEvent::IndexFile(true));
    assert!(matches!(&a, CgiAction::ProbeScript(p) if p == b"/srv/www"));
}
