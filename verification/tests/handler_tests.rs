use drain_server::config::{AccessControl, Config};
use drain_server::fields::Fields;
use drain_server::handler::{start, step, Action, Event, Handler, Verb};

fn fields(pairs: &[(&str, &str)]) -> Fields {
    let mut f = Fields::new();
    for (k, v) in pairs {
        f.insert(k.as_bytes().to_vec(), v.as_bytes().to_vec());
    }
    f
}

fn config(deny_action: Option<u16>) -> Config {
    Config {
        max_content_length: Config::default_max_content_length(),
        global_response_headers: None,
        access_control: deny_action.map(|d| AccessControl::new(d, Fields::new())),
        bind_host: String::from("127.0.0.1"),
        bind_port: 8080,
        endpoints: Some(vec![String::from("index"), String::from("settings/index")]),
        endpoints_library: None,
        cache_max_age: 3600,
        encoding: None,
        document_root: String::from("/srv/www"),
        server_root: String::from("/srv"),
        https: None,
        chroot: false,
        enable_trace: false,
        enable_server_header: true,
        request_timeout: 10,
        be_verbose: false,
        cgi: None,
        indices: vec![String::from("index.html"), String::from("index.php")],
        index_of_page_rules: vec![(b"pub/*".to_vec(), true)],
    }
}

fn run(c: &Config, library: bool, h: Handler, e: Event) -> (Handler, Action) {
    step(c, library, &Fields::new(), &Vec::new(), h, e)
}

#[test]
fn static_file_is_read_and_sent() {
    let c = config(None);
    let (h, a) = start(&c, false, Verb::Get, b"/docs/a.txt");
    assert!(matches!(&a, Action::CheckAccess(r) if r == b"docs/a.txt"));
    let (h, a) = run(&c, false, h, Event::Access(true));
    assert!(matches!(&a, Action::ProbeDirectory(r) if r == b"docs/a.txt"));
    let (h, a) = run(&c, false, h, Event::Directory(false));
    assert!(matches!(&a, Action::ReadFile(r) if r == b"docs/a.txt"));
    let (_, a) = run(&c, false, h, Event::File(Some(b"hello".to_vec())));
    match a {
        Action::Send(p) => {
            assert_eq!(p.status, 200);
            assert_eq!(p.content, Some(b"hello".to_vec()));
            let h = p.headers.unwrap();
            assert_eq!(h.get(b"Content-Type").cloned(), Some(b"text/plain".to_vec()));
            assert_eq!(h.get(b"Cache-Control").cloned(), Some(b"max-age=3600".to_vec()));
        },
        _ => panic!("expected a response"),
    }
}

#[test]
fn head_of_a_file_has_its_length() {
    let c = config(None);
    let (h, _) = start(&c, false, Verb::Head, b"/a.txt");
    let (h, _) = run(&c, false, h, Event::Access(true));
    let (h, _) = run(&c, false, h, Event::Directory(false));
    let (_, a) = run(&c, false, h, Event::File(Some(b"hello".to_vec())));
    match a {
        Action::Send(p) => {
            assert_eq!(p.content, None);
            let h = p.headers.unwrap();
            assert_eq!(h.get(b"Content-Length").cloned(), Some(b"5".to_vec()));
            assert_eq!(h.get(b"Cache-Control").cloned(), Some(b"max-age=3600".to_vec()));
        },
        _ => panic!("expected a response"),
    }
}

#[test]
fn directory_goes_to_its_first_index_file() {
    let c = config(None);
    let (h, _) = start(&c, true, Verb::Get, b"/docs");
    let (h, _) = run(&c, true, h, Event::Access(true));
    let (h, a) = run(&c, true, h, Event::Directory(true));
    assert!(matches!(&a, Action::ProbeIndex(r) if r == b"docs/index.html"));
    let (h, a) = run(&c, true, h, Event::IndexFile(false));
    assert!(matches!(&a, Action::ProbeIndex(r) if r == b"docs/index.php"));
    let (h2, a) = run(&c, true, h, Event::IndexFile(true));
    assert!(matches!(&a, Action::ReadFile(r) if r == b"docs/index.php"));
    assert_eq!(h2.resource, b"docs/index.php".to_vec());

    let (h, _) = start(&c, false, Verb::Get, b"/");
    let (h, _) = run(&c, false, h, Event::Access(true));
    let (h, a) = run(&c, false, h, Event::Directory(true));
    assert!(matches!(&a, Action::ProbeIndex(r) if r == b"/index.html"));
    let (_, a) = run(&c, false, h, Event::IndexFile(true));
    assert!(matches!(&a, Action::ReadFile(r) if r == b"index.html"));
}

#[test]
fn law_directory_without_index_is_listed_only_by_a_rule() {
    let c = config(None);
    let (h, _) = start(&c, true, Verb::Head, b"/pub/docs");
    let (h, _) = run(&c, true, h, Event::Access(true));
    let (h, _) = run(&c, true, h, Event::Directory(true));
    let (h, _) = run(&c, true, h, Event::IndexFile(false));
    let (h, a) = run(&c, true, h, Event::IndexFile(false));
    assert!(matches!(&a, Action::CheckIndexRules(r) if r == b"pub/docs"));
    let (_, a) = run(&c, true, h, Event::IndexRules(true));
    assert!(matches!(&a, Action::ListDirectory { directory, head: true } if directory == b"pub/docs"));

    let (h, _) = start(&c, false, Verb::Get, b"/private");
    let (h, _) = run(&c, false, h, Event::Access(true));
    let (h, _) = run(&c, false, h, Event::Directory(true));
    let (h, _) = run(&c, false, h, Event::IndexFile(false));
    let (h, _) = run(&c, false, h, Event::IndexFile(false));
    let (_, a) = run(&c, false, h, Event::IndexRules(false));
    assert!(matches!(&a, Action::Send(p) if p.status == 404 && p.content.is_none()));
}

#[test]
fn directory_index_served_by_an_endpoint() {
    let c = config(None);
    let (h, _) = start(&c, true, Verb::Get, b"/settings");
    let (h, _) = run(&c, true, h, Event::Access(true));
    let (h, _) = run(&c, true, h, Event::Directory(true));
    let (h, _) = run(&c, true, h, Event::IndexFile(false));
    let (h, a) = run(&c, true, h, Event::IndexFile(false));
    assert!(matches!(&a, Action::CallEndpoint(r) if r == b"settings/index"));
    let (_, a) = run(&c, true, h, Event::Answered { status: 200, headers: fields(&[("location", "/home")]), content: None });
    assert!(matches!(&a, Action::Send(p) if p.status == 302));
}

#[test]
fn denied_resources() {
    let c = config(Some(403));
    let (h, _) = start(&c, true, Verb::Get, b"/secret");
    let (_, a) = run(&c, true, h, Event::Access(false));
    assert!(matches!(&a, Action::CallPage { name, status: 403, keep_status: true, with_request: false } if name == b"forbidden"));
    let (h, _) = start(&c, false, Verb::Get, b"/secret");
    let (_, a) = run(&c, false, h, Event::Access(false));
    assert!(matches!(&a, Action::Send(p) if p.status == 403 && p.content.is_none()));
    let (h, _) = start(&c, true, Verb::Head, b"/secret");
    let (_, a) = run(&c, true, h, Event::Access(false));
    assert!(matches!(&a, Action::Send(p) if p.status == 403));
    let c = config(Some(404));
    let (h, _) = start(&c, true, Verb::Post, b"/secret");
    let (_, a) = run(&c, true, h, Event::Access(false));
    assert!(matches!(&a, Action::CallPage { name, status: 404, .. } if name == b"not_found"));
}

#[test]
fn endpoint_only_methods() {
    let c = config(None);
    let (_, a) = start(&c, false, Verb::Put, b"/index");
    match a {
        Action::Send(p) => {
            assert_eq!(p.status, 405);
            assert_eq!(p.headers.unwrap().get(b"Accept").cloned(), Some(b"GET, HEAD, POST, OPTIONS".to_vec()));
        },
        _ => panic!("expected 405"),
    }
    let (h, _) = start(&c, true, Verb::Delete, b"/index");
    let (h, a) = run(&c, true, h, Event::Access(true));
    assert!(matches!(&a, Action::CallEndpoint(r) if r == b"index"));
    let (_, a) = run(&c, true, h, Event::NoSuchEndpoint);
    assert!(matches!(&a, Action::CallPage { name, status: 404, keep_status: false, with_request: true } if name == b"not_found"));
    let (h, _) = start(&c, true, Verb::Patch, b"/other");
    let (_, a) = run(&c, true, h, Event::Access(true));
    assert!(matches!(&a, Action::CallPage { status: 404, .. }));
}

#[test]
fn missing_files_and_failures() {
    let c = config(None);
    let (h, _) = start(&c, true, Verb::Get, b"/index");
    let (h, _) = run(&c, true, h, Event::Access(true));
    let (h, a) = run(&c, true, h, Event::Directory(false));
    assert!(matches!(&a, Action::CallEndpoint(_)));
    let (h, a) = run(&c, true, h, Event::NoSuchEndpoint);
    assert!(matches!(&a, Action::ReadFile(r) if r == b"index"));
    let (_, a) = run(&c, true, h, Event::File(None));
    assert!(matches!(&a, Action::CallPage { status: 404, .. }));

    let (h, _) = start(&c, false, Verb::Get, b"/nothing");
    let (h, _) = run(&c, false, h, Event::Access(true));
    let (h, _) = run(&c, false, h, Event::Directory(false));
    let (_, a) = run(&c, false, h, Event::File(None));
    assert!(matches!(&a, Action::Send(p) if p.status == 404));

    let (h, _) = start(&c, true, Verb::Get, b"/index");
    let (h, _) = run(&c, true, h, Event::Access(true));
    let (h, _) = run(&c, true, h, Event::Directory(false));
    let (_, a) = run(&c, true, h, Event::EndpointFailed);
    assert!(matches!(a, Action::GiveUp));

    let (h, _) = start(&c, true, Verb::Get, b"/index");
    let (_, a) = run(&c, true, h, Event::File(None));
    assert!(matches!(a, Action::GiveUp));
}
