//! The request handlers as a state machine. A handler asks the program around it to look
//! at the file system or to call the endpoint library (an `Action`), is told what came
//! of it (an `Event`), and decides the next step, until it sends a response.
use vstd::prelude::*;
use crate::config::Config;
use crate::fields::Fields;
use crate::mime::{content_type_for, spec_content_type};
use crate::response::bytes_of;
use crate::routing::{
    deny_page, has_endpoint, head_static_fields, lists_endpoint, no_library_accept, plan_content,
    plan_dynamic, plan_head_dynamic, plan_head_static, plan_headers, plan_static, refuse_method,
    spec_dynamic_plan, spec_no_library_accept, spec_static_plan, strip_slashes,
    trim_leading_slashes, ResponsePlan,
};
use crate::text::{copy_range, decimal, push_all, views};

verus! {

/// The method a handler serves.
#[derive(Debug, Clone, Copy, PartialEq, Eq, Structural)]
pub enum Verb {
    Get,
    Head,
    Post,
    Put,
    Delete,
    Patch,
}

/// `GET`, `HEAD` and `POST` serve files and directories; `PUT`, `DELETE` and `PATCH` only
/// endpoints.
pub open spec fn serves_documents(v: Verb) -> bool {
    v == Verb::Get || v == Verb::Head || v == Verb::Post
}

/// What the handler waits for.
pub enum Stage {
    /// Whether the resource may be served.
    Access,
    /// Whether the resource is a directory.
    Directory,
    /// Whether the directory holds the index file at this position of `Config::indices`.
    Index(usize),
    /// Whether the index rules list the directory.
    IndexRules,
    /// The endpoint's answer.
    Endpoint,
    /// The file's content.
    File,
    /// Nothing: the handler has decided.
    Finished,
}

/// A handler: its method, the resource (relative to the document root) and its stage.
pub struct Handler {
    pub verb: Verb,
    pub resource: Vec<u8>,
    pub stage: Stage,
}

/// What came of the last action.
pub enum Event {
    Access(bool),
    Directory(bool),
    /// Whether the index file asked for is a file.
    IndexFile(bool),
    /// Whether the index rules list the directory.
    IndexRules(bool),
    /// The endpoint answered with a status, header fields and maybe a body.
    Answered { status: u16, headers: Fields, content: Option<Vec<u8>> },
    /// The library has no symbol for the endpoint.
    NoSuchEndpoint,
    /// The endpoint could not be run.
    EndpointFailed,
    /// The file's content, or `None` when it does not open.
    File(Option<Vec<u8>>),
}

/// What the handler asks for next.
pub enum Action {
    /// Match the access rules against the resource.
    CheckAccess(Vec<u8>),
    /// Look whether the resource is a directory.
    ProbeDirectory(Vec<u8>),
    /// Look whether this path (relative to the document root) is a file.
    ProbeIndex(Vec<u8>),
    /// Ask the index rules whether this directory is listed.
    CheckIndexRules(Vec<u8>),
    /// Call the endpoint of that name with the request's data and status 200.
    CallEndpoint(Vec<u8>),
    /// Answer with the library's page `name` at `status`; the page may change the status
    /// where `keep_status` holds; it gets the request's data where `with_request` holds.
    CallPage { name: Vec<u8>, status: u16, keep_status: bool, with_request: bool },
    /// Answer with the listing of the directory.
    ListDirectory { directory: Vec<u8>, head: bool },
    /// Read the file.
    ReadFile(Vec<u8>),
    /// Send this response.
    Send(ResponsePlan),
    /// Answer 500 and close the connection.
    GiveUp,
}

pub enum StageView {
    Access,
    Directory,
    Index(nat),
    IndexRules,
    Endpoint,
    File,
    Finished,
}

pub struct HandlerView {
    pub verb: Verb,
    pub resource: Seq<u8>,
    pub stage: StageView,
}

pub enum EventView {
    Access(bool),
    Directory(bool),
    IndexFile(bool),
    IndexRules(bool),
    Answered { status: u16, headers: Map<Seq<u8>, Seq<u8>>, content: Option<Seq<u8>> },
    NoSuchEndpoint,
    EndpointFailed,
    File(Option<Seq<u8>>),
}

pub enum ActionView {
    CheckAccess(Seq<u8>),
    ProbeDirectory(Seq<u8>),
    ProbeIndex(Seq<u8>),
    CheckIndexRules(Seq<u8>),
    CallEndpoint(Seq<u8>),
    CallPage { name: Seq<u8>, status: u16, keep_status: bool, with_request: bool },
    ListDirectory { directory: Seq<u8>, head: bool },
    ReadFile(Seq<u8>),
    Send { status: u16, headers: Option<Map<Seq<u8>, Seq<u8>>>, content: Option<Seq<u8>> },
    GiveUp,
}

pub open spec fn opt_bytes(v: Option<Vec<u8>>) -> Option<Seq<u8>> {
    match v {
        Some(x) => Some(x@),
        None => None,
    }
}

impl View for Handler {
    type V = HandlerView;

    open spec fn view(&self) -> HandlerView {
        HandlerView {
            verb: self.verb,
            resource: self.resource@,
            stage: stage_view(self.stage),
        }
    }
}

impl View for Event {
    type V = EventView;

    open spec fn view(&self) -> EventView {
        match self {
            Event::Access(b) => EventView::Access(*b),
            Event::Directory(b) => EventView::Directory(*b),
            Event::IndexFile(b) => EventView::IndexFile(*b),
            Event::IndexRules(b) => EventView::IndexRules(*b),
            Event::Answered { status, headers, content } => EventView::Answered {
                status: *status,
                headers: headers.map(),
                content: opt_bytes(*content),
            },
            Event::NoSuchEndpoint => EventView::NoSuchEndpoint,
            Event::EndpointFailed => EventView::EndpointFailed,
            Event::File(c) => EventView::File(opt_bytes(*c)),
        }
    }
}

impl View for Action {
    type V = ActionView;

    open spec fn view(&self) -> ActionView {
        match self {
            Action::CheckAccess(r) => ActionView::CheckAccess(r@),
            Action::ProbeDirectory(r) => ActionView::ProbeDirectory(r@),
            Action::ProbeIndex(r) => ActionView::ProbeIndex(r@),
            Action::CheckIndexRules(r) => ActionView::CheckIndexRules(r@),
            Action::CallEndpoint(r) => ActionView::CallEndpoint(r@),
            Action::CallPage { name, status, keep_status, with_request } => ActionView::CallPage {
                name: name@,
                status: *status,
                keep_status: *keep_status,
                with_request: *with_request,
            },
            Action::ListDirectory { directory, head } => ActionView::ListDirectory {
                directory: directory@,
                head: *head,
            },
            Action::ReadFile(r) => ActionView::ReadFile(r@),
            Action::Send(p) => ActionView::Send {
                status: p.status,
                headers: plan_headers(*p),
                content: plan_content(*p),
            },
            Action::GiveUp => ActionView::GiveUp,
        }
    }
}

// ---------------------------------------------------------------------------
// The decisions
/// A response without body and with no header fields but the global ones.
pub open spec fn bare(status: u16) -> ActionView {
    ActionView::Send { status, headers: Some(Map::empty()), content: None }
}

/// The status that answers a denied resource.
pub open spec fn deny_status(c: Config) -> u16 {
    match c.access_control {
        Some(a) => a.deny_action,
        None => 404,
    }
}

/// The resource without the `/` that starts the request target.
pub open spec fn relative_resource(target: Seq<u8>) -> Seq<u8> {
    if target.len() > 0 {
        target.subrange(1, target.len() as int)
    } else {
        target
    }
}

/// An endpoint of the library serves `name`.
pub open spec fn endpoint_serves(c: Config, library: bool, name: Seq<u8>) -> bool {
    library && c.endpoints is Some && lists_endpoint(c.endpoints->Some_0@, name)
}

/// The library's `not_found` page at 404, with the request's data.
pub open spec fn not_found_page() -> ActionView {
    ActionView::CallPage { name: bytes_of("not_found"@), status: 404, keep_status: false, with_request: true }
}

/// Once the resource is known: its endpoint when one serves it; else the file for
/// `GET`, `HEAD` and `POST`, and the `not_found` page for the others.
pub open spec fn route_resource(c: Config, library: bool, verb: Verb, r: Seq<u8>) -> (StageView, ActionView) {
    if endpoint_serves(c, library, r) {
        (StageView::Endpoint, ActionView::CallEndpoint(r))
    } else if serves_documents(verb) {
        (StageView::File, ActionView::ReadFile(r))
    } else {
        (StageView::Finished, not_found_page())
    }
}

/// The first step: `PUT`, `DELETE` and `PATCH` are refused with 405 unless endpoints are
/// configured and the library is loaded; else the access rules are asked.
pub open spec fn spec_start(c: Config, library: bool, verb: Verb, target: Seq<u8>) -> (HandlerView, ActionView) {
    let r = relative_resource(target);
    if !serves_documents(verb) && !(library && c.endpoints is Some) {
        (
            HandlerView { verb, resource: r, stage: StageView::Finished },
            ActionView::Send {
                status: 405,
                headers: Some(Map::empty().insert(bytes_of("Accept"@), spec_no_library_accept(c.enable_trace))),
                content: None,
            },
        )
    } else {
        (HandlerView { verb, resource: r, stage: StageView::Access }, ActionView::CheckAccess(r))
    }
}

/// `HEAD` of a dynamic page; see `plan_head_dynamic`.
pub open spec fn head_dynamic(status: u16, h: Map<Seq<u8>, Seq<u8>>, content: Option<Seq<u8>>) -> ActionView {
    ActionView::Send {
        status: if h.contains_key(bytes_of("location"@)) {
            302
        } else {
            status
        },
        headers: Some(
            match content {
                Some(b) => h.insert(bytes_of("Content-Length"@), decimal(b.len())),
                None => h,
            },
        ),
        content: None,
    }
}

/// `HEAD` of a file; see `plan_head_static`.
pub open spec fn head_static(len: nat, cache_max_age: u64) -> ActionView {
    ActionView::Send { status: 200, headers: Some(head_static_fields(len, cache_max_age)), content: None }
}

/// `<directory>/<name>`
pub open spec fn index_path(directory: Seq<u8>, name: Seq<char>) -> Seq<u8> {
    directory + seq![47u8] + bytes_of(name)
}

/// A directory without any of the index files: the endpoint `<directory>/index` when one
/// serves it, else the index rules decide whether it is listed.
pub open spec fn no_index_file(c: Config, library: bool, h: HandlerView) -> (HandlerView, ActionView) {
    let t = strip_slashes(h.resource + bytes_of("/index"@));
    if endpoint_serves(c, library, t) {
        (HandlerView { verb: h.verb, resource: t, stage: StageView::Endpoint }, ActionView::CallEndpoint(t))
    } else {
        (HandlerView { stage: StageView::IndexRules, ..h }, ActionView::CheckIndexRules(h.resource))
    }
}

/// The index files are tried in the order of `Config::indices`, from position `i` on.
pub open spec fn try_index(c: Config, library: bool, h: HandlerView, i: nat) -> (HandlerView, ActionView) {
    if i < c.indices@.len() {
        (
            HandlerView { stage: StageView::Index(i), ..h },
            ActionView::ProbeIndex(index_path(h.resource, c.indices@[i as int]@)),
        )
    } else {
        no_index_file(c, library, h)
    }
}

/// A plan triple as an action.
pub open spec fn send_triple(t: (u16, Map<Seq<u8>, Seq<u8>>, Option<Seq<u8>>)) -> ActionView {
    ActionView::Send { status: t.0, headers: Some(t.1), content: t.2 }
}

/// The next stage and action after an event. A denied resource is answered by the
/// library's `not_found` or `forbidden` page (with the page's status) or, for `HEAD` or
/// without the library, by the bare deny status. A directory goes to the first of the
/// configured index files that is a file; without one, to the endpoint
/// `<directory>/index`; without that, it is listed only where an index rule says so and
/// is otherwise answered like a missing file. An endpoint's answer becomes the response
/// (302 with `location`); a missing symbol falls back to the file; a file is sent with its
/// media type and `Cache-Control` (or 304 for a known ETag), and a missing file is
/// answered by the `not_found` page or 404. An event that answers no pending question
/// ends the request with 500.
pub open spec fn spec_step(
    c: Config,
    library: bool,
    request_headers: Map<Seq<u8>, Seq<u8>>,
    known_etags: Seq<Seq<u8>>,
    h: HandlerView,
    e: EventView,
) -> (HandlerView, ActionView) {
    let head = h.verb == Verb::Head;
    let done = HandlerView { stage: StageView::Finished, ..h };
    let at = |s: StageView| HandlerView { stage: s, ..h };
    match (h.stage, e) {
        (StageView::Access, EventView::Access(false)) => {
            let d = deny_status(c);
            if library && !head {
                (
                    done,
                    ActionView::CallPage {
                        name: if d == 404 {
                            bytes_of("not_found"@)
                        } else {
                            bytes_of("forbidden"@)
                        },
                        status: d,
                        keep_status: true,
                        with_request: false,
                    },
                )
            } else {
                (done, bare(d))
            }
        },
        (StageView::Access, EventView::Access(true)) => if serves_documents(h.verb) {
            (at(StageView::Directory), ActionView::ProbeDirectory(h.resource))
        } else {
            let (s, a) = route_resource(c, library, h.verb, h.resource);
            (at(s), a)
        },
        (StageView::Directory, EventView::Directory(false)) => {
            let (s, a) = route_resource(c, library, h.verb, h.resource);
            (at(s), a)
        },
        (StageView::Directory, EventView::Directory(true)) => try_index(c, library, h, 0),
        (StageView::Index(i), EventView::IndexFile(found)) => if i >= c.indices@.len() {
            (done, ActionView::GiveUp)
        } else if found {
            let t = strip_slashes(index_path(h.resource, c.indices@[i as int]@));
            let (s, a) = route_resource(c, library, h.verb, t);
            (HandlerView { verb: h.verb, resource: t, stage: s }, a)
        } else {
            try_index(c, library, h, i + 1)
        },
        (StageView::IndexRules, EventView::IndexRules(true)) => (
            done,
            ActionView::ListDirectory { directory: h.resource, head },
        ),
        (StageView::IndexRules, EventView::IndexRules(false)) => if library && !head {
            (done, not_found_page())
        } else {
            (done, bare(404))
        },
        (StageView::Endpoint, EventView::Answered { status, headers, content }) => if head {
            (done, head_dynamic(status, headers, content))
        } else {
            (done, send_triple(spec_dynamic_plan(c.encoding, request_headers, status, headers, content, true)))
        },
        (StageView::Endpoint, EventView::NoSuchEndpoint) => if serves_documents(h.verb) {
            (at(StageView::File), ActionView::ReadFile(h.resource))
        } else {
            (done, not_found_page())
        },
        (StageView::File, EventView::File(Some(content))) => if head {
            (done, head_static(content.len(), c.cache_max_age))
        } else {
            let (guess, general) = spec_content_type(h.resource, content);
            (
                done,
                send_triple(
                    spec_static_plan(c.encoding, c.cache_max_age, request_headers, content, guess, general, known_etags),
                ),
            )
        },
        (StageView::File, EventView::File(None)) => if library && !head {
            (done, not_found_page())
        } else {
            (done, bare(404))
        },
        _ => (done, ActionView::GiveUp),
    }
}

// ---------------------------------------------------------------------------
// The machine
fn text_vec(s: &str) -> (r: Vec<u8>)
    ensures
        r@ == bytes_of(s@),
{
    let b = s.as_bytes();
    copy_range(b, 0, b.len())
}

fn bare_action(status: u16) -> (r: Action)
    ensures
        r@ == bare(status),
{
    let h = Fields::new();
    assert(h.map() =~= Map::<Seq<u8>, Seq<u8>>::empty());
    Action::Send(ResponsePlan { status, headers: Some(h), content: None })
}

fn not_found_action() -> (r: Action)
    ensures
        r@ == not_found_page(),
{
    Action::CallPage { name: text_vec("not_found"), status: 404, keep_status: false, with_request: true }
}

fn duplicate(v: &Vec<u8>) -> (r: Vec<u8>)
    ensures
        r@ == v@,
{
    let r = copy_range(v.as_slice(), 0, v.len());
    assert(r@ =~= v@);
    r
}

fn documents(verb: Verb) -> (r: bool)
    ensures
        r == serves_documents(verb),
{
    verb == Verb::Get || verb == Verb::Head || verb == Verb::Post
}

fn serves(config: &Config, library: bool, name: &[u8]) -> (r: bool)
    ensures
        r == endpoint_serves(*config, library, name@),
{
    library && has_endpoint(&config.endpoints, name)
}

pub open spec fn stage_view(s: Stage) -> StageView {
    match s {
        Stage::Access => StageView::Access,
        Stage::Directory => StageView::Directory,
        Stage::Index(i) => StageView::Index(i as nat),
        Stage::IndexRules => StageView::IndexRules,
        Stage::Endpoint => StageView::Endpoint,
        Stage::File => StageView::File,
        Stage::Finished => StageView::Finished,
    }
}

fn index_path_exec(directory: &Vec<u8>, name: &String) -> (r: Vec<u8>)
    ensures
        r@ == index_path(directory@, name@),
{
    let mut p = duplicate(directory);
    p.push(47);
    let n = name.as_str().as_bytes();
    push_all(&mut p, n);
    p
}

/// The step for index file `i` or what follows the last; see `try_index`.
fn next_index(config: &Config, library: bool, verb: Verb, resource: Vec<u8>, i: usize) -> (r: (Handler, Action))
    ensures
        (r.0@, r.1@) == try_index(*config, library, HandlerView { verb, resource: resource@, stage: StageView::Finished }, i as nat),
{
    if i < config.indices.len() {
        let p = index_path_exec(&resource, &config.indices[i]);
        (Handler { verb, resource, stage: Stage::Index(i) }, Action::ProbeIndex(p))
    } else {
        let mut p = duplicate(&resource);
        push_all(&mut p, "/index".as_bytes());
        let t = trim_leading_slashes(p.as_slice());
        if serves(config, library, t.as_slice()) {
            let ask = duplicate(&t);
            (Handler { verb, resource: t, stage: Stage::Endpoint }, Action::CallEndpoint(ask))
        } else {
            let ask = duplicate(&resource);
            (Handler { verb, resource, stage: Stage::IndexRules }, Action::CheckIndexRules(ask))
        }
    }
}

/// The step once the resource is known; see `route_resource`.
fn route(config: &Config, library: bool, verb: Verb, r: Vec<u8>) -> (out: (Stage, Action))
    ensures
        (stage_view(out.0), out.1@) == route_resource(*config, library, verb, r@),
{
    if serves(config, library, r.as_slice()) {
        (Stage::Endpoint, Action::CallEndpoint(r))
    } else if documents(verb) {
        (Stage::File, Action::ReadFile(r))
    } else {
        (Stage::Finished, not_found_action())
    }
}

/// Starts a handler for `verb` on the request target `target`; see `spec_start`.
pub fn start(config: &Config, library: bool, verb: Verb, target: &[u8]) -> (r: (Handler, Action))
    ensures
        (r.0@, r.1@) == spec_start(*config, library, verb, target@),
{
    let resource = if target.len() > 0 {
        copy_range(target, 1, target.len())
    } else {
        copy_range(target, 0, 0)
    };
    assert(resource@ == relative_resource(target@));
    if !documents(verb) && !(library && config.endpoints.is_some()) {
        let plan = refuse_method(no_library_accept(config.enable_trace));
        return (Handler { verb, resource, stage: Stage::Finished }, Action::Send(plan));
    }
    let ask = duplicate(&resource);
    (Handler { verb, resource, stage: Stage::Access }, Action::CheckAccess(ask))
}

/// Decides the next step of a handler after an event; see `spec_step`.
pub fn step(
    config: &Config,
    library: bool,
    request_headers: &Fields,
    known_etags: &Vec<Vec<u8>>,
    h: Handler,
    e: Event,
) -> (r: (Handler, Action))
    ensures
        (r.0@, r.1@) == spec_step(*config, library, request_headers.map(), views(known_etags@), h@, e@),
{
    let ghost hv = h@;
    let ghost ev = e@;
    let Handler { verb, resource, stage } = h;
    let head = verb == Verb::Head;
    match stage {
        Stage::Access => match e {
            Event::Access(false) => {
                let d = match &config.access_control {
                    Some(a) => a.deny_action,
                    None => 404,
                };
                let a = if library && !head {
                    let name = text_vec(deny_page(d));
                    Action::CallPage { name, status: d, keep_status: true, with_request: false }
                } else {
                    bare_action(d)
                };
                (Handler { verb, resource, stage: Stage::Finished }, a)
            },
            Event::Access(true) => {
                if documents(verb) {
                    let ask = duplicate(&resource);
                    (Handler { verb, resource, stage: Stage::Directory }, Action::ProbeDirectory(ask))
                } else {
                    let ask = duplicate(&resource);
                    let (s, a) = route(config, library, verb, ask);
                    (Handler { verb, resource, stage: s }, a)
                }
            },
            _ => (Handler { verb, resource, stage: Stage::Finished }, Action::GiveUp),
        },
        Stage::Directory => match e {
            Event::Directory(false) => {
                let ask = duplicate(&resource);
                let (s, a) = route(config, library, verb, ask);
                (Handler { verb, resource, stage: s }, a)
            },
            Event::Directory(true) => next_index(config, library, verb, resource, 0),
            _ => (Handler { verb, resource, stage: Stage::Finished }, Action::GiveUp),
        },
        Stage::Index(i) => match e {
            Event::IndexFile(found) => {
                if i >= config.indices.len() {
                    (Handler { verb, resource, stage: Stage::Finished }, Action::GiveUp)
                } else if found {
                    let p = index_path_exec(&resource, &config.indices[i]);
                    let t = trim_leading_slashes(p.as_slice());
                    let ask = duplicate(&t);
                    let (s, a) = route(config, library, verb, ask);
                    (Handler { verb, resource: t, stage: s }, a)
                } else {
                    next_index(config, library, verb, resource, i + 1)
                }
            },
            _ => (Handler { verb, resource, stage: Stage::Finished }, Action::GiveUp),
        },
        Stage::IndexRules => match e {
            Event::IndexRules(true) => (
                Handler { verb, resource: duplicate(&resource), stage: Stage::Finished },
                Action::ListDirectory { directory: resource, head },
            ),
            Event::IndexRules(false) => {
                let a = if library && !head {
                    not_found_action()
                } else {
                    bare_action(404)
                };
                (Handler { verb, resource, stage: Stage::Finished }, a)
            },
            _ => (Handler { verb, resource, stage: Stage::Finished }, Action::GiveUp),
        },
        Stage::Endpoint => match e {
            Event::Answered { status, headers, content } => {
                let plan = if head {
                    let len = match &content {
                        Some(c) => Some(c.len()),
                        None => None,
                    };
                    plan_head_dynamic(status, headers, len)
                } else {
                    plan_dynamic(config, request_headers, status, headers, content, true)
                };
                (Handler { verb, resource, stage: Stage::Finished }, Action::Send(plan))
            },
            Event::NoSuchEndpoint => {
                if documents(verb) {
                    let ask = duplicate(&resource);
                    (Handler { verb, resource, stage: Stage::File }, Action::ReadFile(ask))
                } else {
                    (Handler { verb, resource, stage: Stage::Finished }, not_found_action())
                }
            },
            _ => (Handler { verb, resource, stage: Stage::Finished }, Action::GiveUp),
        },
        Stage::File => match e {
            Event::File(Some(content)) => {
                let plan = if head {
                    plan_head_static(content.len(), config.cache_max_age)
                } else {
                    let (guess, general) = content_type_for(resource.as_slice(), content.as_slice());
                    plan_static(config, request_headers, content, &guess, &general, known_etags)
                };
                (Handler { verb, resource, stage: Stage::Finished }, Action::Send(plan))
            },
            Event::File(None) => {
                let a = if library && !head {
                    not_found_action()
                } else {
                    bare_action(404)
                };
                (Handler { verb, resource, stage: Stage::Finished }, a)
            },
            _ => (Handler { verb, resource, stage: Stage::Finished }, Action::GiveUp),
        },
        Stage::Finished => (Handler { verb, resource, stage: Stage::Finished }, Action::GiveUp),
    }
}

} // verus!
