//! Serving a resource through CGI, as a state machine: the program around it checks
//! access, looks at the file system, runs the CGI server and sends what it is told to;
//! the decisions are made here.
use vstd::prelude::*;
use crate::cgi::{
    cgi_output_panics, parse_cgi_output, path_piece_count, script_candidate, script_filename,
    script_name_and_path_info, slash_join, spec_cgi_output, spec_exit_outcome, cgi_exit_outcome,
    CGIStatus,
};
use crate::config::Config;
use crate::error::ServerError;
use crate::fields::Fields;
use crate::handler::{deny_status, endpoint_serves, index_path};
use crate::response::bytes_of;
use crate::routing::{
    has_endpoint, plan_content, plan_headers,
    strip_slashes, trim_leading_slashes, ResponsePlan,
};
use crate::text::{copy_range, push_all, split};

verus! {

/// What the CGI run waits for.
pub enum CgiStage {
    Access,
    Directory,
    /// Whether the index file at this position of `Config::indices` is a file.
    Index(usize),
    /// Whether the index rules list the directory.
    IndexRules,
    /// Whether the script candidate after `pos` pieces of `validated` is a file.
    Script { validated: Vec<u8>, pos: usize },
    /// The program's exit.
    Running { validated: Vec<u8>, pos: usize },
    Finished,
}

/// A CGI attempt for one request.
pub struct CgiRun {
    /// The request target as it came.
    target: Vec<u8>,
    /// The target without its leading `/`.
    resource: Vec<u8>,
    /// The document root as paths are written.
    root: Vec<u8>,
    /// The request is a `HEAD`.
    head: bool,
    stage: CgiStage,
}

/// What came of the last action.
pub enum CgiEvent {
    Access(bool),
    Directory(bool),
    IndexFile(bool),
    IndexRules(bool),
    ScriptIsFile(bool),
    /// The program exited; its error output was empty or not; its standard output.
    Exited { stderr_empty: bool, success: bool, stdout: Vec<u8> },
    /// The program could not be run, or the answer could not be sent.
    Failed,
}

/// What the CGI run asks for next.
pub enum CgiAction {
    CheckAccess(Vec<u8>),
    /// Answer with the library's page `name` at `status`; the attempt is then `Denied`.
    CallPage { name: Vec<u8>, status: u16 },
    ProbeDirectory(Vec<u8>),
    /// Look whether this path (relative to the document root) is a file.
    ProbeIndex(Vec<u8>),
    /// Ask the index rules whether this directory is listed.
    CheckIndexRules(Vec<u8>),
    /// Look whether this path is a file.
    ProbeScript(Vec<u8>),
    /// Run the CGI server on `script_filename` with these variables.
    Run { script_filename: Vec<u8>, script_name: Vec<u8>, path_info: Vec<u8>, request_uri: Vec<u8> },
    /// Answer with the listing of the directory; the attempt is then `IndexOf`.
    ListDirectory { directory: Vec<u8>, head: bool },
    /// Send this response; the attempt then ends as `then`.
    Send { plan: ResponsePlan, then: CGIStatus },
    /// The attempt ends with this outcome; nothing more is sent.
    Finish(Result<CGIStatus, ServerError>),
}

pub enum CgiStageView {
    Access,
    Directory,
    Index(nat),
    IndexRules,
    Script { validated: Seq<u8>, pos: nat },
    Running { validated: Seq<u8>, pos: nat },
    Finished,
}

pub struct CgiRunView {
    pub target: Seq<u8>,
    pub resource: Seq<u8>,
    pub root: Seq<u8>,
    pub head: bool,
    pub stage: CgiStageView,
}

pub enum CgiEventView {
    Access(bool),
    Directory(bool),
    IndexFile(bool),
    IndexRules(bool),
    ScriptIsFile(bool),
    Exited { stderr_empty: bool, success: bool, stdout: Seq<u8> },
    Failed,
}

/// How an attempt ends, as values.
pub enum Outcome {
    Available,
    Unavailable { not_found_guaranteed: bool, resource_present_in_endpoints: bool },
    Denied,
    IndexOf,
    BadGateway,
}

pub enum CgiActionView {
    CheckAccess(Seq<u8>),
    CallPage { name: Seq<u8>, status: u16 },
    ProbeDirectory(Seq<u8>),
    ProbeIndex(Seq<u8>),
    CheckIndexRules(Seq<u8>),
    ProbeScript(Seq<u8>),
    Run { script_filename: Seq<u8>, script_name: Seq<u8>, path_info: Seq<u8>, request_uri: Seq<u8> },
    ListDirectory { directory: Seq<u8>, head: bool },
    Send { status: u16, headers: Option<Map<Seq<u8>, Seq<u8>>>, content: Option<Seq<u8>>, then: Outcome },
    Finish(Outcome),
}

pub open spec fn status_outcome(s: CGIStatus) -> Outcome {
    match s {
        CGIStatus::Available => Outcome::Available,
        CGIStatus::Unavailable { not_found_guaranteed, resource_present_in_endpoints } => Outcome::Unavailable {
            not_found_guaranteed,
            resource_present_in_endpoints,
        },
        CGIStatus::Denied => Outcome::Denied,
        CGIStatus::IndexOf => Outcome::IndexOf,
    }
}

/// An attempt that fails ends as a bad gateway, whichever error it was.
pub open spec fn result_outcome(r: Result<CGIStatus, ServerError>) -> Outcome {
    match r {
        Ok(s) => status_outcome(s),
        Err(_) => Outcome::BadGateway,
    }
}

pub open spec fn cgi_stage_view(s: CgiStage) -> CgiStageView {
    match s {
        CgiStage::Access => CgiStageView::Access,
        CgiStage::Directory => CgiStageView::Directory,
        CgiStage::Index(i) => CgiStageView::Index(i as nat),
        CgiStage::IndexRules => CgiStageView::IndexRules,
        CgiStage::Script { validated, pos } => CgiStageView::Script { validated: validated@, pos: pos as nat },
        CgiStage::Running { validated, pos } => CgiStageView::Running { validated: validated@, pos: pos as nat },
        CgiStage::Finished => CgiStageView::Finished,
    }
}

impl View for CgiRun {
    type V = CgiRunView;

    closed spec fn view(&self) -> CgiRunView {
        CgiRunView {
            target: self.target@,
            resource: self.resource@,
            root: self.root@,
            head: self.head,
            stage: cgi_stage_view(self.stage),
        }
    }
}

impl View for CgiEvent {
    type V = CgiEventView;

    open spec fn view(&self) -> CgiEventView {
        match self {
            CgiEvent::Access(b) => CgiEventView::Access(*b),
            CgiEvent::Directory(b) => CgiEventView::Directory(*b),
            CgiEvent::IndexFile(b) => CgiEventView::IndexFile(*b),
            CgiEvent::IndexRules(b) => CgiEventView::IndexRules(*b),
            CgiEvent::ScriptIsFile(b) => CgiEventView::ScriptIsFile(*b),
            CgiEvent::Exited { stderr_empty, success, stdout } => CgiEventView::Exited {
                stderr_empty: *stderr_empty,
                success: *success,
                stdout: stdout@,
            },
            CgiEvent::Failed => CgiEventView::Failed,
        }
    }
}

impl View for CgiAction {
    type V = CgiActionView;

    open spec fn view(&self) -> CgiActionView {
        match self {
            CgiAction::CheckAccess(r) => CgiActionView::CheckAccess(r@),
            CgiAction::CallPage { name, status } => CgiActionView::CallPage { name: name@, status: *status },
            CgiAction::ProbeDirectory(r) => CgiActionView::ProbeDirectory(r@),
            CgiAction::ProbeIndex(r) => CgiActionView::ProbeIndex(r@),
            CgiAction::CheckIndexRules(r) => CgiActionView::CheckIndexRules(r@),
            CgiAction::ProbeScript(p) => CgiActionView::ProbeScript(p@),
            CgiAction::Run { script_filename, script_name, path_info, request_uri } => CgiActionView::Run {
                script_filename: script_filename@,
                script_name: script_name@,
                path_info: path_info@,
                request_uri: request_uri@,
            },
            CgiAction::ListDirectory { directory, head } => CgiActionView::ListDirectory {
                directory: directory@,
                head: *head,
            },
            CgiAction::Send { plan, then } => CgiActionView::Send {
                status: plan.status,
                headers: plan_headers(*plan),
                content: plan_content(*plan),
                then: status_outcome(*then),
            },
            CgiAction::Finish(r) => CgiActionView::Finish(result_outcome(*r)),
        }
    }
}

impl CgiRun {
    /// Script positions stay within the pieces of the path being searched.
    #[verifier::type_invariant]
    spec fn inv(&self) -> bool {
        match self.stage {
            CgiStage::Script { validated, pos } => 1 <= pos <= split(validated@, 47).len(),
            CgiStage::Running { validated, pos } => 1 <= pos <= split(validated@, 47).len(),
            _ => true,
        }
    }
}

// ---------------------------------------------------------------------------
// The decisions
/// The first step: ask whether the resource may be served.
pub open spec fn spec_cgi_start(target: Seq<u8>, root: Seq<u8>, head: bool) -> (CgiRunView, CgiActionView) {
    let r = strip_slashes(target);
    (
        CgiRunView { target, resource: r, root, head, stage: CgiStageView::Access },
        CgiActionView::CheckAccess(r),
    )
}

/// The search for the script file in `validated` from position `pos` on.
pub open spec fn probe_script(root: Seq<u8>, validated: Seq<u8>, pos: nat) -> CgiActionView {
    CgiActionView::ProbeScript(script_filename(root, validated, pos as int))
}

/// Running the script found after `pos` pieces of `validated`.
pub open spec fn run_script(root: Seq<u8>, validated: Seq<u8>, pos: nat) -> CgiActionView {
    let p = split(validated, 47);
    CgiActionView::Run {
        script_filename: script_filename(root, validated, pos as int),
        script_name: p[pos - 1],
        path_info: slash_join(p, pos as int, p.len() as int),
        request_uri: validated,
    }
}

/// A directory without any of the index files: `Unavailable` when the endpoint
/// `<directory>/index` serves it (the ordinary handler then calls it), else the index
/// rules decide whether it is listed.
pub open spec fn cgi_no_index_file(c: Config, library: bool, run: CgiRunView) -> (CgiRunView, CgiActionView) {
    let t = strip_slashes(run.resource + bytes_of("/index"@));
    if endpoint_serves(c, library, t) {
        (
            CgiRunView { stage: CgiStageView::Finished, ..run },
            CgiActionView::Finish(Outcome::Unavailable { not_found_guaranteed: false, resource_present_in_endpoints: true }),
        )
    } else {
        (CgiRunView { stage: CgiStageView::IndexRules, ..run }, CgiActionView::CheckIndexRules(run.resource))
    }
}

/// The index files are tried in the order of `Config::indices`, from position `i` on.
pub open spec fn cgi_try_index(c: Config, library: bool, run: CgiRunView, i: nat) -> (CgiRunView, CgiActionView) {
    if i < c.indices@.len() {
        (
            CgiRunView { stage: CgiStageView::Index(i), ..run },
            CgiActionView::ProbeIndex(index_path(run.resource, c.indices@[i as int]@)),
        )
    } else {
        cgi_no_index_file(c, library, run)
    }
}

/// The next stage and action after an event. A denied resource is answered by the
/// library's `forbidden` page for a deny action of 403 and its `not_found` page otherwise,
/// or without the library by the bare deny status. A directory goes to the first of the
/// configured index files that is a file; without one, it is `Unavailable` when the
/// endpoint `<directory>/index` serves it, listed where an index rule says so, and
/// otherwise `Unavailable` with nothing to serve it. The script is the
/// first of the document root followed by more and more pieces of the path that is a
/// file (or the whole path). A program that failed without error output leaves the
/// resource unavailable; one that failed with error output is a bad gateway; else its
/// output is the response. A failure, or an event that answers no pending question, is a
/// bad gateway.
pub open spec fn spec_cgi_step(c: Config, library: bool, run: CgiRunView, e: CgiEventView) -> (CgiRunView, CgiActionView) {
    let done = CgiRunView { stage: CgiStageView::Finished, ..run };
    let at = |s: CgiStageView| CgiRunView { stage: s, ..run };
    match (run.stage, e) {
        (CgiStageView::Access, CgiEventView::Access(false)) => {
            let d = deny_status(c);
            if library {
                (
                    done,
                    if d == 403 {
                        CgiActionView::CallPage { name: bytes_of("forbidden"@), status: 403 }
                    } else {
                        CgiActionView::CallPage { name: bytes_of("not_found"@), status: 404 }
                    },
                )
            } else {
                (
                    done,
                    CgiActionView::Send { status: d, headers: Some(Map::empty()), content: None, then: Outcome::Denied },
                )
            }
        },
        (CgiStageView::Access, CgiEventView::Access(true)) => (
            at(CgiStageView::Directory),
            CgiActionView::ProbeDirectory(run.resource),
        ),
        (CgiStageView::Directory, CgiEventView::Directory(false)) => (
            at(CgiStageView::Script { validated: run.target, pos: 1 }),
            probe_script(run.root, run.target, 1),
        ),
        (CgiStageView::Directory, CgiEventView::Directory(true)) => cgi_try_index(c, library, run, 0),
        (CgiStageView::Index(i), CgiEventView::IndexFile(found)) => if i >= c.indices@.len() {
            (done, CgiActionView::Finish(Outcome::BadGateway))
        } else if found {
            let v = seq![47u8] + strip_slashes(index_path(run.resource, c.indices@[i as int]@));
            (at(CgiStageView::Script { validated: v, pos: 1 }), probe_script(run.root, v, 1))
        } else {
            cgi_try_index(c, library, run, i + 1)
        },
        (CgiStageView::IndexRules, CgiEventView::IndexRules(true)) => (
            done,
            CgiActionView::ListDirectory { directory: run.resource, head: run.head },
        ),
        (CgiStageView::IndexRules, CgiEventView::IndexRules(false)) => (
            done,
            CgiActionView::Finish(Outcome::Unavailable { not_found_guaranteed: true, resource_present_in_endpoints: false }),
        ),
        (CgiStageView::Script { validated, pos }, CgiEventView::ScriptIsFile(found)) => {
            if found || pos >= split(validated, 47).len() {
                (at(CgiStageView::Running { validated, pos }), run_script(run.root, validated, pos))
            } else {
                (
                    at(CgiStageView::Script { validated, pos: pos + 1 }),
                    probe_script(run.root, validated, pos + 1),
                )
            }
        },
        (CgiStageView::Running { validated, pos }, CgiEventView::Exited { stderr_empty, success, stdout }) => {
            match spec_exit_outcome(stderr_empty, success, endpoint_serves(c, library, run.resource)) {
                Some(Ok((nf, present))) => (
                    done,
                    CgiActionView::Finish(
                        Outcome::Unavailable { not_found_guaranteed: nf, resource_present_in_endpoints: present },
                    ),
                ),
                Some(Err(_)) => (done, CgiActionView::Finish(Outcome::BadGateway)),
                None => match spec_cgi_output(stdout) {
                    Ok((status, headers, body)) => (
                        done,
                        CgiActionView::Send {
                            status,
                            headers: Some(headers),
                            content: if body.len() > 0 {
                                Some(body)
                            } else {
                                None
                            },
                            then: Outcome::Available,
                        },
                    ),
                    Err(_) => (done, CgiActionView::Finish(Outcome::BadGateway)),
                },
            }
        },
        _ => (done, CgiActionView::Finish(Outcome::BadGateway)),
    }
}

/// What a step may be handed: the output of a program is given only when reading its
/// status would not stop (see `cgi_output_panics`).
pub open spec fn event_readable(e: CgiEventView) -> bool {
    match e {
        CgiEventView::Exited { stdout, .. } => !cgi_output_panics(stdout),
        _ => true,
    }
}

// ---------------------------------------------------------------------------
// The machine
fn text_vec(s: &str) -> (r: Vec<u8>)
    ensures
        r@ == bytes_of(s@),
{
    let b = s.as_bytes();
    copy_range(b, 0, b.len())
}

fn duplicate(v: &Vec<u8>) -> (r: Vec<u8>)
    ensures
        r@ == v@,
{
    let r = copy_range(v.as_slice(), 0, v.len());
    assert(r@ =~= v@);
    r
}

proof fn lemma_split_nonempty(s: Seq<u8>, sep: u8, start: int)
    ensures
        crate::text::split_from(s, sep, start).len() >= 1,
{
}

fn index_path_exec(directory: &Vec<u8>, name: &String) -> (r: Vec<u8>)
    ensures
        r@ == index_path(directory@, name@),
{
    let mut p = duplicate(directory);
    p.push(47);
    push_all(&mut p, name.as_str().as_bytes());
    p
}

fn bad_gateway() -> (r: CgiAction)
    ensures
        r@ == CgiActionView::Finish(Outcome::BadGateway),
{
    CgiAction::Finish(Err(ServerError::BadGateway))
}

impl CgiRun {
    /// Starts a CGI attempt for the request target `target` under `root`; see
    /// `spec_cgi_start`.
    pub fn start(target: &[u8], root: &[u8], head: bool) -> (r: (CgiRun, CgiAction))
        ensures
            (r.0@, r.1@) == spec_cgi_start(target@, root@, head),
    {
        let resource = trim_leading_slashes(target);
        let ask = duplicate(&resource);
        let run = CgiRun {
            target: copy_range(target, 0, target.len()),
            resource,
            root: copy_range(root, 0, root.len()),
            head,
            stage: CgiStage::Access,
        };
        assert(run.target@ =~= target@);
        assert(run.root@ =~= root@);
        (run, CgiAction::CheckAccess(ask))
    }

    fn moved(self, stage: CgiStage) -> (r: CgiRun)
        requires
            match stage {
                CgiStage::Script { validated, pos } => 1 <= pos <= split(validated@, 47).len(),
                CgiStage::Running { validated, pos } => 1 <= pos <= split(validated@, 47).len(),
                _ => true,
            },
        ensures
            r@ == (CgiRunView { stage: cgi_stage_view(stage), ..self@ }),
    {
        CgiRun { target: self.target, resource: self.resource, root: self.root, head: self.head, stage }
    }

    /// The step for index file `i` or what follows the last; see `cgi_try_index`.
    fn next_index(self, config: &Config, library: bool, i: usize) -> (r: (CgiRun, CgiAction))
        ensures
            (r.0@, r.1@) == cgi_try_index(*config, library, self@, i as nat),
    {
        if i < config.indices.len() {
            let p = index_path_exec(&self.resource, &config.indices[i]);
            (self.moved(CgiStage::Index(i)), CgiAction::ProbeIndex(p))
        } else {
            let mut p = duplicate(&self.resource);
            push_all(&mut p, "/index".as_bytes());
            let t = trim_leading_slashes(p.as_slice());
            if library && has_endpoint(&config.endpoints, t.as_slice()) {
                (
                    self.moved(CgiStage::Finished),
                    CgiAction::Finish(
                        Ok(CGIStatus::Unavailable { not_found_guaranteed: false, resource_present_in_endpoints: true }),
                    ),
                )
            } else {
                let ask = duplicate(&self.resource);
                (self.moved(CgiStage::IndexRules), CgiAction::CheckIndexRules(ask))
            }
        }
    }

    /// Decides the next step after an event; see `spec_cgi_step`.
    pub fn step(self, config: &Config, library: bool, e: CgiEvent) -> (r: (CgiRun, CgiAction))
        requires
            event_readable(e@),
        ensures
            (r.0@, r.1@) == spec_cgi_step(*config, library, self@, e@),
    {
        proof {
            use_type_invariant(&self);
        }
        match &self.stage {
            CgiStage::Access => match e {
                CgiEvent::Access(false) => {
                    let d = match &config.access_control {
                        Some(a) => a.deny_action,
                        None => 404,
                    };
                    let a = if library {
                        if d == 403 {
                            CgiAction::CallPage { name: text_vec("forbidden"), status: 403 }
                        } else {
                            CgiAction::CallPage { name: text_vec("not_found"), status: 404 }
                        }
                    } else {
                        let h = Fields::new();
                        assert(h.map() =~= Map::<Seq<u8>, Seq<u8>>::empty());
                        CgiAction::Send {
                            plan: ResponsePlan { status: d, headers: Some(h), content: None },
                            then: CGIStatus::Denied,
                        }
                    };
                    (self.moved(CgiStage::Finished), a)
                },
                CgiEvent::Access(true) => {
                    let ask = duplicate(&self.resource);
                    (self.moved(CgiStage::Directory), CgiAction::ProbeDirectory(ask))
                },
                _ => (self.moved(CgiStage::Finished), bad_gateway()),
            },
            CgiStage::Directory => match e {
                CgiEvent::Directory(false) => {
                    let v = duplicate(&self.target);
                    proof {
                        lemma_split_nonempty(v@, 47, 0);
                    }
                    let p = script_candidate(self.root.as_slice(), v.as_slice(), 1);
                    (self.moved(CgiStage::Script { validated: v, pos: 1 }), CgiAction::ProbeScript(p))
                },
                CgiEvent::Directory(true) => self.next_index(config, library, 0),
                _ => (self.moved(CgiStage::Finished), bad_gateway()),
            },
            CgiStage::Index(i) => match e {
                CgiEvent::IndexFile(found) => {
                    let i = *i;
                    if i >= config.indices.len() {
                        (self.moved(CgiStage::Finished), bad_gateway())
                    } else if found {
                        let p = index_path_exec(&self.resource, &config.indices[i]);
                        let t = trim_leading_slashes(p.as_slice());
                        let mut v: Vec<u8> = vec![47u8];
                        push_all(&mut v, t.as_slice());
                        assert(v@ =~= seq![47u8] + t@);
                        proof {
                            lemma_split_nonempty(v@, 47, 0);
                        }
                        let q = script_candidate(self.root.as_slice(), v.as_slice(), 1);
                        (self.moved(CgiStage::Script { validated: v, pos: 1 }), CgiAction::ProbeScript(q))
                    } else {
                        self.next_index(config, library, i + 1)
                    }
                },
                _ => (self.moved(CgiStage::Finished), bad_gateway()),
            },
            CgiStage::IndexRules => match e {
                CgiEvent::IndexRules(true) => {
                    let dir = duplicate(&self.resource);
                    let head = self.head;
                    (self.moved(CgiStage::Finished), CgiAction::ListDirectory { directory: dir, head })
                },
                CgiEvent::IndexRules(false) => (
                    self.moved(CgiStage::Finished),
                    CgiAction::Finish(
                        Ok(CGIStatus::Unavailable { not_found_guaranteed: true, resource_present_in_endpoints: false }),
                    ),
                ),
                _ => (self.moved(CgiStage::Finished), bad_gateway()),
            },
            CgiStage::Script { validated, pos } => match e {
                CgiEvent::ScriptIsFile(found) => {
                    let pos = *pos;
                    let v = duplicate(validated);
                    let n = path_piece_count(v.as_slice());
                    if found || pos >= n {
                        let filename = script_candidate(self.root.as_slice(), v.as_slice(), pos);
                        let (name, info) = script_name_and_path_info(v.as_slice(), pos);
                        let uri = duplicate(&v);
                        (
                            self.moved(CgiStage::Running { validated: v, pos }),
                            CgiAction::Run { script_filename: filename, script_name: name, path_info: info, request_uri: uri },
                        )
                    } else {
                        let p = script_candidate(self.root.as_slice(), v.as_slice(), pos + 1);
                        (self.moved(CgiStage::Script { validated: v, pos: pos + 1 }), CgiAction::ProbeScript(p))
                    }
                },
                _ => (self.moved(CgiStage::Finished), bad_gateway()),
            },
            CgiStage::Running { .. } => match e {
                CgiEvent::Exited { stderr_empty, success, stdout } => {
                    let available = library && has_endpoint(&config.endpoints, self.resource.as_slice());
                    match cgi_exit_outcome(stderr_empty, success, available) {
                        Some(r) => (self.moved(CgiStage::Finished), CgiAction::Finish(r)),
                        None => match parse_cgi_output(stdout.as_slice()) {
                            Ok(resp) => (
                                self.moved(CgiStage::Finished),
                                CgiAction::Send {
                                    plan: ResponsePlan { status: resp.status, headers: Some(resp.headers), content: resp.content },
                                    then: CGIStatus::Available,
                                },
                            ),
                            Err(_) => (self.moved(CgiStage::Finished), bad_gateway()),
                        },
                    }
                },
                _ => (self.moved(CgiStage::Finished), bad_gateway()),
            },
            CgiStage::Finished => (self.moved(CgiStage::Finished), bad_gateway()),
        }
    }
}

} // verus!
