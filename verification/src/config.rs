//! The server configuration: its values, the checks a configuration must pass, and
//! the decisions that depend on it (response coding, access rules, CGI rules, TLS
//! version).
use vstd::prelude::*;
use vstd::string::StringSliceAdditionalSpecFns;
use crate::fields::Fields;
use crate::response::bytes_of;
use crate::text::{bytes_eq, copy_range, push_all, split, split_bytes, trim, trim_bytes, views};

verus! {

/// Which resources may be served; names are glob patterns relative to the document root,
/// values are `allow` or `deny`.
pub struct AccessControl {
    pub deny_action: u16,
    pub list: Fields,
}

/// Response compression settings.
pub struct Encoding {
    pub use_encoding: String,
    pub supported_encodings: Vec<String>,
    pub encoding_applicable_mime_types: Option<Vec<String>>,
}

/// TLS settings.
pub struct Https {
    pub enabled: bool,
    pub bind_port: u16,
    pub min_protocol_version: Option<String>,
    pub cipher_list: String,
    pub ssl_private_key_file: String,
    pub ssl_certificate_file: String,
}

/// CGI settings; each rule is a glob pattern relative to the document root and whether
/// resources it matches go to the CGI server.
pub struct CGI {
    pub enabled: bool,
    pub cgi_server: String,
    pub cgi_rules: Vec<(Vec<u8>, bool)>,
}

/// The server configuration.
pub struct Config {
    pub max_content_length: usize,
    pub global_response_headers: Option<Fields>,
    pub access_control: Option<AccessControl>,
    pub bind_host: String,
    pub bind_port: u16,
    pub endpoints: Option<Vec<String>>,
    pub endpoints_library: Option<String>,
    pub cache_max_age: u64,
    pub encoding: Option<Encoding>,
    pub document_root: String,
    pub server_root: String,
    pub https: Option<Https>,
    pub chroot: bool,
    pub enable_trace: bool,
    pub enable_server_header: bool,
    pub request_timeout: u64,
    pub be_verbose: bool,
    pub cgi: Option<CGI>,
    /// The index files tried, in order, for a directory.
    pub indices: Vec<String>,
    /// Glob patterns relative to the document root, and whether a directory they match is
    /// listed when it has no index file.
    pub index_of_page_rules: Vec<(Vec<u8>, bool)>,
}

/// Why a configuration is refused.
#[derive(Debug, Clone, Copy, PartialEq, Eq, Structural)]
pub enum ConfigError {
    /// `access_control.deny_action` is neither 404 nor 403.
    InvalidDenyAction,
    /// An `access_control.list` value is neither `allow` nor `deny`.
    InvalidAccessWord,
}

/// `s` is one of the texts in `v`.
pub open spec fn has_text(v: Seq<String>, s: Seq<char>) -> bool {
    exists|i: int| 0 <= i < v.len() && #[trigger] v[i]@ == s
}

/// Whether the comma-separated list `header` names `coding`, spaces around names ignored.
pub open spec fn accepts(header: Seq<u8>, coding: Seq<u8>) -> bool {
    exists|i: int| 0 <= i < split(header, 44).len() && trim(#[trigger] split(header, 44)[i]) == coding
}

/// `accept-encoding`
pub open spec fn accept_encoding_key() -> Seq<u8> {
    bytes_of("accept-encoding"@)
}

/// Whether a response body is compressed: the server has an encoding whose coding is among
/// its supported ones (else responses go uncompressed), the request has an
/// `accept-encoding` header that names it, the body is not empty, and the media type is
/// `text/*` or, for other types, among the types compression applies to.
pub open spec fn should_encode(
    encoding: Option<Encoding>,
    content: Seq<u8>,
    type_guess: Seq<char>,
    general_type: Seq<char>,
    headers: Map<Seq<u8>, Seq<u8>>,
) -> bool {
    match encoding {
        None => false,
        Some(e) => {
            &&& has_text(e.supported_encodings@, e.use_encoding@)
            &&& headers.contains_key(accept_encoding_key())
            &&& content.len() > 0
            &&& accepts(headers[accept_encoding_key()], bytes_of(e.use_encoding@))
            &&& (bytes_of(general_type) == bytes_of("text"@) || match e.encoding_applicable_mime_types {
                Some(types) => has_text(types@, type_guess),
                None => false,
            })
        },
    }
}

/// The request's `accept-encoding` value names `coding`.
pub fn accepted(header: &[u8], coding: &[u8]) -> (r: bool)
    ensures
        r == accepts(header@, coding@),
{
    let pieces = split_bytes(header, 44);
    let mut i: usize = 0;
    while i < pieces.len()
        invariant
            views(pieces@) == split(header@, 44),
            i <= pieces.len(),
            forall|k: int| 0 <= k < i ==> trim(#[trigger] split(header@, 44)[k]) != coding@,
        decreases pieces.len() - i,
    {
        assert(views(pieces@)[i as int] == pieces@[i as int]@);
        let t = trim_bytes(pieces[i].as_slice());
        if bytes_eq(t.as_slice(), coding) {
            return true;
        }
        i += 1;
    }
    false
}

/// Whether `s` is one of the texts in `v`.
pub fn contains_text(v: &Vec<String>, s: &String) -> (r: bool)
    ensures
        r == has_text(v@, s@),
{
    let mut i: usize = 0;
    while i < v.len()
        invariant
            i <= v.len(),
            forall|k: int| 0 <= k < i ==> v@[k]@ != s@,
        decreases v.len() - i,
    {
        if v[i] == *s {
            return true;
        }
        i += 1;
    }
    false
}

impl Config {
    /// The default limit on a request body: 1 GiB.
    pub fn default_max_content_length() -> (r: usize)
        ensures
            r == 1073741824,
    {
        1073741824
    }

    /// The `Server` header is sent unless configured otherwise.
    pub fn default_server_header_state() -> (r: bool)
        ensures
            r,
    {
        true
    }

    /// The default `max-age` of static resources: an hour.
    pub fn default_cache_max_age() -> (r: u64)
        ensures
            r == 3600,
    {
        3600
    }

    /// The default wait for a client's data: ten seconds.
    pub fn default_request_timeout() -> (r: u64)
        ensures
            r == 10,
    {
        10
    }

    /// The index files tried when none are configured: `index.html`.
    pub fn default_indices() -> (r: Vec<String>)
        ensures
            r@.len() == 1,
            r@[0]@ == "index.html"@,
    {
        let mut v: Vec<String> = Vec::new();
        v.push("index.html".to_owned());
        v
    }

    /// The glob pattern of index rule `i` under `document_root`.
    pub fn index_rule_pattern(&self, i: usize, document_root: &[u8]) -> (r: Vec<u8>)
        requires
            i < self.index_of_page_rules@.len(),
        ensures
            r@ == rule_pattern(document_root@, self.index_of_page_rules@[i as int].0@),
    {
        glob_pattern(document_root, self.index_of_page_rules[i].0.as_slice())
    }

    /// Whether the directory `resource` is listed when it has no index file, given for each
    /// index rule the paths its pattern matched on disk: the decision of the first rule
    /// that matched `<document_root>/<resource>`, or `false` (no listing) when none did.
    pub fn should_display_index_of(&self, resource: &[u8], document_root: &[u8], found: &Vec<
        Vec<Vec<u8>>,
    >) -> (r: bool)
        requires
            found@.len() == self.index_of_page_rules@.len(),
        ensures
            r == spec_cgi_choice(
                self.index_of_page_rules@,
                deep_views(found@),
                rule_pattern(document_root@, resource@),
                0,
            ),
    {
        first_rule_choice(&self.index_of_page_rules, resource, document_root, found)
    }

    /// The codings the server can decode, if it has any.
    pub fn get_supported_encodings(&self) -> (r: Option<&Vec<String>>)
        ensures
            match r {
                Some(v) => self.encoding is Some && *v == self.encoding->Some_0.supported_encodings
                    && v@.len() > 0,
                None => self.encoding is None || self.encoding->Some_0.supported_encodings@.len()
                    == 0,
            },
    {
        if let Some(encoding) = &self.encoding {
            let supported_encodings = &encoding.supported_encodings;
            if supported_encodings.len() != 0 {
                return Some(supported_encodings);
            }
        }
        None
    }

    /// The coding to compress a response body with, if any; see `should_encode`.
    pub fn get_response_encoding(
        &self,
        content: &Vec<u8>,
        type_guess: &String,
        type_: &String,
        headers: &Fields,
    ) -> (r: Option<&String>)
        ensures
            r is Some <==> should_encode(self.encoding, content@, type_guess@, type_@, headers.map()),
            r matches Some(e) ==> *e == self.encoding->Some_0.use_encoding,
    {
        if let Some(encoding) = &self.encoding {
            if !contains_text(&encoding.supported_encodings, &encoding.use_encoding) {
                return None;
            }
            if let Some(content_encoding) = headers.get("accept-encoding".as_bytes()) {
                let content_empty = content.len() == 0;
                let type_equals_text = bytes_eq(type_.as_str().as_bytes(), "text".as_bytes());
                let coding = encoding.use_encoding.as_str().as_bytes();
                if !content_empty && type_equals_text {
                    if accepted(content_encoding.as_slice(), coding) {
                        return Some(&encoding.use_encoding);
                    }
                    return None;
                }
                if !content_empty && !type_equals_text {
                    if let Some(types) = &encoding.encoding_applicable_mime_types {
                        if contains_text(types, type_guess) {
                            if accepted(content_encoding.as_slice(), coding) {
                                return Some(&encoding.use_encoding);
                            }
                        }
                    }
                }
            }
        }
        None
    }

    /// Checks what loading a configuration requires: a deny action of 404 or 403 and access
    /// rules that say `allow` or `deny`. A response coding outside the supported ones is
    /// accepted; responses then go uncompressed (see `should_encode`).
    pub fn validate(&self) -> (r: Result<(), ConfigError>)
        ensures
            r == spec_validate(self),
    {
        if let Some(access_control) = &self.access_control {
            if access_control.deny_action != 404 && access_control.deny_action != 403 {
                return Err(ConfigError::InvalidDenyAction);
            }
            let list = &access_control.list;
            let mut i: usize = 0;
            while i < list.len()
                invariant
                    i <= list@.len(),
                    self.access_control matches Some(a) && a.list@ == list@ && (a.deny_action
                        == 404 || a.deny_action == 403),
                    forall|k: int| 0 <= k < i ==> #[trigger] access_word_ok(list@[k].1),
                decreases list@.len() - i,
            {
                let v = list.value_at(i);
                if !bytes_eq(v.as_slice(), "allow".as_bytes()) && !bytes_eq(
                    v.as_slice(),
                    "deny".as_bytes(),
                ) {
                    assert(!access_word_ok(list@[i as int].1));
                    return Err(ConfigError::InvalidAccessWord);
                }
                i += 1;
            }
        }
        Ok(())
    }
}

/// An access rule says `allow` or `deny`.
pub open spec fn access_word_ok(v: Seq<u8>) -> bool {
    v == bytes_of("allow"@) || v == bytes_of("deny"@)
}

/// The checks that `Config::validate` makes, in its order.
pub open spec fn spec_validate(c: &Config) -> Result<(), ConfigError> {
    match c.access_control {
        Some(a) if a.deny_action != 404 && a.deny_action != 403 => Err(ConfigError::InvalidDenyAction),
        Some(a) if !(forall|k: int| 0 <= k < a.list@.len() ==> #[trigger] access_word_ok(a.list@[k].1)) => Err(
            ConfigError::InvalidAccessWord,
        ),
        _ => Ok(()),
    }
}

// ---------------------------------------------------------------------------
// Rules whose patterns are matched against the files under the document root
/// `<root>/<pattern>`: the glob pattern of a rule.
pub open spec fn rule_pattern(root: Seq<u8>, pattern: Seq<u8>) -> Seq<u8> {
    root + seq![47u8] + pattern
}

/// `<root>/<pattern>`.
pub fn glob_pattern(root: &[u8], pattern: &[u8]) -> (r: Vec<u8>)
    ensures
        r@ == rule_pattern(root@, pattern@),
{
    let mut out: Vec<u8> = Vec::new();
    push_all(&mut out, root);
    out.push(47);
    push_all(&mut out, pattern);
    out
}

/// `found[i]` holds the path `target`.
pub open spec fn found_in(found: Seq<Seq<Seq<u8>>>, i: int, target: Seq<u8>) -> bool {
    exists|j: int| 0 <= j < found[i].len() && #[trigger] found[i][j] == target
}

pub open spec fn deep_views(v: Seq<Vec<Vec<u8>>>) -> Seq<Seq<Seq<u8>>> {
    v.map_values(|x: Vec<Vec<u8>>| views(x@))
}

/// Whether `paths` holds `target`.
pub fn holds_path(paths: &Vec<Vec<u8>>, target: &[u8]) -> (r: bool)
    ensures
        r == exists|j: int| 0 <= j < paths@.len() && #[trigger] paths@[j]@ == target@,
{
    let mut j: usize = 0;
    while j < paths.len()
        invariant
            j <= paths@.len(),
            forall|k: int| 0 <= k < j ==> paths@[k]@ != target@,
        decreases paths.len() - j,
    {
        if bytes_eq(paths[j].as_slice(), target) {
            return true;
        }
        j += 1;
    }
    false
}

/// Access is denied exactly when a `deny` rule's pattern matched the resource's path.
pub open spec fn spec_access_allowed(
    rules: Seq<(Seq<u8>, Seq<u8>)>,
    found: Seq<Seq<Seq<u8>>>,
    target: Seq<u8>,
) -> bool {
    !exists|i: int|
        0 <= i < rules.len() && rules[i].1 == bytes_of("deny"@) && #[trigger] found_in(found, i, target)
}

impl AccessControl {
    /// The status for a denied resource when none is configured: 404, so that a client
    /// cannot tell a denied resource from a missing one.
    pub fn default_deny_action() -> (r: u16)
        ensures
            r == 404,
    {
        404
    }

    /// A list of rules and the status to send for a denied resource.
    pub fn new(deny_action: u16, list: Fields) -> (r: Self)
        ensures
            r.deny_action == deny_action,
            r.list@ == list@,
    {
        AccessControl { deny_action, list }
    }

    /// The glob pattern of rule `i` under `document_root`.
    pub fn pattern(&self, i: usize, document_root: &[u8]) -> (r: Vec<u8>)
        requires
            i < self.list@.len(),
        ensures
            r@ == rule_pattern(document_root@, self.list@[i as int].0),
    {
        glob_pattern(document_root, self.list.key_at(i).as_slice())
    }

    /// Whether `resource` may be served, given for each rule the paths its pattern
    /// matched on disk (`found[i]` for rule `i`): no `deny` rule matched
    /// `<document_root>/<resource>`.
    pub fn is_access_allowed(&self, resource: &[u8], document_root: &[u8], found: &Vec<
        Vec<Vec<u8>>,
    >) -> (r: bool)
        requires
            found@.len() == self.list@.len(),
        ensures
            r == spec_access_allowed(
                self.list@,
                deep_views(found@),
                rule_pattern(document_root@, resource@),
            ),
    {
        let target = glob_pattern(document_root, resource);
        let ghost fv = deep_views(found@);
        let mut i: usize = 0;
        while i < self.list.len()
            invariant
                i <= self.list@.len(),
                found@.len() == self.list@.len(),
                fv == deep_views(found@),
                target@ == rule_pattern(document_root@, resource@),
                forall|k: int|
                    0 <= k < i ==> !(self.list@[k].1 == bytes_of("deny"@) && #[trigger] found_in(
                        fv,
                        k,
                        target@,
                    )),
            decreases self.list@.len() - i,
        {
            let deny = bytes_eq(self.list.value_at(i).as_slice(), "deny".as_bytes());
            let hit = holds_path(&found[i], target.as_slice());
            assert(fv[i as int] == views(found@[i as int]@));
            if hit {
                let ghost j = choose|j: int| 0 <= j < found@[i as int]@.len() && #[trigger] found@[i as int]@[j]@ == target@;
                assert(fv[i as int][j] == target@);
                assert(found_in(fv, i as int, target@));
            }
            if !hit {
                assert forall|j: int| 0 <= j < fv[i as int].len() implies fv[i as int][j] != target@ by {
                    assert(fv[i as int][j] == found@[i as int]@[j]@);
                }
            }
            if deny && hit {
                return false;
            }
            i += 1;
        }
        true
    }
}

/// The decision of the first rule (in order) whose pattern matched the resource's path,
/// or `false` when none did.
pub open spec fn spec_cgi_choice(
    rules: Seq<(Vec<u8>, bool)>,
    found: Seq<Seq<Seq<u8>>>,
    target: Seq<u8>,
    from: int,
) -> bool
    decreases rules.len() - from,
{
    if from < 0 || from >= rules.len() {
        false
    } else if found_in(found, from, target) {
        rules[from].1
    } else {
        spec_cgi_choice(rules, found, target, from + 1)
    }
}

/// The decision of the first rule whose pattern matched `<document_root>/<resource>`, or
/// `false`; see `spec_cgi_choice`.
fn first_rule_choice(rules: &Vec<(Vec<u8>, bool)>, resource: &[u8], document_root: &[u8], found: &Vec<
    Vec<Vec<u8>>,
>) -> (r: bool)
    requires
        found@.len() == rules@.len(),
    ensures
        r == spec_cgi_choice(rules@, deep_views(found@), rule_pattern(document_root@, resource@), 0),
{
    let target = glob_pattern(document_root, resource);
    let ghost fv = deep_views(found@);
    let mut i: usize = 0;
    while i < rules.len()
        invariant
            i <= rules@.len(),
            found@.len() == rules@.len(),
            fv == deep_views(found@),
            target@ == rule_pattern(document_root@, resource@),
            spec_cgi_choice(rules@, fv, target@, i as int) == spec_cgi_choice(rules@, fv, target@, 0),
        decreases rules@.len() - i,
    {
        let hit = holds_path(&found[i], target.as_slice());
        assert(fv[i as int] == views(found@[i as int]@));
        if hit {
            let ghost j = choose|j: int| 0 <= j < found@[i as int]@.len() && #[trigger] found@[i as int]@[j]@ == target@;
            assert(fv[i as int][j] == target@);
            assert(found_in(fv, i as int, target@));
            return rules[i].1;
        }
        assert forall|j: int| 0 <= j < fv[i as int].len() implies fv[i as int][j] != target@ by {
            assert(fv[i as int][j] == found@[i as int]@[j]@);
        }
        i += 1;
    }
    false
}

impl CGI {
    /// CGI settings.
    pub fn new(enabled: bool, cgi_server: String, cgi_rules: Vec<(Vec<u8>, bool)>) -> (r: Self)
        ensures
            r.enabled == enabled,
            r.cgi_server == cgi_server,
            r.cgi_rules == cgi_rules,
    {
        CGI { enabled, cgi_server, cgi_rules }
    }

    /// The glob pattern of rule `i` under `document_root`.
    pub fn pattern(&self, i: usize, document_root: &[u8]) -> (r: Vec<u8>)
        requires
            i < self.cgi_rules@.len(),
        ensures
            r@ == rule_pattern(document_root@, self.cgi_rules@[i as int].0@),
    {
        glob_pattern(document_root, self.cgi_rules[i].0.as_slice())
    }

    /// Whether to hand `resource` to the CGI server, given for each rule the paths its
    /// pattern matched on disk: the decision of the first rule that matched
    /// `<document_root>/<resource>`, or `false`.
    pub fn should_attempt_cgi(&self, resource: &[u8], document_root: &[u8], found: &Vec<
        Vec<Vec<u8>>,
    >) -> (r: bool)
        requires
            found@.len() == self.cgi_rules@.len(),
        ensures
            r == spec_cgi_choice(
                self.cgi_rules@,
                deep_views(found@),
                rule_pattern(document_root@, resource@),
                0,
            ),
    {
        first_rule_choice(&self.cgi_rules, resource, document_root, found)
    }
}

// ---------------------------------------------------------------------------
// TLS
/// The lowest protocol version the server accepts.
#[derive(Debug, Clone, Copy, PartialEq, Eq, Structural)]
pub enum TlsVersion {
    Ssl3,
    Tls1,
    Tls1_1,
    Tls1_2,
    Tls1_3,
    Dtls1,
    Dtls1_2,
}

/// The version a configured name stands for; any other name, or none, leaves the
/// minimum open.
pub open spec fn spec_min_version(name: Option<Seq<char>>) -> Option<TlsVersion> {
    match name {
        Some(n) => if bytes_of(n) == bytes_of("SSL3"@) {
            Some(TlsVersion::Ssl3)
        } else if bytes_of(n) == bytes_of("TLS1.3"@) {
            Some(TlsVersion::Tls1_3)
        } else if bytes_of(n) == bytes_of("TLS1"@) {
            Some(TlsVersion::Tls1)
        } else if bytes_of(n) == bytes_of("DTLS1"@) {
            Some(TlsVersion::Dtls1)
        } else if bytes_of(n) == bytes_of("DTLS1.2"@) {
            Some(TlsVersion::Dtls1_2)
        } else if bytes_of(n) == bytes_of("TLS1.1"@) {
            Some(TlsVersion::Tls1_1)
        } else if bytes_of(n) == bytes_of("TLS1.2"@) {
            Some(TlsVersion::Tls1_2)
        } else {
            None
        },
        None => None,
    }
}

impl Https {
    /// The minimum protocol version that `min_protocol_version` names.
    pub fn min_proto_version(&self) -> (r: Option<TlsVersion>)
        ensures
            r == spec_min_version(
                match self.min_protocol_version {
                    Some(s) => Some(s@),
                    None => None,
                },
            ),
    {
        match &self.min_protocol_version {
            Some(v) => {
                let b = v.as_str().as_bytes();
                if bytes_eq(b, "SSL3".as_bytes()) {
                    Some(TlsVersion::Ssl3)
                } else if bytes_eq(b, "TLS1.3".as_bytes()) {
                    Some(TlsVersion::Tls1_3)
                } else if bytes_eq(b, "TLS1".as_bytes()) {
                    Some(TlsVersion::Tls1)
                } else if bytes_eq(b, "DTLS1".as_bytes()) {
                    Some(TlsVersion::Dtls1)
                } else if bytes_eq(b, "DTLS1.2".as_bytes()) {
                    Some(TlsVersion::Dtls1_2)
                } else if bytes_eq(b, "TLS1.1".as_bytes()) {
                    Some(TlsVersion::Tls1_1)
                } else if bytes_eq(b, "TLS1.2".as_bytes()) {
                    Some(TlsVersion::Tls1_2)
                } else {
                    None
                }
            },
            None => None,
        }
    }

    /// The TLS 1.3 cipher suites to use; see `spec_ciphersuites`.
    pub fn ciphersuites(&self) -> (r: Vec<u8>)
        ensures
            r@ == spec_ciphersuites(bytes_of(self.cipher_list@)),
    {
        let list = self.cipher_list.as_str().as_bytes();
        let pieces = split_bytes(list, 58);
        let ghost p = views(pieces@);
        let mut out: Vec<u8> = Vec::new();
        let mut i: usize = 0;
        while i < pieces.len()
            invariant
                p == views(pieces@),
                p == split(list@, 58),
                i <= pieces@.len(),
                out@ == kept_suites(p.subrange(0, i as int)),
            decreases pieces.len() - i,
        {
            let name = pieces[i].as_slice();
            assert(p[i as int] == name@);
            assert(p.subrange(0, i + 1).drop_last() == p.subrange(0, i as int));
            assert(p.subrange(0, i + 1).last() == name@);
            if known_suite_exec(name) {
                if out.len() > 0 {
                    out.push(58);
                }
                push_all(&mut out, name);
            }
            i += 1;
        }
        assert(p.subrange(0, i as int) == p);
        if out.len() == 0 {
            let d = "TLS_AES_256_GCM_SHA384:TLS_CHACHA20_POLY1305_SHA256:TLS_AES_128_GCM_SHA256".as_bytes();
            copy_range(d, 0, d.len())
        } else {
            out
        }
    }
}

/// One of the TLS 1.3 cipher suites `cipher_list` may name.
pub open spec fn known_suite(n: Seq<u8>) -> bool {
    ||| n == bytes_of("TLS_AES_128_GCM_SHA256"@)
    ||| n == bytes_of("TLS_AES_256_GCM_SHA384"@)
    ||| n == bytes_of("TLS_CHACHA20_POLY1305_SHA256"@)
    ||| n == bytes_of("TLS_AES_128_CCM_SHA256"@)
    ||| n == bytes_of("TLS_AES_128_CCM_8_SHA256"@)
    ||| n == bytes_of("TLS_SHA384_SHA384"@)
    ||| n == bytes_of("TLS_SHA256_SHA256"@)
}

fn known_suite_exec(n: &[u8]) -> (r: bool)
    ensures
        r == known_suite(n@),
{
    bytes_eq(n, "TLS_AES_128_GCM_SHA256".as_bytes()) || bytes_eq(n, "TLS_AES_256_GCM_SHA384".as_bytes())
        || bytes_eq(n, "TLS_CHACHA20_POLY1305_SHA256".as_bytes()) || bytes_eq(
        n,
        "TLS_AES_128_CCM_SHA256".as_bytes(),
    ) || bytes_eq(n, "TLS_AES_128_CCM_8_SHA256".as_bytes()) || bytes_eq(n, "TLS_SHA384_SHA384".as_bytes())
        || bytes_eq(n, "TLS_SHA256_SHA256".as_bytes())
}

/// The known suites among `names`, in order, joined by `:`.
pub open spec fn kept_suites(names: Seq<Seq<u8>>) -> Seq<u8>
    decreases names.len(),
{
    if names.len() == 0 {
        Seq::empty()
    } else {
        let j = kept_suites(names.drop_last());
        if known_suite(names.last()) {
            if j.len() == 0 {
                names.last()
            } else {
                j + seq![58u8] + names.last()
            }
        } else {
            j
        }
    }
}

/// The suites the server uses when `cipher_list` names none it knows.
pub open spec fn default_suites() -> Seq<u8> {
    bytes_of("TLS_AES_256_GCM_SHA384:TLS_CHACHA20_POLY1305_SHA256:TLS_AES_128_GCM_SHA256"@)
}

/// The TLS 1.3 cipher suites the server configures (through OpenSSL's cipher-suite call):
/// those of the colon-separated `cipher_list` that are among the known ones, in order; or
/// the default suites when it names none of them.
pub open spec fn spec_ciphersuites(cipher_list: Seq<u8>) -> Seq<u8> {
    let k = kept_suites(split(cipher_list, 58));
    if k.len() == 0 {
        default_suites()
    } else {
        k
    }
}

} // verus!
