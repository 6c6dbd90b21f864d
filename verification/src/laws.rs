//! Properties of the server that span its functions.
use vstd::prelude::*;
use crate::body::{content_length_key, spec_body_length};
use crate::config::{found_in, has_text, should_encode, spec_access_allowed, spec_cgi_choice, Config};
use crate::fields::{as_map, distinct_keys, drop_entry, lemma_merge, missing_from};
use crate::response::{bytes_of, global_fields, written_fields, header_block, length_line, spec_response, status_line, date_line, reason};
use crate::text::{
    decimal, find_from, has_prefix_at, is_alnum, lemma_decimal_digits, lemma_find_beyond, lemma_find_exact,
    parse_unsigned, skip_ws, back_ws, trim, unsigned_digits, ws_at, ws_before, lowercase,
};
use crate::request::{
    asks_close, header_lines_from, header_pair, header_pairs, host_key, http11, is_word,
    is_value_char, line_content_end, method_end, name_char_ok, method_name, method_of, parse_panics,
    path_char_ok, request_line_ok, spec_parse, target_end, valid_header_line, valid_header_name,
    valid_path, valid_target, version_at, version_is_http11, Method, RequestView,
};
use crate::fields::{fold_pairs, has_key, value_for};
use crate::mime::parsed_type;
use crate::date::{fields_in_range, month_name, spec_http_date, weekday_name, year_text, DateFields};
use crate::cgi::{base_env, header_vars, http_var, slash_join, spec_cgi_env, CgiContext};
use crate::text::split;
use crate::gateway::{spec_cgi_step, CgiActionView, CgiEventView, CgiRunView, CgiStageView, Outcome};
use crate::handler::{deny_status, serves_documents, spec_start, spec_step, ActionView, EventView, HandlerView, StageView, Verb};
use crate::routing::{content_type_key, max_age, spec_dynamic_plan, spec_static_plan};

verus! {

/// A length the server writes as `Content-Length` reads back as the same number, and a
/// request body announced with it is taken at that length when the limit allows.
pub proof fn law_content_length_read_back(n: nat, max: usize)
    ensures
        n <= usize::MAX ==> parse_unsigned(decimal(n), usize::MAX as nat) == Some(n),
        0 < n <= max ==> spec_body_length(
            Map::<Seq<u8>, Seq<u8>>::empty().insert(content_length_key(), decimal(n)),
            max,
        ) == Ok::<usize, crate::error::ServerError>(n as usize),
{
    lemma_decimal_digits(n);
    assert(decimal(n)[0] != 43) by {
        assert(crate::text::is_digit(decimal(n)[0]));
    }
    assert(unsigned_digits(decimal(n)) == decimal(n));
}

/// In a response, a header field that the page set wins over a global one of the same
/// name, and every global field whose name the page did not set is sent too.
pub proof fn law_local_headers_override(local: Seq<(Seq<u8>, Seq<u8>)>, global: Seq<(Seq<u8>, Seq<u8>)>)
    requires
        distinct_keys(local),
        distinct_keys(global),
    ensures
        as_map(local + missing_from(local, global)) == as_map(global).union_prefer_right(as_map(local)),
{
    lemma_merge(local, global);
}

/// The `Content-Length` of a response with header fields and a body is the length of the
/// body that follows the blank line.
pub proof fn law_content_length_matches_body(
    status: u16,
    date: Seq<u8>,
    local: Seq<(Seq<u8>, Seq<u8>)>,
    content: Seq<u8>,
    global: Seq<(Seq<u8>, Seq<u8>)>,
    error: bool,
)
    requires
        reason(status) is Some,
    ensures
        exists|head: Seq<u8>, body: Seq<u8>|
            spec_response(status, date, Some(local), Some(content), global, error) == Some(
                head + length_line(body.len()) + body,
            ),
{
    let phrase = reason(status).unwrap();
    let m = written_fields(Some(local), true, global, error);
    let coding = if as_map(m).contains_key(bytes_of("Content-Encoding"@)) {
        Some(as_map(m)[bytes_of("Content-Encoding"@)])
    } else {
        None
    };
    let body = crate::response::encoded_body(coding, trim(content));
    let head = status_line(status, phrase) + date_line(date) + header_block(m);
    assert(spec_response(status, date, Some(local), Some(content), global, error) == Some(
        head + length_line(body.len()) + body,
    ));
}

/// A global header field is written on every response that has fields of its own,
/// unless a local field of the same name replaces it, and for an error `Connection: close`
/// is written as well; the `Server` header is written on every response, with or without
/// local fields or body.
pub proof fn law_global_fields_always_written(
    local: Option<Seq<(Seq<u8>, Seq<u8>)>>,
    has_body: bool,
    global: Seq<(Seq<u8>, Seq<u8>)>,
    error: bool,
    name: Seq<u8>,
)
    requires
        local matches Some(h) ==> distinct_keys(h),
        distinct_keys(global),
        as_map(global).contains_key(name),
        name != bytes_of("Connection"@) || !error,
        local is Some || name == bytes_of("Server"@),
    ensures
        as_map(written_fields(local, has_body, global, error)).contains_key(name),
        (local matches Some(h) ==> !as_map(h).contains_key(name)) ==> as_map(
            written_fields(local, has_body, global, error),
        )[name] == as_map(global)[name],
        error && local is Some ==> as_map(written_fields(local, has_body, global, error))[bytes_of(
            "Connection"@,
        )] == bytes_of("close"@) || (local matches Some(h) && as_map(h).contains_key(bytes_of("Connection"@))),
{
    let g = global_fields(global, error);
    if error {
        crate::fields::lemma_set_entry(global, bytes_of("Connection"@), bytes_of("close"@));
    }
    assert(distinct_keys(g));
    match local {
        Some(h) => {
            let d1 = drop_entry(h, bytes_of("Date"@));
            crate::fields::lemma_drop_entry(h, bytes_of("Date"@));
            let h1 = if has_body {
                crate::fields::lemma_drop_entry(d1, bytes_of("Content-Length"@));
                drop_entry(d1, bytes_of("Content-Length"@))
            } else {
                d1
            };
            lemma_merge(h1, g);
        },
        None => {
            let w = crate::response::server_field(g);
            assert(as_map(g).contains_key(name));
            assert(w[0].0 == name);
            assert(has_key(w, name));
            assert(distinct_keys(w));
            assert(value_for(w, name) == w[0].1);
        },
    }
}

/// Responses are compressed only with a coding the server supports: a configured coding
/// that is not among the supported ones leaves every response uncompressed.
pub proof fn law_response_coding_is_supported(
    c: &Config,
    content: Seq<u8>,
    type_guess: Seq<char>,
    general_type: Seq<char>,
    headers: Map<Seq<u8>, Seq<u8>>,
)
    ensures
        should_encode(c.encoding, content, type_guess, general_type, headers) ==> c.encoding is Some
            && has_text(c.encoding->Some_0.supported_encodings@, c.encoding->Some_0.use_encoding@),
        c.encoding matches Some(e) && !has_text(e.supported_encodings@, e.use_encoding@) ==> !should_encode(
            c.encoding,
            content,
            type_guess,
            general_type,
            headers,
        ),
{
}

/// Access is allowed unless a rule says `deny`: without `deny` rules every resource may
/// be served.
pub proof fn law_access_allowed_by_default(
    rules: Seq<(Seq<u8>, Seq<u8>)>,
    found: Seq<Seq<Seq<u8>>>,
    target: Seq<u8>,
)
    requires
        forall|i: int| 0 <= i < rules.len() ==> rules[i].1 != bytes_of("deny"@),
    ensures
        spec_access_allowed(rules, found, target),
{
}

/// A `deny` rule that matches the resource denies it, whatever other rules say.
pub proof fn law_deny_wins(rules: Seq<(Seq<u8>, Seq<u8>)>, found: Seq<Seq<Seq<u8>>>, target: Seq<u8>, i: int)
    requires
        0 <= i < rules.len(),
        rules[i].1 == bytes_of("deny"@),
        found_in(found, i, target),
    ensures
        !spec_access_allowed(rules, found, target),
{
}

/// A resource that no CGI rule matches is not handed to the CGI server.
pub proof fn law_cgi_off_by_default(rules: Seq<(Vec<u8>, bool)>, found: Seq<Seq<Seq<u8>>>, target: Seq<u8>, from: int)
    requires
        forall|i: int| 0 <= i < rules.len() ==> !found_in(found, i, target),
    ensures
        !spec_cgi_choice(rules, found, target, from),
    decreases rules.len() - from,
{
    if 0 <= from < rules.len() {
        law_cgi_off_by_default(rules, found, target, from + 1);
    }
}

/// A dynamic page that declares no `Content-Type` is answered without a body, whatever
/// it returned.
pub proof fn law_dynamic_body_needs_content_type(
    encoding: Option<crate::config::Encoding>,
    request_headers: Map<Seq<u8>, Seq<u8>>,
    status: u16,
    headers: Map<Seq<u8>, Seq<u8>>,
    content: Option<Seq<u8>>,
    follow_location: bool,
)
    requires
        !headers.contains_key(content_type_key()),
    ensures
        spec_dynamic_plan(encoding, request_headers, status, headers, content, follow_location).2
            is None,
{
}

/// A page that sets `Location` where redirects are followed is answered with 302, unless
/// it sent a body whose declared media type does not parse.
pub proof fn law_location_redirects(
    encoding: Option<crate::config::Encoding>,
    request_headers: Map<Seq<u8>, Seq<u8>>,
    status: u16,
    headers: Map<Seq<u8>, Seq<u8>>,
    content: Option<Seq<u8>>,
)
    requires
        headers.contains_key(bytes_of("location"@)),
        !(content is Some && headers.contains_key(content_type_key()) && parsed_type(
            headers[content_type_key()],
        ) is None),
    ensures
        spec_dynamic_plan(encoding, request_headers, status, headers, content, true).0 == 302,
{
}

/// `PUT`, `DELETE` and `PATCH` are refused with 405 unless the endpoint library is loaded
/// (and endpoints are configured), whatever the resource.
pub proof fn law_endpoint_methods_need_library(c: Config, verb: Verb, target: Seq<u8>)
    requires
        !serves_documents(verb),
    ensures
        (spec_start(c, false, verb, target).1 matches ActionView::Send { status, .. } && status == 405),
{
}

/// A resource the access rules deny is answered with the configured deny action: by the
/// library's page of that status, or by the bare status.
pub proof fn law_denied_with_deny_action(
    c: Config,
    library: bool,
    request_headers: Map<Seq<u8>, Seq<u8>>,
    known_etags: Seq<Seq<u8>>,
    h: HandlerView,
)
    requires
        h.stage == StageView::Access,
    ensures
        match spec_step(c, library, request_headers, known_etags, h, EventView::Access(false)).1 {
            ActionView::CallPage { status, .. } => status == deny_status(c),
            ActionView::Send { status, content, .. } => status == deny_status(c) && content is None,
            _ => false,
        },
{
}

/// The CGI server is only ever run on a script path under the document root.
pub proof fn law_cgi_scripts_under_root(c: Config, library: bool, run: CgiRunView, e: CgiEventView)
    ensures
        spec_cgi_step(c, library, run, e).1 matches CgiActionView::Run { script_filename, .. }
            ==> script_filename.len() >= run.root.len() && script_filename.subrange(
            0,
            run.root.len() as int,
        ) == run.root,
{
    match (run.stage, e) {
        (CgiStageView::Script { validated, pos }, CgiEventView::ScriptIsFile(found)) => {
            let rest = slash_join(split(validated, 47), 1, pos as int);
            let f = crate::cgi::script_filename(run.root, validated, pos as int);
            assert(f == run.root + rest);
            assert(f.subrange(0, run.root.len() as int) =~= run.root);
        },
        _ => {},
    }
}

/// A denied resource is never handed to the CGI server: the attempt ends at once with a
/// page or the bare deny status.
pub proof fn law_cgi_denied_not_run(c: Config, library: bool, run: CgiRunView)
    requires
        run.stage == CgiStageView::Access,
    ensures
        spec_cgi_step(c, library, run, CgiEventView::Access(false)).0.stage == CgiStageView::Finished,
        spec_cgi_step(c, library, run, CgiEventView::Access(false)).1 is CallPage
            || spec_cgi_step(c, library, run, CgiEventView::Access(false)).1 matches CgiActionView::Send { then: Outcome::Denied, .. },
{
}

/// A CGI program never gets the request's `Content-Type` or `Content-Length` header as an
/// `HTTP_` variable; with a body it gets the body's media type in `CONTENT_TYPE` and the
/// body's length in `CONTENT_LENGTH`.
pub proof fn law_cgi_body_variables(
    c: CgiContext,
    headers: Seq<(Seq<u8>, Seq<u8>)>,
    body: Option<(Seq<u8>, Seq<char>)>,
)
    ensures
        !spec_cgi_env(c, headers, body).contains_key(bytes_of("HTTP_CONTENT_TYPE"@)),
        !spec_cgi_env(c, headers, body).contains_key(bytes_of("HTTP_CONTENT_LENGTH"@)),
        body matches Some((data, media)) ==> spec_cgi_env(c, headers, body)[bytes_of("CONTENT_TYPE"@)]
            == bytes_of(media) && spec_cgi_env(c, headers, body)[bytes_of("CONTENT_LENGTH"@)] == decimal(
            data.len(),
        ),
{
    reveal_strlit("HTTP_CONTENT_TYPE");
    reveal_strlit("HTTP_CONTENT_LENGTH");
    reveal_strlit("CONTENT_TYPE");
    reveal_strlit("CONTENT_LENGTH");
    assert(vstd::utf8::is_ascii_chars("HTTP_CONTENT_TYPE"@));
    assert(vstd::utf8::is_ascii_chars("HTTP_CONTENT_LENGTH"@));
    assert(vstd::utf8::is_ascii_chars("CONTENT_TYPE"@));
    assert(vstd::utf8::is_ascii_chars("CONTENT_LENGTH"@));
    vstd::utf8::is_ascii_chars_encode_utf8("HTTP_CONTENT_TYPE"@);
    vstd::utf8::is_ascii_chars_encode_utf8("HTTP_CONTENT_LENGTH"@);
    vstd::utf8::is_ascii_chars_encode_utf8("CONTENT_TYPE"@);
    vstd::utf8::is_ascii_chars_encode_utf8("CONTENT_LENGTH"@);
    assert(bytes_of("CONTENT_TYPE"@)[0] != bytes_of("HTTP_CONTENT_TYPE"@)[0]);
    assert(bytes_of("CONTENT_TYPE"@)[0] != bytes_of("HTTP_CONTENT_LENGTH"@)[0]);
    assert(bytes_of("CONTENT_LENGTH"@)[0] != bytes_of("HTTP_CONTENT_TYPE"@)[0]);
    assert(bytes_of("CONTENT_LENGTH"@)[0] != bytes_of("HTTP_CONTENT_LENGTH"@)[0]);
    assert(bytes_of("CONTENT_LENGTH"@)[8] != bytes_of("CONTENT_TYPE"@)[8]);
}

spec fn pow10(d: nat) -> nat
    decreases d,
{
    if d == 0 {
        1
    } else {
        10 * pow10((d - 1) as nat)
    }
}

proof fn lemma_decimal_len(n: nat, d: nat)
    requires
        d >= 1,
        n < pow10(d),
    ensures
        decimal(n).len() <= d,
    decreases d,
{
    if n >= 10 {
        if d == 1 {
            assert(pow10(1) == 10 * pow10(0));
            assert(false);
        }
        let e = (d - 1) as nat;
        assert(pow10(d) == 10 * pow10(e));
        assert(n / 10 < pow10(e)) by (nonlinear_arith)
            requires
                n < 10 * pow10(e),
        ;
        lemma_decimal_len(n / 10, e);
    }
}

proof fn lemma_ascii_len(s: Seq<char>)
    requires
        vstd::utf8::is_ascii_chars(s),
    ensures
        bytes_of(s).len() == s.len(),
{
    vstd::utf8::is_ascii_chars_encode_utf8(s);
}

proof fn lemma_name_lengths(d: DateFields)
    ensures
        bytes_of(weekday_name(d.weekday)).len() == 3,
        bytes_of(month_name(d.month)).len() == 3,
{
    reveal_strlit("Mon");
    reveal_strlit("Tue");
    reveal_strlit("Wed");
    reveal_strlit("Thu");
    reveal_strlit("Fri");
    reveal_strlit("Sat");
    reveal_strlit("Sun");
    reveal_strlit("Jan");
    reveal_strlit("Feb");
    reveal_strlit("Mar");
    reveal_strlit("Apr");
    reveal_strlit("May");
    reveal_strlit("Jun");
    reveal_strlit("Jul");
    reveal_strlit("Aug");
    reveal_strlit("Sep");
    reveal_strlit("Oct");
    reveal_strlit("Nov");
    reveal_strlit("Dec");
    let w = weekday_name(d.weekday);
    let m = month_name(d.month);
    assert(vstd::utf8::is_ascii_chars(w));
    assert(vstd::utf8::is_ascii_chars(m));
    lemma_ascii_len(w);
    lemma_ascii_len(m);
}

/// The `Date` header of a year from 0 to 9999 always has the fixed width of 29 bytes
/// (`Sun, 06 Nov 1994 08:49:37 GMT`).
pub proof fn law_http_date_width(d: DateFields)
    requires
        fields_in_range(d),
        0 <= d.year <= 9999,
    ensures
        spec_http_date(d).len() == 29,
{
    lemma_name_lengths(d);
    reveal_strlit(", ");
    reveal_strlit(" ");
    reveal_strlit(":");
    reveal_strlit(" GMT");
    lemma_ascii_len(", "@);
    lemma_ascii_len(" "@);
    lemma_ascii_len(":"@);
    lemma_ascii_len(" GMT"@);
    assert(pow10(4) == 10000) by {
        reveal_with_fuel(pow10, 5);
    }
    lemma_decimal_len(d.year as nat, 4);
    assert(year_text(d.year as int).len() == 4);
}

/// A directory that has none of the index files and no index endpoint is listed only
/// where an index rule says so; otherwise it is answered like a missing file (the
/// `not_found` page or a bare 404), and without index rules that is always so.
pub proof fn law_no_listing_without_rule(
    c: Config,
    library: bool,
    request_headers: Map<Seq<u8>, Seq<u8>>,
    known_etags: Seq<Seq<u8>>,
    h: HandlerView,
    found: Seq<Seq<Seq<u8>>>,
    target: Seq<u8>,
)
    requires
        h.stage == StageView::IndexRules,
        c.index_of_page_rules@.len() == 0,
    ensures
        !spec_cgi_choice(c.index_of_page_rules@, found, target, 0),
        match spec_step(c, library, request_headers, known_etags, h, EventView::IndexRules(false)).1 {
            ActionView::CallPage { status, .. } => status == 404,
            ActionView::Send { status, content, .. } => status == 404 && content is None,
            _ => false,
        },
{
}

/// Every answer made from a static file carries `Cache-Control: max-age=<n>`: the 200 with
/// the file, the 200 for an empty file and the 304 for a known entity tag.
pub proof fn law_static_cache_control(
    encoding: Option<crate::config::Encoding>,
    cache_max_age: u64,
    request_headers: Map<Seq<u8>, Seq<u8>>,
    content: Seq<u8>,
    guess: Seq<char>,
    general: Seq<char>,
    known: Seq<Seq<u8>>,
)
    ensures
        spec_static_plan(encoding, cache_max_age, request_headers, content, guess, general, known).1.contains_key(
            bytes_of("Cache-Control"@),
        ),
        spec_static_plan(encoding, cache_max_age, request_headers, content, guess, general, known).1[bytes_of(
            "Cache-Control"@,
        )] == max_age(cache_max_age),
{
    reveal_strlit("ETag");
    reveal_strlit("Cache-Control");
    assert(vstd::utf8::is_ascii_chars("ETag"@));
    assert(vstd::utf8::is_ascii_chars("Cache-Control"@));
    vstd::utf8::is_ascii_chars_encode_utf8("ETag"@);
    vstd::utf8::is_ascii_chars_encode_utf8("Cache-Control"@);
    assert(bytes_of("ETag"@)[0] != bytes_of("Cache-Control"@)[0]);
}

/// `GET /<path> HTTP/1.1`, then `Host: <host>`, then a blank line.
pub open spec fn simple_request(m: Method, path: Seq<u8>, host: Seq<u8>) -> Seq<u8> {
    method_name(m) + seq![32u8, 47u8] + path + seq![32u8] + http11() + seq![13u8, 10u8] + seq![
        'H' as u8,
        'o' as u8,
        's' as u8,
        't' as u8,
        58u8,
        32u8,
    ] + host + seq![13u8, 10u8, 13u8, 10u8]
}

proof fn lemma_method_bytes(m: Method)
    ensures
        3 <= method_name(m).len() <= 7,
        forall|k: int| 0 <= k < method_name(m).len() ==> 65 <= #[trigger] method_name(m)[k] <= 90,
        method_of(method_name(m)) == Some(m),
{
}

/// The parts of such a request are well formed: a method other than `TRACE`, `CONNECT`
/// and `OPTIONS` (whose requests read back otherwise), a path the grammar takes or none,
/// and a `Host` value of header characters without spaces around it.
pub open spec fn simple_ok(m: Method, path: Seq<u8>, host: Seq<u8>) -> bool {
    &&& m != Method::Trace && m != Method::Connect && m != Method::Options
    &&& (path.len() == 0 || valid_path(path))
    &&& host.len() > 0
    &&& forall|i: int| 0 <= i < host.len() ==> is_value_char(#[trigger] host[i])
    &&& host[0] != 32
    &&& host[host.len() - 1] != 32
}

proof fn lemma_simple_layout(m: Method, path: Seq<u8>, host: Seq<u8>)
    requires
        simple_ok(m, path, host),
    ensures
        ({
            let s = simple_request(m, path, host);
            let l = method_name(m).len() as int;
            let p = path.len() as int;
            let te = l + 2 + p;
            let hs = te + 11;
            let hl = host.len() as int;
            let nl2 = hs + 6 + hl + 1;
            &&& 3 <= l <= 7
            &&& s.len() == nl2 + 3
            &&& forall|k: int| 0 <= k < l ==> 65 <= #[trigger] s[k] <= 90
            &&& s.subrange(0, l) == method_name(m)
            &&& s[l] == 32 && s[l + 1] == 47
            &&& forall|k: int| l + 2 <= k < te ==> #[trigger] s[k] != 32 && s[k] != 10 && s[k] != 63
            &&& s.subrange(l + 1, te) == seq![47u8] + path
            &&& s[te] == 32
            &&& s.subrange(te + 1, te + 9) == http11()
            &&& s[te + 9] == 13 && s[te + 10] == 10
            &&& s.subrange(hs, nl2 - 1) == seq!['H' as u8, 'o' as u8, 's' as u8, 't' as u8, 58u8, 32u8] + host
            &&& forall|k: int| hs <= k < nl2 - 1 ==> #[trigger] s[k] != 10
            &&& s[nl2 - 1] == 13 && s[nl2] == 10 && s[nl2 + 1] == 13 && s[nl2 + 2] == 10
        }),
{
    let s = simple_request(m, path, host);
    let mn = method_name(m);
    lemma_method_bytes(m);
    let l = mn.len() as int;
    let p = path.len() as int;
    let te = l + 2 + p;
    let hs = te + 11;
    let hl = host.len() as int;
    let nl2 = hs + 6 + hl + 1;
    assert forall|k: int| 0 <= k < l implies s[k] == mn[k] by {}
    assert(s.subrange(0, l) =~= mn);
    assert forall|k: int| 0 <= k < p implies path[k] != 32 && path[k] != 10 && path[k] != 63 by {
        assert(path_char_ok(path, k));
    }
    assert forall|k: int| l + 2 <= k < te implies #[trigger] s[k] != 32 && s[k] != 10 && s[k] != 63 by {
        assert(s[k] == path[k - l - 2]);
    }
    assert(s.subrange(l + 1, te) =~= seq![47u8] + path);
    assert(s.subrange(te + 1, te + 9) =~= http11());
    assert(s.subrange(hs, nl2 - 1) =~= seq!['H' as u8, 'o' as u8, 's' as u8, 't' as u8, 58u8, 32u8] + host);
    assert forall|k: int| hs <= k < nl2 - 1 implies #[trigger] s[k] != 10 by {
        if k >= hs + 6 {
            assert(s[k] == host[k - hs - 6]);
            assert(is_value_char(host[k - hs - 6]));
        }
    }
}

proof fn lemma_first_line_of(s: Seq<u8>, m: Method, path: Seq<u8>, l: int, te: int)
    requires
        3 <= l <= 7,
        te == l + 2 + path.len(),
        s.len() > te + 10,
        forall|k: int| 0 <= k < l ==> 65 <= #[trigger] s[k] <= 90,
        s.subrange(0, l) == method_name(m),
        method_of(method_name(m)) == Some(m),
        path.len() == 0 || valid_path(path),
        s[l] == 32 && s[l + 1] == 47,
        forall|k: int| l + 2 <= k < te ==> #[trigger] s[k] != 32 && s[k] != 10 && s[k] != 63,
        s.subrange(l + 1, te) == seq![47u8] + path,
        s[te] == 32,
        s.subrange(te + 1, te + 9) == http11(),
        s[te + 9] == 13 && s[te + 10] == 10,
    ensures
        method_end(s) == l,
        target_end(s) == te,
        request_line_ok(s),
        method_of(s.subrange(0, l)) == Some(m),
        line_content_end(s, 0) == te + 9,
        version_is_http11(s),
        crate::request::query_mark(s) >= te,
        !crate::request::line_has_question(s),
        find_from(s, 10, 0) == te + 10,
{
    lemma_find_exact(s, 32, 0, l);
    lemma_find_exact(s, 32, l + 1, te);
    let t = s.subrange(l + 1, te);
    assert(t.subrange(1, t.len() as int) =~= path);
    assert forall|k: int| 1 <= k < t.len() implies t[k] != 63 by {
        assert(t[k] == s[l + 1 + k]);
    }
    lemma_find_exact(t, 63, 1, t.len() as int);
    assert(valid_target(t));
    let h = seq!['H' as u8, 'T' as u8, 'T' as u8, 'P' as u8, '/' as u8];
    assert(h + seq!['1' as u8, '.' as u8, '1' as u8] =~= http11());
    assert(has_prefix_at(s, te + 1, http11()));
    assert(version_at(s, te + 1));
    assert forall|k: int| 0 <= k < te + 9 implies s[k] != 10 && s[k] != 63 by {
        if k >= te + 1 && k < te + 9 {
            assert(s[k] == s.subrange(te + 1, te + 9)[k - te - 1]);
        }
    }
    lemma_find_exact(s, 10, 0, te + 10);
    lemma_find_beyond(s, 63, l + 1, te);
    lemma_find_beyond(s, 63, 0, te + 9);
}

proof fn lemma_simple_first_line(m: Method, path: Seq<u8>, host: Seq<u8>)
    requires
        simple_ok(m, path, host),
    ensures
        ({
            let s = simple_request(m, path, host);
            let l = method_name(m).len() as int;
            let te = l + 2 + path.len();
            &&& method_end(s) == l
            &&& target_end(s) == te
            &&& request_line_ok(s)
            &&& method_of(s.subrange(0, l)) == Some(m)
            &&& line_content_end(s, 0) == te + 9
            &&& version_is_http11(s)
            &&& crate::request::query_mark(s) >= te
            &&& !crate::request::line_has_question(s)
            &&& find_from(s, 10, 0) == te + 10
        }),
{
    lemma_simple_layout(m, path, host);
    lemma_method_bytes(m);
    let l = method_name(m).len() as int;
    lemma_first_line_of(simple_request(m, path, host), m, path, l, l + 2 + path.len());
}

#[verifier::rlimit(80)]
#[verifier::spinoff_prover]
proof fn lemma_headers_of(s: Seq<u8>, host: Seq<u8>, hs: int, nl2: int)
    requires
        0 <= hs,
        nl2 == hs + 6 + host.len() + 1,
        s.len() == nl2 + 3,
        host.len() > 0,
        forall|i: int| 0 <= i < host.len() ==> is_value_char(#[trigger] host[i]),
        host[0] != 32,
        host[host.len() - 1] != 32,
        s.subrange(hs, nl2 - 1) == seq!['H' as u8, 'o' as u8, 's' as u8, 't' as u8, 58u8, 32u8] + host,
        forall|k: int| hs <= k < nl2 - 1 ==> #[trigger] s[k] != 10,
        s[nl2 - 1] == 13 && s[nl2] == 10 && s[nl2 + 1] == 13 && s[nl2 + 2] == 10,
    ensures
        header_lines_from(s, hs) == seq![(host_key(), host)],
{
    lemma_find_exact(s, 10, hs, nl2);
    let line = s.subrange(hs, nl2 - 1);
    assert(line_content_end(s, hs) == nl2 - 1);
    assert(line[4] == 58);
    lemma_find_exact(line, 58, 0, 4);
    let name = line.subrange(0, 4);
    assert(name =~= seq!['H' as u8, 'o' as u8, 's' as u8, 't' as u8]);
    assert(valid_header_name(name));
    assert forall|i: int| 6 <= i < line.len() implies is_value_char(#[trigger] line[i]) by {
        assert(line[i] == host[i - 6]);
    }
    assert(valid_header_line(line));
    assert(skip_ws(name, 0) == 0);
    assert(ws_before(name, 4) == 0);
    assert(back_ws(name, 0, 4) == 4);
    assert(trim(name) =~= name);
    assert(lowercase(name) =~= host_key());
    let value = line.subrange(5, line.len() as int);
    assert(value =~= seq![32u8] + host);
    assert(ws_at(value, 1) == 0);
    assert(skip_ws(value, 1) == 1);
    assert(skip_ws(value, 0) == 1);
    assert(ws_before(value, value.len() as int) == 0);
    assert(back_ws(value, 1, value.len() as int) == value.len());
    assert(trim(value) =~= host);
    assert(header_pair(line) == (host_key(), host));
    lemma_find_exact(s, 10, nl2 + 1, nl2 + 2);
    assert(line_content_end(s, nl2 + 1) == nl2 + 1);
    assert(!valid_header_line(s.subrange(nl2 + 1, nl2 + 1)));
    assert(header_lines_from(s, nl2 + 1) == Seq::<(Seq<u8>, Seq<u8>)>::empty());
    assert(header_lines_from(s, hs) =~= seq![(host_key(), host)]);
}

proof fn lemma_simple_headers(m: Method, path: Seq<u8>, host: Seq<u8>)
    requires
        simple_ok(m, path, host),
    ensures
        header_pairs(simple_request(m, path, host)) == seq![(host_key(), host)],
{
    lemma_simple_layout(m, path, host);
    lemma_simple_first_line(m, path, host);
    let l = method_name(m).len() as int;
    let te = l + 2 + path.len();
    let hs = te + 11;
    lemma_headers_of(simple_request(m, path, host), host, hs, hs + 6 + host.len() + 1);
}

/// A request made of a method, a resource path and a `Host` header reads back as that
/// method, resource (`/` and the path) and header, without parameters, and leaves the
/// connection open.
pub proof fn law_parse_reads_back(m: Method, path: Seq<u8>, host: Seq<u8>)
    requires
        simple_ok(m, path, host),
    ensures
        spec_parse(simple_request(m, path, host)) == Ok::<RequestView, crate::error::ServerError>(
            RequestView {
                method: m,
                resource: seq![47u8] + path,
                params: None,
                headers: Map::empty().insert(host_key(), host),
                data: None,
                raw: Seq::empty(),
            },
        ),
        !asks_close(simple_request(m, path, host)),
        !parse_panics(simple_request(m, path, host)),
{
    let s = simple_request(m, path, host);
    lemma_simple_layout(m, path, host);
    lemma_simple_first_line(m, path, host);
    lemma_simple_headers(m, path, host);
    let l = method_name(m).len() as int;
    let te = l + 2 + path.len();
    assert(seq![(host_key(), host)].drop_last() =~= Seq::<(Seq<u8>, Seq<u8>)>::empty());
    assert(fold_pairs(Seq::<(Seq<u8>, Seq<u8>)>::empty()) == Map::<Seq<u8>, Seq<u8>>::empty());
    assert(fold_pairs(header_pairs(s)) == Map::<Seq<u8>, Seq<u8>>::empty().insert(host_key(), host));
    assert(crate::fields::distinct_keys(Seq::<(Seq<u8>, Seq<u8>)>::empty()));
    assert(s.subrange(l + 1, te) == seq![47u8] + path);
    assert(!(host_key() =~= crate::request::connection_key()));
}

/// A header line `Name: value` is read as a field, and reading goes on with the next line,
/// whenever the name is letters and digits (with single `-` or `_` between them) and the
/// value is printable ASCII other than `\`: the field is the name in lower case and the
/// text after the colon, trimmed.
pub proof fn law_header_line_is_read(s: Seq<u8>, start: int, name: Seq<u8>, value: Seq<u8>)
    requires
        0 <= start,
        name.len() > 0,
        is_alnum(name[0]),
        is_alnum(name[name.len() - 1]),
        forall|i: int|
            0 <= i < name.len() ==> is_alnum(#[trigger] name[i]) || ((name[i] == 45 || name[i] == 95)
                && i > 0 && is_alnum(name[i - 1])),
        value.len() > 0,
        forall|i: int| 0 <= i < value.len() ==> 32 <= #[trigger] value[i] <= 126 && value[i] != 92,
        start + name.len() + value.len() + 4 <= s.len(),
        s.subrange(start, start + name.len() + value.len() + 4) == name + seq![58u8, 32u8] + value
            + seq![13u8, 10u8],
    ensures
        header_lines_from(s, start) == seq![(lowercase(name), trim(seq![32u8] + value))]
            + header_lines_from(s, start + name.len() + value.len() + 4),
{
    let n = name.len() as int;
    let e = start + n + 2 + value.len();
    let whole = name + seq![58u8, 32u8] + value + seq![13u8, 10u8];
    assert forall|k: int| start <= k < e + 1 implies s[k] != 10 by {
        assert(s[k] == whole[k - start]);
        if k - start < n {
            assert(whole[k - start] == name[k - start]);
        } else if k - start >= n + 2 && k < e {
            assert(whole[k - start] == value[k - start - n - 2]);
        }
    }
    assert(s[e] == whole[e - start]);
    assert(s[e + 1] == whole[e + 1 - start]);
    lemma_find_exact(s, 10, start, e + 1);
    assert(line_content_end(s, start) == e);
    let line = s.subrange(start, e);
    assert(line =~= name + seq![58u8, 32u8] + value) by {
        assert forall|k: int| 0 <= k < e - start implies line[k] == (name + seq![58u8, 32u8] + value)[k] by {
            assert(line[k] == s[start + k]);
            assert(s[start + k] == whole[k]);
        }
    }
    assert forall|k: int| 0 <= k < n implies line[k] != 58 by {
        assert(line[k] == name[k]);
    }
    lemma_find_exact(line, 58, 0, n);
    assert(line.subrange(0, n) =~= name);
    assert(valid_header_name(name)) by {
        assert forall|i: int| 0 <= i < name.len() implies #[trigger] name_char_ok(name, i) by {}
    }
    assert forall|i: int| n + 2 <= i < line.len() implies is_value_char(#[trigger] line[i]) by {
        assert(line[i] == value[i - n - 2]);
    }
    assert(valid_header_line(line));
    assert(skip_ws(name, 0) == 0);
    assert(ws_before(name, n) == 0);
    assert(back_ws(name, 0, n) == n);
    assert(trim(name) =~= name);
    assert(line.subrange(n + 1, line.len() as int) =~= seq![32u8] + value);
    assert(header_pair(line) == (lowercase(name), trim(seq![32u8] + value)));
}

/// A response body is only ever compressed with a coding that the request's
/// `accept-encoding` field names, whatever the media type.
pub proof fn law_compression_needs_acceptance(
    encoding: Option<crate::config::Encoding>,
    content: Seq<u8>,
    type_guess: Seq<char>,
    general_type: Seq<char>,
    headers: Map<Seq<u8>, Seq<u8>>,
)
    ensures
        should_encode(encoding, content, type_guess, general_type, headers) ==> {
            &&& encoding is Some
            &&& content.len() > 0
            &&& headers.contains_key(bytes_of("accept-encoding"@))
            &&& exists|i: int|
                0 <= i < split(headers[bytes_of("accept-encoding"@)], 44).len() && trim(
                    #[trigger] split(headers[bytes_of("accept-encoding"@)], 44)[i],
                ) == bytes_of(encoding->Some_0.use_encoding@)
        },
{
}

/// A `HEAD` request is never answered with a body: no response its handler sends carries
/// one, and a directory listing for it is asked for without one.
pub proof fn law_head_sends_no_body(
    c: Config,
    library: bool,
    request_headers: Map<Seq<u8>, Seq<u8>>,
    known_etags: Seq<Seq<u8>>,
    target: Seq<u8>,
    h: HandlerView,
    e: EventView,
)
    requires
        h.verb == Verb::Head,
    ensures
        spec_step(c, library, request_headers, known_etags, h, e).1 matches ActionView::Send { content, .. }
            ==> content is None,
        spec_step(c, library, request_headers, known_etags, h, e).1 matches ActionView::ListDirectory {
            head,
            ..
        } ==> head,
        !(spec_start(c, library, Verb::Head, target).1 is Send),
{
}

/// An endpoint's answer to `HEAD` is sent without its body, with `Content-Length` set to
/// the length of that body (and 302 where the page sets `location`).
pub proof fn law_head_endpoint_length(
    c: Config,
    library: bool,
    request_headers: Map<Seq<u8>, Seq<u8>>,
    known_etags: Seq<Seq<u8>>,
    h: HandlerView,
    status: u16,
    headers: Map<Seq<u8>, Seq<u8>>,
    body: Seq<u8>,
)
    requires
        h.verb == Verb::Head,
        h.stage == StageView::Endpoint,
    ensures
        ({
            let answered = EventView::Answered { status, headers, content: Some(body) };
            let sent = if headers.contains_key(bytes_of("location"@)) {
                302u16
            } else {
                status
            };
            let fields = headers.insert(bytes_of("Content-Length"@), decimal(body.len()));
            spec_step(c, library, request_headers, known_etags, h, answered).1 == ActionView::Send {
                status: sent,
                headers: Some(fields),
                content: None,
            }
        }),
{
}

/// A directory that an index rule lists is listed with its page for every method but
/// `HEAD`, and without it for `HEAD`; the handler is then done.
pub proof fn law_listing_follows_method(
    c: Config,
    library: bool,
    request_headers: Map<Seq<u8>, Seq<u8>>,
    known_etags: Seq<Seq<u8>>,
    h: HandlerView,
)
    requires
        h.stage == StageView::IndexRules,
    ensures
        ({
            let done = HandlerView { verb: h.verb, resource: h.resource, stage: StageView::Finished };
            let listing = ActionView::ListDirectory { directory: h.resource, head: h.verb == Verb::Head };
            spec_step(c, library, request_headers, known_etags, h, EventView::IndexRules(true)) == (done, listing)
        }),
{
}

/// The value set last for a name is the one the fold keeps.
proof fn lemma_fold_last(p: Seq<(Seq<u8>, Seq<u8>)>, k: Seq<u8>, i: int)
    requires
        0 <= i < p.len(),
        p[i].0 == k,
        forall|j: int| i < j < p.len() ==> (#[trigger] p[j]).0 != k,
    ensures
        fold_pairs(p).contains_key(k),
        fold_pairs(p)[k] == p[i].1,
    decreases p.len(),
{
    if i < p.len() - 1 {
        let q = p.drop_last();
        assert forall|j: int| i < j < q.len() implies (#[trigger] q[j]).0 != k by {
            assert(q[j] == p[j]);
        }
        lemma_fold_last(q, k, i);
    }
}

/// A variable the server sets itself keeps its value once the request's fields (each
/// named `HTTP_` and more) are added and their `Content-Type` and `Content-Length` taken
/// out, and a body's variables are named otherwise.
proof fn lemma_base_var_kept(b: Seq<(Seq<u8>, Seq<u8>)>, headers: Seq<(Seq<u8>, Seq<u8>)>, i: int)
    requires
        0 <= i < b.len(),
        forall|j: int| i < j < b.len() ==> (#[trigger] b[j]).0 != b[i].0,
        b[i].0.len() >= 5,
        b[i].0[0] != 72 || b[i].0[4] != 95,
        b[i].0[0] != 67,
    ensures
        fold_pairs(b + header_vars(headers)).remove(bytes_of("HTTP_CONTENT_TYPE"@)).remove(
            bytes_of("HTTP_CONTENT_LENGTH"@),
        ).contains_key(b[i].0),
        fold_pairs(b + header_vars(headers)).remove(bytes_of("HTTP_CONTENT_TYPE"@)).remove(
            bytes_of("HTTP_CONTENT_LENGTH"@),
        )[b[i].0] == b[i].1,
        b[i].0 != bytes_of("CONTENT_TYPE"@),
        b[i].0 != bytes_of("CONTENT_LENGTH"@),
{
    let k = b[i].0;
    let p = b + header_vars(headers);
    reveal_strlit("HTTP_");
    reveal_strlit("HTTP_CONTENT_TYPE");
    reveal_strlit("HTTP_CONTENT_LENGTH");
    reveal_strlit("CONTENT_TYPE");
    reveal_strlit("CONTENT_LENGTH");
    vstd::utf8::is_ascii_chars_encode_utf8("HTTP_"@);
    vstd::utf8::is_ascii_chars_encode_utf8("HTTP_CONTENT_TYPE"@);
    vstd::utf8::is_ascii_chars_encode_utf8("HTTP_CONTENT_LENGTH"@);
    vstd::utf8::is_ascii_chars_encode_utf8("CONTENT_TYPE"@);
    vstd::utf8::is_ascii_chars_encode_utf8("CONTENT_LENGTH"@);
    assert forall|j: int| i < j < p.len() implies (#[trigger] p[j]).0 != k by {
        if j >= b.len() {
            let q = headers[j - b.len()];
            assert(p[j].0 == http_var(q.0));
            assert(http_var(q.0)[0] == 72);
            assert(http_var(q.0)[4] == 95);
        } else {
            assert(p[j] == b[j]);
        }
    }
    assert(p[i] == b[i]);
    lemma_fold_last(p, k, i);
    assert(k[0] != bytes_of("HTTP_CONTENT_TYPE"@)[0] || k[4] != bytes_of("HTTP_CONTENT_TYPE"@)[4]);
    assert(k[0] != bytes_of("HTTP_CONTENT_LENGTH"@)[0] || k[4] != bytes_of("HTTP_CONTENT_LENGTH"@)[4]);
    assert(k[0] != bytes_of("CONTENT_TYPE"@)[0]);
    assert(k[0] != bytes_of("CONTENT_LENGTH"@)[0]);
}

/// The environment sets the variable `name` to `value`.
pub open spec fn sets_var(env: Map<Seq<u8>, Seq<u8>>, name: Seq<char>, value: Seq<u8>) -> bool {
    env.contains_key(bytes_of(name)) && env[bytes_of(name)] == value
}

/// A CGI program is told the request and the server as they are, whatever fields and body
/// the request has: `QUERY_STRING` is the request's query, `REQUEST_URI` its target,
/// `REQUEST_METHOD` its method, `SCRIPT_NAME`, `SCRIPT_FILENAME` and `PATH_INFO` say which
/// script runs on which path, and the other variables name the server, the client, the
/// document root and the protocol.
pub proof fn law_cgi_request_variables(
    c: CgiContext,
    headers: Seq<(Seq<u8>, Seq<u8>)>,
    body: Option<(Seq<u8>, Seq<char>)>,
)
    ensures
        sets_var(spec_cgi_env(c, headers, body), "GATEWAY_INTERFACE"@, bytes_of("CGI/1.1"@)),
        sets_var(spec_cgi_env(c, headers, body), "SERVER_ADDR"@, c.server_addr@),
        sets_var(spec_cgi_env(c, headers, body), "SERVER_NAME"@, c.server_name@),
        sets_var(spec_cgi_env(c, headers, body), "SERVER_PORT"@, decimal(c.server_port as nat)),
        sets_var(spec_cgi_env(c, headers, body), "SERVER_PROTOCOL"@, bytes_of("HTTP/1.1"@)),
        sets_var(spec_cgi_env(c, headers, body), "SERVER_SOFTWARE"@, bytes_of("Drain "@) + c.server_version@),
        sets_var(spec_cgi_env(c, headers, body), "DOCUMENT_ROOT"@, c.document_root@),
        sets_var(spec_cgi_env(c, headers, body), "REQUEST_URI"@, c.request_uri@),
        sets_var(spec_cgi_env(c, headers, body), "REQUEST_METHOD"@, c.request_method@),
        sets_var(spec_cgi_env(c, headers, body), "QUERY_STRING"@, c.query_string@),
        sets_var(spec_cgi_env(c, headers, body), "HTTPS"@, (if c.https { bytes_of("1"@) } else { Seq::empty() })),
        sets_var(spec_cgi_env(c, headers, body), "REMOTE_ADDR"@, c.remote_addr@),
        sets_var(spec_cgi_env(c, headers, body), "REMOTE_PORT"@, decimal(c.remote_port as nat)),
        sets_var(spec_cgi_env(c, headers, body), "SCRIPT_NAME"@, c.script_name@),
        sets_var(spec_cgi_env(c, headers, body), "SCRIPT_FILENAME"@, c.script_filename@),
        sets_var(spec_cgi_env(c, headers, body), "REDIRECT_STATUS"@, bytes_of("1"@)),
        sets_var(spec_cgi_env(c, headers, body), "PATH_INFO"@, c.path_info@),
{
    let b = base_env(c);
    reveal_strlit("GATEWAY_INTERFACE");
    reveal_strlit("SERVER_ADDR");
    reveal_strlit("SERVER_NAME");
    reveal_strlit("SERVER_PORT");
    reveal_strlit("SERVER_PROTOCOL");
    reveal_strlit("SERVER_SOFTWARE");
    reveal_strlit("DOCUMENT_ROOT");
    reveal_strlit("REQUEST_URI");
    reveal_strlit("REQUEST_METHOD");
    reveal_strlit("QUERY_STRING");
    reveal_strlit("HTTPS");
    reveal_strlit("REMOTE_ADDR");
    reveal_strlit("REMOTE_PORT");
    reveal_strlit("SCRIPT_NAME");
    reveal_strlit("SCRIPT_FILENAME");
    reveal_strlit("REDIRECT_STATUS");
    reveal_strlit("PATH_INFO");
    vstd::utf8::is_ascii_chars_encode_utf8("GATEWAY_INTERFACE"@);
    vstd::utf8::is_ascii_chars_encode_utf8("SERVER_ADDR"@);
    vstd::utf8::is_ascii_chars_encode_utf8("SERVER_NAME"@);
    vstd::utf8::is_ascii_chars_encode_utf8("SERVER_PORT"@);
    vstd::utf8::is_ascii_chars_encode_utf8("SERVER_PROTOCOL"@);
    vstd::utf8::is_ascii_chars_encode_utf8("SERVER_SOFTWARE"@);
    vstd::utf8::is_ascii_chars_encode_utf8("DOCUMENT_ROOT"@);
    vstd::utf8::is_ascii_chars_encode_utf8("REQUEST_URI"@);
    vstd::utf8::is_ascii_chars_encode_utf8("REQUEST_METHOD"@);
    vstd::utf8::is_ascii_chars_encode_utf8("QUERY_STRING"@);
    vstd::utf8::is_ascii_chars_encode_utf8("HTTPS"@);
    vstd::utf8::is_ascii_chars_encode_utf8("REMOTE_ADDR"@);
    vstd::utf8::is_ascii_chars_encode_utf8("REMOTE_PORT"@);
    vstd::utf8::is_ascii_chars_encode_utf8("SCRIPT_NAME"@);
    vstd::utf8::is_ascii_chars_encode_utf8("SCRIPT_FILENAME"@);
    vstd::utf8::is_ascii_chars_encode_utf8("REDIRECT_STATUS"@);
    vstd::utf8::is_ascii_chars_encode_utf8("PATH_INFO"@);
    assert(b[0].0 == bytes_of("GATEWAY_INTERFACE"@));
    assert(b[1].0 == bytes_of("SERVER_ADDR"@));
    assert(b[2].0 == bytes_of("SERVER_NAME"@));
    assert(b[3].0 == bytes_of("SERVER_PORT"@));
    assert(b[4].0 == bytes_of("SERVER_PROTOCOL"@));
    assert(b[5].0 == bytes_of("SERVER_SOFTWARE"@));
    assert(b[6].0 == bytes_of("DOCUMENT_ROOT"@));
    assert(b[7].0 == bytes_of("REQUEST_URI"@));
    assert(b[8].0 == bytes_of("REQUEST_METHOD"@));
    assert(b[9].0 == bytes_of("QUERY_STRING"@));
    assert(b[10].0 == bytes_of("HTTPS"@));
    assert(b[11].0 == bytes_of("REMOTE_ADDR"@));
    assert(b[12].0 == bytes_of("REMOTE_PORT"@));
    assert(b[13].0 == bytes_of("SCRIPT_NAME"@));
    assert(b[14].0 == bytes_of("SCRIPT_FILENAME"@));
    assert(b[15].0 == bytes_of("REDIRECT_STATUS"@));
    assert(b[16].0 == bytes_of("PATH_INFO"@));
    assert(b[1].0[7] != b[2].0[7]);
    assert(b[1].0[7] != b[3].0[7]);
    assert(b[1].0[0] != b[7].0[0]);
    assert(b[1].0[0] != b[11].0[0]);
    assert(b[1].0[0] != b[12].0[0]);
    assert(b[1].0[1] != b[13].0[1]);
    assert(b[2].0[7] != b[3].0[7]);
    assert(b[2].0[0] != b[7].0[0]);
    assert(b[2].0[0] != b[11].0[0]);
    assert(b[2].0[0] != b[12].0[0]);
    assert(b[2].0[1] != b[13].0[1]);
    assert(b[3].0[0] != b[7].0[0]);
    assert(b[3].0[0] != b[11].0[0]);
    assert(b[3].0[0] != b[12].0[0]);
    assert(b[3].0[1] != b[13].0[1]);
    assert(b[4].0[7] != b[5].0[7]);
    assert(b[4].0[1] != b[14].0[1]);
    assert(b[4].0[0] != b[15].0[0]);
    assert(b[5].0[1] != b[14].0[1]);
    assert(b[5].0[0] != b[15].0[0]);
    assert(b[7].0[2] != b[11].0[2]);
    assert(b[7].0[2] != b[12].0[2]);
    assert(b[7].0[0] != b[13].0[0]);
    assert(b[11].0[7] != b[12].0[7]);
    assert(b[11].0[0] != b[13].0[0]);
    assert(b[12].0[0] != b[13].0[0]);
    assert(b[14].0[0] != b[15].0[0]);
    lemma_base_var_kept(b, headers, 0);
    lemma_base_var_kept(b, headers, 1);
    lemma_base_var_kept(b, headers, 2);
    lemma_base_var_kept(b, headers, 3);
    lemma_base_var_kept(b, headers, 4);
    lemma_base_var_kept(b, headers, 5);
    lemma_base_var_kept(b, headers, 6);
    lemma_base_var_kept(b, headers, 7);
    lemma_base_var_kept(b, headers, 8);
    lemma_base_var_kept(b, headers, 9);
    lemma_base_var_kept(b, headers, 10);
    lemma_base_var_kept(b, headers, 11);
    lemma_base_var_kept(b, headers, 12);
    lemma_base_var_kept(b, headers, 13);
    lemma_base_var_kept(b, headers, 14);
    lemma_base_var_kept(b, headers, 15);
    lemma_base_var_kept(b, headers, 16);
}

/// A request that parses keeps each header field it read, under its lower-case name: where
/// a name comes more than once, the last value wins.
pub proof fn law_header_fields_kept(s: Seq<u8>, i: int)
    requires
        spec_parse(s) is Ok,
        spec_parse(s)->Ok_0.method != Method::Trace,
        spec_parse(s)->Ok_0.method != Method::Connect,
        spec_parse(s)->Ok_0.method != Method::Options,
        0 <= i < header_pairs(s).len(),
        forall|j: int| i < j < header_pairs(s).len() ==> (#[trigger] header_pairs(s)[j]).0 != header_pairs(s)[i].0,
    ensures
        spec_parse(s)->Ok_0.headers.contains_key(header_pairs(s)[i].0),
        spec_parse(s)->Ok_0.headers[header_pairs(s)[i].0] == header_pairs(s)[i].1,
{
    lemma_fold_last(header_pairs(s), header_pairs(s)[i].0, i);
}

} // verus!
