//! Tests for the dispatcher: filename derivation, the lenient file-field
//! skip, the fail-soft and fail-fast entry points, and reply semantics.
//!
//! Network-facing tests target a closed local port, so every round trip
//! fails at the transport layer without any name resolution.

use httpbuild::dispatch::base_name;
use httpbuild::dispatch::build_form;
use httpbuild::dispatch::simple_get;
use httpbuild::dispatch::soften;
use httpbuild::dispatch::SendError;
use httpbuild::request::get;
use httpbuild::request::post;
use httpbuild::request::Reply;
use httpbuild::request::RequestBody;
use httpbuild::strmap::StrMap;

#[test]
fn base_name_takes_final_segment() {
    assert_eq!(base_name("/a/b/report.csv"), "report.csv");
    assert_eq!(base_name("report.csv"), "report.csv");
    assert_eq!(base_name("/a/b/"), "");
    assert_eq!(base_name(""), "");
}

#[test]
fn is_success_only_on_exactly_200() {
    let ok = Reply { status: 200, body: String::new(), headers: StrMap::new() };
    assert!(ok.is_success());
    let created = Reply { status: 201, body: String::new(), headers: StrMap::new() };
    assert!(!created.is_success());
    let sentinel = Reply { status: 400, body: String::new(), headers: StrMap::new() };
    assert!(!sentinel.is_success());
}

#[test]
fn reply_accessors() {
    let mut headers = StrMap::new();
    headers.insert(String::from("Content-Type"), String::from("text/plain"));
    let r = Reply { status: 200, body: String::from("hello"), headers };
    assert_eq!(r.text(), "hello");
    assert_eq!(r.header("Content-Type").map(String::as_str), Some("text/plain"));
    assert!(r.header("X-Missing").is_none());
}

#[test]
fn soften_passes_success_through_and_absorbs_failure() {
    let ok = Reply { status: 204, body: String::from("b"), headers: StrMap::new() };
    let softened = soften(Ok(ok));
    assert_eq!(softened.status, 204);
    assert_eq!(softened.text(), "b");
    let sentinel = soften(Err(SendError::Transport));
    assert_eq!(sentinel.status, 400);
    assert_eq!(sentinel.text(), "");
    assert_eq!(sentinel.headers.len(), 0);
}

#[test]
fn simple_get_fails_soft_to_sentinel() {
    let r = simple_get(String::from("http://127.0.0.1:1/"));
    assert_eq!(r.status, 400);
    assert_eq!(r.text(), "");
    assert!(!r.is_success());
}

#[test]
fn send_fails_fast_on_unreachable_host() {
    let r = get(String::from("http://127.0.0.1:1/"));
    let res = r.send();
    assert_eq!(res.err(), Some(SendError::Transport));
}

#[test]
fn send_rejects_invalid_header_name() {
    let mut r = get(String::from("http://127.0.0.1:1/"));
    r.header(String::from("bad name"), String::from("v"));
    let res = r.send();
    assert_eq!(res.err(), Some(SendError::InvalidHeader));
}

#[test]
fn send_rejects_invalid_header_value() {
    let mut r = get(String::from("http://127.0.0.1:1/"));
    r.header(String::from("X-Ok"), String::from("bad\nvalue"));
    let res = r.send();
    assert_eq!(res.err(), Some(SendError::InvalidHeader));
}

#[test]
fn send_accepts_valid_headers_and_reaches_transport() {
    let mut r = get(String::from("http://127.0.0.1:1/"));
    r.header(String::from("Accept"), String::from("application/json"));
    let res = r.send();
    assert_eq!(res.err(), Some(SendError::Transport));
}

#[test]
fn missing_file_field_is_skipped_not_fatal() {
    let mut r = post(String::from("http://127.0.0.1:1/upload"));
    r.multi_text(String::from("note"), String::from("dropped by the quirk"));
    r.multi_text(String::from("note"), String::from("kept"));
    r.multi_file(String::from("doc"), String::from("/no/such/path/report.csv"));
    match &r.body {
        RequestBody::Multipart(m) => {
            // Assembling the form skips the unreadable file without failing.
            let _form = build_form(m);
        }
        _ => panic!("body is not multipart"),
    }
    // The dispatch proceeds past body assembly to the transport.
    let res = r.send();
    assert_eq!(res.err(), Some(SendError::Transport));
}

#[test]
fn form_scenario_builds_expected_outbound_state() {
    let mut r = post(String::from("http://example.test/form"));
    let mut fields = StrMap::new();
    fields.insert(String::from("name"), String::from("x"));
    r.form(fields);
    match &r.body {
        RequestBody::FormEncoded(m) => {
            assert_eq!(m.len(), 1);
            assert_eq!(m.get("name").map(String::as_str), Some("x"));
        }
        _ => panic!("body is not form-encoded"),
    }
    assert_eq!(r.headers.len(), 0);
}

#[test]
fn header_scenario_builds_expected_outbound_state() {
    let mut r = get(String::from("http://example.test"));
    r.header(String::from("Accept"), String::from("application/json"));
    assert_eq!(
        r.headers.get("Accept").map(String::as_str),
        Some("application/json")
    );
    assert!(matches!(r.body, RequestBody::Empty));
}

#[test]
fn form_body_send_reaches_transport() {
    let mut r = post(String::from("http://127.0.0.1:1/form"));
    let mut fields = StrMap::new();
    fields.insert(String::from("name"), String::from("x"));
    fields.insert(String::from("mode"), String::from("fast"));
    r.form(fields);
    let res = r.send();
    assert_eq!(res.err(), Some(SendError::Transport));
}

#[test]
fn readable_file_field_send_reaches_transport() {
    let mut r = post(String::from("http://127.0.0.1:1/upload"));
    r.multi_file(String::from("doc"), String::from("unused by the quirk"));
    // The manifest of this crate is a file that is always present and
    // readable while the tests run.
    r.multi_file(String::from("doc"), String::from("Cargo.toml"));
    r.multi_text(String::from("note"), String::from("n"));
    match &r.body {
        RequestBody::Multipart(m) => {
            assert_eq!(m.file.len(), 1);
            assert_eq!(m.text.len(), 1);
            let _form = build_form(m);
        }
        _ => panic!("body is not multipart"),
    }
    let res = r.send();
    assert_eq!(res.err(), Some(SendError::Transport));
}
