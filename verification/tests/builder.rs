//! Tests for the request model: factories, header upsert, and the body
//! variant transitions, including the discard-on-first-multipart-call quirk.

use httpbuild::request::get;
use httpbuild::request::post;
use httpbuild::request::Method;
use httpbuild::request::RequestBody;
use httpbuild::strmap::StrMap;

#[test]
fn get_factory_fixes_method_and_url() {
    let r = get(String::from("http://example.test/"));
    assert_eq!(r.method, Method::Get);
    assert_eq!(r.url, "http://example.test/");
    assert_eq!(r.headers.len(), 0);
    assert!(matches!(r.body, RequestBody::Empty));
}

#[test]
fn post_factory_fixes_method_and_url() {
    let r = post(String::from("http://example.test/form"));
    assert_eq!(r.method, Method::Post);
    assert_eq!(r.url, "http://example.test/form");
    assert!(matches!(r.body, RequestBody::Empty));
}

#[test]
fn header_upsert_keeps_one_entry() {
    let mut r = get(String::from("http://example.test/"));
    r.header(String::from("X"), String::from("1"));
    r.header(String::from("X"), String::from("2"));
    assert_eq!(r.headers.len(), 1);
    assert_eq!(r.headers.get("X").map(String::as_str), Some("2"));
}

#[test]
fn header_keeps_distinct_keys() {
    let mut r = get(String::from("http://example.test/"));
    r.header(String::from("A"), String::from("1"));
    r.header(String::from("B"), String::from("2"));
    assert_eq!(r.headers.len(), 2);
    assert_eq!(r.headers.get("A").map(String::as_str), Some("1"));
    assert_eq!(r.headers.get("B").map(String::as_str), Some("2"));
    assert!(r.headers.get("C").is_none());
}

#[test]
fn form_replaces_body() {
    let mut r = post(String::from("http://example.test/form"));
    let mut fields = StrMap::new();
    fields.insert(String::from("name"), String::from("x"));
    r.form(fields);
    match &r.body {
        RequestBody::FormEncoded(m) => {
            assert_eq!(m.len(), 1);
            assert_eq!(m.get("name").map(String::as_str), Some("x"));
        }
        _ => panic!("body is not form-encoded"),
    }
}

#[test]
fn multi_text_after_form_discards_to_empty_multipart() {
    let mut r = post(String::from("http://example.test/form"));
    let mut fields = StrMap::new();
    fields.insert(String::from("name"), String::from("x"));
    r.form(fields);
    r.multi_text(String::from("k"), String::from("v"));
    match &r.body {
        RequestBody::Multipart(m) => {
            assert_eq!(m.text.len(), 0);
            assert_eq!(m.file.len(), 0);
        }
        _ => panic!("body is not multipart"),
    }
}

#[test]
fn multi_text_on_multipart_inserts() {
    let mut r = post(String::from("http://example.test/form"));
    r.multi_text(String::from("a"), String::from("dropped"));
    r.multi_text(String::from("a"), String::from("kept"));
    r.multi_text(String::from("b"), String::from("2"));
    match &r.body {
        RequestBody::Multipart(m) => {
            assert_eq!(m.text.len(), 2);
            assert_eq!(m.text.get("a").map(String::as_str), Some("kept"));
            assert_eq!(m.text.get("b").map(String::as_str), Some("2"));
            assert_eq!(m.file.len(), 0);
        }
        _ => panic!("body is not multipart"),
    }
}

#[test]
fn multi_file_first_call_discards_pair() {
    let mut r = post(String::from("http://example.test/form"));
    r.multi_file(String::from("doc"), String::from("/a/b/report.csv"));
    match &r.body {
        RequestBody::Multipart(m) => {
            assert_eq!(m.text.len(), 0);
            assert_eq!(m.file.len(), 0);
        }
        _ => panic!("body is not multipart"),
    }
    r.multi_file(String::from("doc"), String::from("/a/b/report.csv"));
    match &r.body {
        RequestBody::Multipart(m) => {
            assert_eq!(m.file.len(), 1);
            assert_eq!(m.file.get("doc").map(String::as_str), Some("/a/b/report.csv"));
        }
        _ => panic!("body is not multipart"),
    }
}

#[test]
fn strmap_insert_and_lookup() {
    let mut m = StrMap::new();
    assert_eq!(m.len(), 0);
    m.insert(String::from("k"), String::from("v1"));
    m.insert(String::from("k"), String::from("v2"));
    m.insert(String::from("q"), String::from("w"));
    assert_eq!(m.len(), 2);
    assert_eq!(m.get("k").map(String::as_str), Some("v2"));
    assert_eq!(m.get("q").map(String::as_str), Some("w"));
    assert!(m.get("missing").is_none());
}
