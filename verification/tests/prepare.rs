use request_executor::request::{build_headers, prepare};
use request_executor::request::{ExecuteError, HeaderEntry, PreparedRequest, RequestDescription};
use request_executor::transport::HEADER_CAPACITY;

fn entry(name: &str, value: &str) -> HeaderEntry {
    HeaderEntry { name: name.to_string(), value: value.to_string() }
}

fn request(method: &str, headers: Vec<HeaderEntry>, body: &str) -> RequestDescription {
    RequestDescription {
        url: "http://test/echo".to_string(),
        method: method.to_string(),
        headers,
        body: body.to_string(),
    }
}

fn prepared(method: &str, headers: Vec<HeaderEntry>, body: &str) -> PreparedRequest {
    match prepare(request(method, headers, body)) {
        Ok(p) => p,
        Err(e) => panic!("unexpected failure: {}", e.message()),
    }
}

fn method_failure(method: &str) -> String {
    match prepare(request(method, vec![entry("X-Test", "1")], "body")) {
        Err(ExecuteError::MethodParse(m)) => m,
        Err(e) => panic!("wrong kind of failure: {}", e.message()),
        Ok(_) => panic!("method {:?} was accepted", method),
    }
}

#[test]
fn method_with_spaces_is_rejected() {
    assert_eq!(method_failure("G E T"), "invalid HTTP method");
}

#[test]
fn empty_method_is_rejected() {
    assert_eq!(method_failure(""), "invalid HTTP method");
}

#[test]
fn method_with_a_separator_is_rejected() {
    assert_eq!(method_failure("GET/1"), "invalid HTTP method");
    assert_eq!(method_failure("GE(T"), "invalid HTTP method");
    assert_eq!(method_failure("GET\n"), "invalid HTTP method");
}

#[test]
fn method_outside_ascii_is_rejected() {
    assert_eq!(method_failure("GÉT"), "invalid HTTP method");
}

#[test]
fn standard_methods_are_kept() {
    for m in ["GET", "PUT", "POST", "HEAD", "PATCH", "TRACE", "DELETE", "OPTIONS", "CONNECT"] {
        assert_eq!(prepared(m, vec![], "").method.as_str(), m);
    }
}

#[test]
fn extension_methods_are_kept_as_written() {
    assert_eq!(prepared("PURGE", vec![], "").method.as_str(), "PURGE");
    assert_eq!(prepared("get", vec![], "").method.as_str(), "get");
    assert_eq!(prepared("M-SEARCH", vec![], "").method.as_str(), "M-SEARCH");
    assert_eq!(prepared("!#$%&'*+-.^_`|~09azAZ", vec![], "").method.as_str(), "!#$%&'*+-.^_`|~09azAZ");
}

#[test]
fn long_method_is_kept() {
    let long = "A".repeat(300);
    assert_eq!(prepared(&long, vec![], "").method.as_str(), long);
}

#[test]
fn url_is_handed_on_unchanged() {
    let p = prepared("GET", vec![], "");
    assert_eq!(p.url, "http://test/echo");
    let odd = RequestDescription {
        url: "not a url at all".to_string(),
        method: "GET".to_string(),
        headers: vec![],
        body: String::new(),
    };
    assert_eq!(prepare(odd).ok().map(|p| p.url), Some("not a url at all".to_string()));
}

#[test]
fn empty_body_is_no_body() {
    assert_eq!(prepared("POST", vec![], "").body, None);
}

#[test]
fn body_goes_out_verbatim() {
    assert_eq!(prepared("POST", vec![], "hello").body, Some("hello".to_string()));
    assert_eq!(prepared("GET", vec![], " ").body, Some(" ".to_string()));
    assert_eq!(prepared("POST", vec![], "{\"a\": \"é\"}\n").body, Some("{\"a\": \"é\"}\n".to_string()));
}

#[test]
fn malformed_header_is_dropped_and_the_rest_is_sent() {
    let p = prepared("GET", vec![entry("Bad Header\n", "x"), entry("X-Test", "1")], "");
    assert_eq!(p.headers.len(), 1);
    assert_eq!(p.headers.get("x-test").map(|v| v.as_bytes().to_vec()), Some(b"1".to_vec()));
    assert!(p.headers.get("Bad Header\n").is_none());
}

#[test]
fn header_names_are_sent_in_lower_case() {
    let p = prepared("GET", vec![entry("Content-TYPE", "text/plain"), entry("X-Custom_1", "v")], "");
    let mut names: Vec<String> = p.headers.keys().map(|k| k.as_str().to_string()).collect();
    names.sort();
    assert_eq!(names, vec!["content-type".to_string(), "x-custom_1".to_string()]);
}

#[test]
fn header_with_a_forbidden_value_is_dropped() {
    let p = prepared(
        "GET",
        vec![entry("X-A", "line\nbreak"), entry("X-B", "del\u{7f}"), entry("X-C", "nul\u{0}"), entry("X-D", "fine")],
        "",
    );
    assert_eq!(p.headers.len(), 1);
    assert_eq!(p.headers.get("x-d").map(|v| v.as_bytes().to_vec()), Some(b"fine".to_vec()));
}

#[test]
fn header_value_may_hold_tabs_and_text_outside_ascii() {
    let p = prepared("GET", vec![entry("X-Tab", "a\tb"), entry("X-Name", "café"), entry("X-Empty", "")], "");
    assert_eq!(p.headers.len(), 3);
    assert_eq!(p.headers.get("x-tab").map(|v| v.as_bytes().to_vec()), Some(b"a\tb".to_vec()));
    assert_eq!(p.headers.get("x-name").map(|v| v.as_bytes().to_vec()), Some("café".as_bytes().to_vec()));
    assert_eq!(p.headers.get("x-empty").map(|v| v.as_bytes().to_vec()), Some(Vec::new()));
}

#[test]
fn header_with_an_empty_or_foreign_name_is_dropped() {
    let p = prepared("GET", vec![entry("", "1"), entry("Näme", "2"), entry("a:b", "3"), entry("ok", "4")], "");
    assert_eq!(p.headers.len(), 1);
    assert_eq!(p.headers.get("ok").map(|v| v.as_bytes().to_vec()), Some(b"4".to_vec()));
}

#[test]
fn header_name_length_limit() {
    let longest = "a".repeat(65535);
    let too_long = "b".repeat(65536);
    let p = prepared("GET", vec![entry(&longest, "1"), entry(&too_long, "2")], "");
    assert_eq!(p.headers.len(), 1);
    assert!(p.headers.get(longest.as_str()).is_some());
}

#[test]
fn later_entry_of_the_same_name_wins() {
    let p = prepared("GET", vec![entry("X-A", "1"), entry("x-a", "2"), entry("X-B", "3")], "");
    assert_eq!(p.headers.len(), 2);
    let all: Vec<Vec<u8>> = p.headers.get_all("x-a").iter().map(|v| v.as_bytes().to_vec()).collect();
    assert_eq!(all, vec![b"2".to_vec()]);
}

#[test]
fn rejected_entry_does_not_shadow_an_accepted_one() {
    let p = prepared("GET", vec![entry("X-A", "1"), entry("x-a", "bad\n")], "");
    let all: Vec<Vec<u8>> = p.headers.get_all("x-a").iter().map(|v| v.as_bytes().to_vec()).collect();
    assert_eq!(all, vec![b"1".to_vec()]);
}

#[test]
fn no_headers_give_an_empty_map() {
    assert!(prepared("GET", vec![], "").headers.is_empty());
    assert_eq!(build_headers(&vec![]).map(|m| m.len()), Some(0));
}

#[test]
fn build_headers_alone_filters_too() {
    let map = build_headers(&vec![entry("Accept", "*/*"), entry("bad name", "x")]);
    let map = map.expect("two entries fit");
    assert_eq!(map.len(), 1);
    assert_eq!(map.get("accept").map(|v| v.as_bytes().to_vec()), Some(b"*/*".to_vec()));
}

#[test]
fn as_many_headers_as_the_capacity_are_taken() {
    let headers: Vec<HeaderEntry> =
        (0..HEADER_CAPACITY).map(|i| entry(&format!("x-h{}", i), &format!("{}", i))).collect();
    let p = prepared("GET", headers, "");
    assert_eq!(p.headers.len(), HEADER_CAPACITY);
    assert_eq!(p.headers.get("x-h6553").map(|v| v.as_bytes().to_vec()), Some(b"6553".to_vec()));
}

#[test]
fn more_headers_than_the_client_holds_fail_the_call() {
    let headers: Vec<HeaderEntry> = (0..40000).map(|i| entry(&format!("x-h{}", i), "v")).collect();
    match prepare(request("GET", headers, "")) {
        Err(ExecuteError::HeaderLimit(m)) => assert_eq!(m, "too many request headers"),
        Err(e) => panic!("wrong kind of failure: {}", e.message()),
        Ok(p) => panic!("{} headers were taken", p.headers.len()),
    }
}

#[test]
fn method_is_checked_before_the_headers() {
    let headers: Vec<HeaderEntry> = (0..40000).map(|i| entry(&format!("x-h{}", i), "v")).collect();
    assert!(matches!(prepare(request("G E T", headers, "")), Err(ExecuteError::MethodParse(_))));
}

#[test]
fn error_text_is_the_same_in_every_form() {
    let e = ExecuteError::Network("connection refused".to_string());
    assert_eq!(e.message(), "connection refused");
    assert_eq!(e.clone().into_message(), "connection refused");
    assert_eq!(ExecuteError::MethodParse("a".to_string()).into_message(), "a");
    assert_eq!(ExecuteError::HeaderLimit("b".to_string()).message(), "b");
    assert_eq!(ExecuteError::BodyDecode("c".to_string()).message(), "c");
}
