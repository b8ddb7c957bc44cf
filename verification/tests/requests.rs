use warp::http::header::{HeaderName, HeaderValue};
use warp::http::HeaderMap;
use webbie::request::{
    is_valid_method, is_valid_path, visible_text, Header, Request, RequestError,
};

fn headers(pairs: &[(&str, &[u8])]) -> HeaderMap {
    let mut map = HeaderMap::new();
    for (name, value) in pairs {
        map.append(
            HeaderName::from_bytes(name.as_bytes()).unwrap(),
            HeaderValue::from_bytes(value).unwrap(),
        );
    }
    map
}

fn listed(request: &Request) -> Vec<(String, Vec<u8>)> {
    request
        .headers()
        .iter()
        .map(|(name, value)| (name.as_str().to_string(), value.as_bytes().to_vec()))
        .collect()
}

fn entry(name: &str, value: &[u8]) -> (String, Vec<u8>) {
    (name.to_string(), value.to_vec())
}

fn make(method: &str, path: &str, headers: HeaderMap) -> Result<Request, RequestError> {
    Request::new(
        method.to_string(),
        path.to_string(),
        String::new(),
        headers,
        Vec::new(),
    )
}

#[test]
fn a_request_keeps_what_it_was_given() {
    let r = Request::new(
        "GET".to_string(),
        "/ping".to_string(),
        "x=1".to_string(),
        headers(&[("Host", b"a"), ("Accept", b"*/*")]),
        b"body".to_vec(),
    )
    .unwrap();
    assert_eq!(r.method(), "GET");
    assert_eq!(r.path(), "/ping");
    assert_eq!(r.query(), "x=1");
    assert_eq!(r.body(), &b"body".to_vec());
    assert_eq!(listed(&r), vec![entry("host", b"a"), entry("accept", b"*/*")]);
}

#[test]
fn every_header_instance_is_kept() {
    let r = make(
        "GET",
        "/",
        headers(&[
            ("Set-Cookie", b"a=1"),
            ("X", b"y"),
            ("set-cookie", b"b=2"),
            ("Set-Cookie", b"a=1"),
        ]),
    )
    .unwrap();
    assert_eq!(
        listed(&r),
        vec![
            entry("set-cookie", b"a=1"),
            entry("set-cookie", b"b=2"),
            entry("set-cookie", b"a=1"),
            entry("x", b"y"),
        ]
    );
}

#[test]
fn lookup_ignores_the_case_of_the_name() {
    let r = make(
        "GET",
        "/",
        headers(&[("Content-Type", b"application/json"), ("host", b"h")]),
    )
    .unwrap();
    assert_eq!(r.header("Content-Type"), Some(&b"application/json"[..]));
    assert_eq!(r.header("content-type"), Some(&b"application/json"[..]));
    assert_eq!(r.header("CONTENT-TYPE"), r.header("content-type"));
    assert_eq!(r.header("HOST"), Some(&b"h"[..]));
    assert_eq!(r.header("content-length"), None);
    assert_eq!(r.header(""), None);
}

#[test]
fn lookup_finds_the_first_of_a_name() {
    let r = make("GET", "/", headers(&[("x", b"1"), ("X", b"2")])).unwrap();
    assert_eq!(r.header("X"), Some(&b"1"[..]));
}

#[test]
fn what_is_no_header_name_finds_nothing() {
    let r = make("GET", "/", headers(&[("content-type", b"a/b"), ("host", b"h")])).unwrap();
    assert_eq!(r.header("content_type"), None);
    assert_eq!(r.header("host "), None);
    assert_eq!(r.header("h\u{d6}st"), None);
    assert_eq!(r.header("hos"), None);
    assert_eq!(r.header("host:"), None);
}

#[test]
fn the_declared_type_defaults_to_plain_text() {
    let r = make("GET", "/", headers(&[("host", b"h")])).unwrap();
    assert_eq!(r.content_type(), "text/plain");
    let r = make("GET", "/", headers(&[("Content-Type", b"a/\xffb")])).unwrap();
    assert_eq!(r.content_type(), "text/plain");
    let r = make(
        "GET",
        "/",
        headers(&[("Content-Type", b"Application/JSON; q"), ("content-type", b"x/y")]),
    )
    .unwrap();
    assert_eq!(r.content_type(), "Application/JSON; q");
}

#[test]
fn a_method_is_a_token() {
    assert!(is_valid_method("GET"));
    assert!(is_valid_method("PROPFIND"));
    assert!(is_valid_method("m-search"));
    assert!(is_valid_method("!#$%&'*+-.^_`|~09azAZ"));
    assert!(!is_valid_method(""));
    assert!(!is_valid_method("GE T"));
    assert!(!is_valid_method("GET/"));
    assert!(!is_valid_method("G\u{c9}T"));
    assert!(!is_valid_method("GET\n"));
}

#[test]
fn a_path_begins_with_a_slash() {
    assert!(is_valid_path("/"));
    assert!(is_valid_path("/a/b%20c"));
    assert!(!is_valid_path(""));
    assert!(!is_valid_path("a/"));
    assert!(!is_valid_path("*"));
}

#[test]
fn a_path_holds_no_query() {
    assert!(!is_valid_path("/a?b=1"));
    assert!(!is_valid_path("/?"));
    assert!(!is_valid_path("/a/b?"));
    assert!(is_valid_path("/a%3Fb"));
    assert_eq!(make("GET", "/a?b=1", HeaderMap::new()).err(), Some(RequestError::InvalidPath));
}

#[test]
fn an_invalid_method_is_refused() {
    assert_eq!(make("", "/", HeaderMap::new()).err(), Some(RequestError::InvalidMethod));
    assert_eq!(make("GE T", "/", HeaderMap::new()).err(), Some(RequestError::InvalidMethod));
    assert_eq!(make("", "nope", HeaderMap::new()).err(), Some(RequestError::InvalidMethod));
}

#[test]
fn an_invalid_path_is_refused() {
    assert_eq!(make("GET", "", HeaderMap::new()).err(), Some(RequestError::InvalidPath));
    assert_eq!(make("GET", "ping", HeaderMap::new()).err(), Some(RequestError::InvalidPath));
}

#[test]
fn a_value_is_text_where_its_bytes_are_visible() {
    assert_eq!(visible_text(&b"text/plain; q=0.9".to_vec()), Some("text/plain; q=0.9".to_string()));
    assert_eq!(visible_text(&b"a\tb ~".to_vec()), Some("a\tb ~".to_string()));
    assert_eq!(visible_text(&Vec::new()), Some(String::new()));
    assert_eq!(visible_text(&b"a\x7f".to_vec()), None);
    assert_eq!(visible_text(&b"\x1f".to_vec()), None);
    assert_eq!(visible_text(&b"\n".to_vec()), None);
    assert_eq!(visible_text(&"\u{e9}".as_bytes().to_vec()), None);
    let header = Header { name: "x".to_string(), value: b"ok".to_vec() };
    assert_eq!(header.text(), Some("ok".to_string()));
    let header = Header { name: "x".to_string(), value: b"\x80".to_vec() };
    assert_eq!(header.text(), None);
}
