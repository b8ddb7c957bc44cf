use std::cell::RefCell;
use webbie::capture::{acknowledge, capture, observe, RequestLogger};
use warp::http::header::{HeaderName, HeaderValue};
use warp::http::HeaderMap;
use webbie::request::{Request, RequestError};

struct Seen {
    method: String,
    path: String,
    query: String,
    headers: usize,
    body: Vec<u8>,
}

struct Collector {
    seen: RefCell<Vec<Seen>>,
}

impl Collector {
    fn new() -> Collector {
        Collector { seen: RefCell::new(Vec::new()) }
    }
}

impl RequestLogger for Collector {
    fn log_request(&self, req: &Request) {
        self.seen.borrow_mut().push(Seen {
            method: req.method().clone(),
            path: req.path().clone(),
            query: req.query().clone(),
            headers: req.headers().len(),
            body: req.body().clone(),
        });
    }
}

struct Silent;

impl RequestLogger for Silent {
    fn log_request(&self, _req: &Request) {}
}

#[test]
fn the_answer_is_an_empty_success() {
    let response = acknowledge();
    assert_eq!(response.status, 200);
    assert!(response.body.is_empty());
}

#[test]
fn a_captured_request_is_seen_once() {
    let logger = Collector::new();
    let response = capture(
        &logger,
        "GET".to_string(),
        "/ping".to_string(),
        "x=1".to_string(),
        HeaderMap::new(),
        Vec::new(),
    )
    .unwrap();
    assert_eq!(response.status, 200);
    assert!(response.body.is_empty());
    let seen = logger.seen.borrow();
    assert_eq!(seen.len(), 1);
    assert_eq!(seen[0].method, "GET");
    assert_eq!(seen[0].path, "/ping");
    assert_eq!(seen[0].query, "x=1");
    assert_eq!(seen[0].headers, 0);
    assert!(seen[0].body.is_empty());
}

#[test]
fn every_method_and_path_gets_the_same_answer() {
    let logger = Collector::new();
    let cases = [
        ("GET", "/", "", &b""[..]),
        ("POST", "/a/b/c", "q=1&r", &b"{\"a\":1}"[..]),
        ("DELETE", "/x", "", &b"\xff\x00"[..]),
        ("PROPFIND", "/dav", "?", &b"<x/>"[..]),
        ("OPTIONS", "/*", "", &b""[..]),
    ];
    for (method, path, query, body) in cases {
        let response = capture(
            &logger,
            method.to_string(),
            path.to_string(),
            query.to_string(),
            {
                let mut map = HeaderMap::new();
                map.append(HeaderName::from_static("host"), HeaderValue::from_static("h"));
                map
            },
            body.to_vec(),
        )
        .unwrap();
        assert_eq!(response.status, 200);
        assert!(response.body.is_empty());
    }
    let seen = logger.seen.borrow();
    assert_eq!(seen.len(), 5);
    assert_eq!(seen[1].method, "POST");
    assert_eq!(seen[1].body, b"{\"a\":1}");
    assert_eq!(seen[2].body, b"\xff\x00");
    assert_eq!(seen[3].query, "?");
    assert_eq!(seen[4].headers, 1);
}

#[test]
fn what_the_consumer_does_has_no_part_in_the_answer() {
    let request = Request::new(
        "GET".to_string(),
        "/".to_string(),
        String::new(),
        HeaderMap::new(),
        Vec::new(),
    )
    .unwrap();
    let a = observe(&Silent, &request);
    let logger = Collector::new();
    let b = observe(&logger, &request);
    assert_eq!(a.status, b.status);
    assert_eq!(a.body, b.body);
    assert_eq!(logger.seen.borrow().len(), 1);
}

#[test]
fn one_consumer_serves_several_exchanges() {
    let logger = Collector::new();
    for path in ["/one", "/two"] {
        capture(
            &logger,
            "GET".to_string(),
            path.to_string(),
            String::new(),
            HeaderMap::new(),
            Vec::new(),
        )
        .unwrap();
    }
    let seen = logger.seen.borrow();
    assert_eq!(seen.len(), 2);
    assert_eq!(seen[0].path, "/one");
    assert_eq!(seen[1].path, "/two");
}

#[test]
fn values_that_make_no_request_are_refused_unseen() {
    let logger = Collector::new();
    let outcome = capture(
        &logger,
        String::new(),
        "/".to_string(),
        String::new(),
        HeaderMap::new(),
        Vec::new(),
    );
    assert_eq!(outcome.err(), Some(RequestError::InvalidMethod));
    let outcome = capture(
        &logger,
        "GET".to_string(),
        "ping".to_string(),
        String::new(),
        HeaderMap::new(),
        Vec::new(),
    );
    assert_eq!(outcome.err(), Some(RequestError::InvalidPath));
    assert_eq!(logger.seen.borrow().len(), 0);
}
