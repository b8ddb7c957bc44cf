// Every test in this file switches styling off, whatever the terminal is.

use webbie::console::{assemble, header_line_of, render_headers, render_query, ConsoleLogger};
use webbie::form::render_form;
use warp::http::header::{HeaderName, HeaderValue};
use warp::http::HeaderMap;
use webbie::request::Request;

fn headers(pairs: &[(&str, &[u8])]) -> HeaderMap {
    let mut map = HeaderMap::new();
    for (name, value) in pairs {
        map.append(
            HeaderName::from_bytes(name.as_bytes()).unwrap(),
            HeaderValue::from_bytes(value).unwrap(),
        );
    }
    map
}

fn request(method: &str, path: &str, query: &str, headers: HeaderMap, body: &[u8]) -> Request {
    Request::new(
        method.to_string(),
        path.to_string(),
        query.to_string(),
        headers,
        body.to_vec(),
    )
    .unwrap()
}

#[test]
fn a_plain_form() {
    colored::control::set_override(false);
    assert_eq!(render_form("a=1&b=2"), "a=1\nb=2");
}

#[test]
fn plain_headers_are_lower_case_lines() {
    colored::control::set_override(false);
    let headers = headers(&[
        ("Content-Type", b"text/plain"),
        ("X-Dup", b"1"),
        ("x-dup", b"2"),
        ("X-Bin", b"a\x80b"),
        ("X-Tab", b"a\tb"),
    ]);
    assert_eq!(
        render_headers(&headers),
        "content-type: text/plain\nx-dup: 1\nx-dup: 2\nx-bin: Invalid UTF-8\nx-tab: a\tb"
    );
    assert_eq!(render_headers(&HeaderMap::new()), "");
}

#[test]
fn a_header_line_is_name_colon_value() {
    assert_eq!(header_line_of("host", b"a"), "host: a");
    assert_eq!(header_line_of("x", b"\x7f"), "x: Invalid UTF-8");
    assert_eq!(header_line_of("x", b""), "x: ");
}

#[test]
fn a_plain_query() {
    colored::control::set_override(false);
    assert_eq!(render_query("x=1&y"), "?x=1&y");
    assert_eq!(render_query(""), "");
}

#[test]
fn a_block_is_put_together_from_its_parts() {
    assert_eq!(assemble("GET", "/", "", "", ""), "GET /\n\n\n\n");
    assert_eq!(assemble("GET", "/p", "?q", "h: 1", "b"), "GET /p?q\nh: 1\nb\n\n");
}

#[test]
fn an_empty_body_is_not_rendered() {
    colored::control::set_override(false);
    let logger = ConsoleLogger::new();
    let r = request(
        "GET",
        "/ping",
        "",
        headers(&[("content-type", b"application/json")]),
        b"",
    );
    assert_eq!(logger.render_body(&r), "");
    assert_eq!(
        logger.render_request(&r),
        "GET /ping\ncontent-type: application/json\n\n\n"
    );
}

#[test]
fn a_body_stands_under_its_banner() {
    colored::control::set_override(false);
    let logger = ConsoleLogger::new();
    let r = request("PUT", "/a/b", "k=v", headers(&[("Host", b"h")]), b"hello");
    assert_eq!(logger.render_body(&r), "------ Body: ------\nhello");
    assert_eq!(
        logger.render_request(&r),
        "PUT /a/b?k=v\nhost: h\n------ Body: ------\nhello\n\n"
    );
}

#[test]
fn the_content_type_selects_the_rendering() {
    colored::control::set_override(false);
    let logger = ConsoleLogger::new();
    let r = request(
        "POST",
        "/f",
        "",
        headers(&[("Content-Type", b"application/x-www-form-urlencoded; charset=utf-8")]),
        b"a=1&b",
    );
    assert_eq!(logger.render_body(&r), "------ Body: ------\na=1\nb=");
}

#[test]
fn a_content_type_that_is_no_text_counts_as_plain_text() {
    colored::control::set_override(false);
    let logger = ConsoleLogger::new();
    let r = request(
        "POST",
        "/f",
        "",
        headers(&[("content-type", b"application/x-www-form-urlencoded\x80")]),
        b"a=1&b",
    );
    assert_eq!(logger.render_body(&r), "------ Body: ------\na=1&b");
}

#[test]
fn the_case_of_header_names_has_no_part_in_the_block() {
    colored::control::set_override(false);
    let logger = ConsoleLogger::new();
    let a = request(
        "POST",
        "/f",
        "",
        headers(&[("Content-Type", b"application/x-www-form-urlencoded"), ("X-A", b"1")]),
        b"a=1&b=2",
    );
    let b = request(
        "POST",
        "/f",
        "",
        headers(&[("content-type", b"application/x-www-form-urlencoded"), ("x-a", b"1")]),
        b"a=1&b=2",
    );
    assert_eq!(logger.render_request(&a), logger.render_request(&b));
    assert_eq!(
        logger.render_request(&a),
        "POST /f\ncontent-type: application/x-www-form-urlencoded\nx-a: 1\n\
         ------ Body: ------\na=1\nb=2\n\n"
    );
}

#[test]
fn an_empty_body_has_no_section_whatever_the_headers_declare() {
    colored::control::set_override(false);
    let logger = ConsoleLogger::new();
    for declared in [&b"application/json"[..], &b"application/x-www-form-urlencoded"[..]] {
        let r = request("GET", "/", "q", headers(&[("content-type", declared)]), b"");
        let block = logger.render_request(&r);
        assert!(!block.contains("Body"));
        assert!(block.starts_with("GET /?q\ncontent-type: "));
        assert!(block.ends_with("\n\n\n"));
    }
}
