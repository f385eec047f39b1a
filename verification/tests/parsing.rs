//! Request-line, header-line and body-length parsing.

use minihttp::request::{body_length, negotiate, Method, Request};
use minihttp::HttpError;

fn line(s: &str) -> Vec<u8> {
    s.as_bytes().to_vec()
}

#[test]
fn parse_request_line_get() {
    let r = Request::parse_request(&line("GET /echo/abc HTTP/1.1")).unwrap();
    assert_eq!(r.0, Method::Get);
    assert_eq!(r.1, line("/echo/abc"));
}

#[test]
fn parse_request_line_post() {
    let r = Request::parse_request(&line("POST /files/report.txt HTTP/1.1")).unwrap();
    assert_eq!(r.0, Method::Post);
    assert_eq!(r.1, line("/files/report.txt"));
}

#[test]
fn parse_request_line_unsupported_method() {
    let r = Request::parse_request(&line("PUT /anything HTTP/1.1"));
    assert_eq!(r.unwrap_err(), HttpError::UnsupportedMethod);
}

#[test]
fn parse_request_line_missing_target() {
    let r = Request::parse_request(&line("GET"));
    assert_eq!(r.unwrap_err(), HttpError::MissingTarget);
}

#[test]
fn header_line_lowercases_name_only() {
    let r = Request::parse_header_line(&line("User-Agent: Foo-Bar/1.0")).unwrap();
    assert_eq!(r.0, line("user-agent"));
    assert_eq!(r.1, line("Foo-Bar/1.0"));
}

#[test]
fn header_line_splits_on_first_separator() {
    let r = Request::parse_header_line(&line("Host: a: b")).unwrap();
    assert_eq!(r.0, line("host"));
    assert_eq!(r.1, line("a: b"));
}

#[test]
fn header_line_without_separator_ends_block() {
    assert!(Request::parse_header_line(&line("")).is_none());
    assert!(Request::parse_header_line(&line("garbage")).is_none());
}

#[test]
fn parse_headers_last_write_wins() {
    let lines = vec![line("X-One: first"), line("X-One: second")];
    let m = Request::parse_headers(&lines);
    assert_eq!(m.get(&line("x-one")).unwrap(), &line("second"));
}

#[test]
fn parse_headers_stops_at_blank_line() {
    let lines = vec![line("A: 1"), line(""), line("B: 2")];
    let m = Request::parse_headers(&lines);
    assert_eq!(m.get(&line("a")).unwrap(), &line("1"));
    assert!(m.get(&line("b")).is_none());
}

#[test]
fn negotiation_gzip_alone() {
    let lines = vec![line("Accept-Encoding: gzip")];
    let m = Request::parse_headers(&lines);
    assert_eq!(m.get(&line("accept-encoding")).unwrap(), &line("gzip"));
}

#[test]
fn negotiation_gzip_among_others() {
    let lines = vec![line("Accept-Encoding: deflate, gzip, br")];
    let m = Request::parse_headers(&lines);
    assert_eq!(m.get(&line("accept-encoding")).unwrap(), &line("gzip"));
}

#[test]
fn negotiation_unsupported_coding_dropped() {
    let lines = vec![line("Accept-Encoding: deflate, br")];
    let m = Request::parse_headers(&lines);
    assert!(m.get(&line("accept-encoding")).is_none());
}

#[test]
fn negotiation_header_name_case_insensitive() {
    let lower = Request::parse_headers(&vec![line("accept-encoding: gzip")]);
    let mixed = Request::parse_headers(&vec![line("Accept-Encoding: gzip")]);
    assert_eq!(
        lower.get(&line("accept-encoding")).unwrap(),
        mixed.get(&line("accept-encoding")).unwrap()
    );
}

#[test]
fn negotiate_rewrites_in_place() {
    let lines = vec![line("Accept-Encoding: x-custom, gzip")];
    let mut m = Request::parse_headers(&lines);
    negotiate(&mut m);
    assert_eq!(m.get(&line("accept-encoding")).unwrap(), &line("gzip"));
}

#[test]
fn body_length_from_header() {
    let lines = vec![line("Content-Length: 5")];
    let m = Request::parse_headers(&lines);
    assert_eq!(body_length(&m), 5);
}

#[test]
fn body_length_defaults_to_zero_when_absent() {
    let m = Request::parse_headers(&Vec::new());
    assert_eq!(body_length(&m), 0);
}

#[test]
fn body_length_defaults_to_zero_when_invalid() {
    let lines = vec![line("Content-Length: five")];
    let m = Request::parse_headers(&lines);
    assert_eq!(body_length(&m), 0);
}

#[test]
fn body_length_defaults_to_zero_when_huge() {
    let lines = vec![line("Content-Length: 99999999999999999999999999999999")];
    let m = Request::parse_headers(&lines);
    assert_eq!(body_length(&m), 0);
}
