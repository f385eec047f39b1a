//! Content negotiation end to end: a gzip reply decompresses to the text.

use minihttp::request::{Method, Request};
use minihttp::router::{handle, Action};

fn line(s: &str) -> Vec<u8> {
    s.as_bytes().to_vec()
}

fn request(method: Method, url: &str, header_lines: &[&str]) -> Request {
    let lines: Vec<Vec<u8>> = header_lines.iter().map(|l| line(l)).collect();
    let headers = Request::parse_headers(&lines);
    Request::new(method, line(url), headers)
}

fn reply_of(action: Result<Action, minihttp::HttpError>) -> Vec<u8> {
    match action.unwrap() {
        Action::Reply(bytes) => bytes,
        _ => panic!("expected an immediate reply"),
    }
}

/// Splits a serialized reply into its head (status line and headers) and
/// its body.
fn split_reply(bytes: &[u8]) -> (String, Vec<u8>) {
    let pos = bytes
        .windows(4)
        .position(|w| w == b"\r\n\r\n")
        .expect("reply has no blank line");
    let head = String::from_utf8(bytes[..pos].to_vec()).expect("head is not text");
    (head, bytes[pos + 4..].to_vec())
}

fn gunzip(bytes: &[u8]) -> Vec<u8> {
    let mut out = Vec::new();
    let mut decoder = flate2::read::GzDecoder::new(bytes);
    std::io::Read::read_to_end(&mut decoder, &mut out).expect("body is not a gzip stream");
    out
}

#[test]
fn echo_with_gzip_negotiated_compresses_the_body() {
    let req = request(Method::Get, "/echo/abc", &["Accept-Encoding: gzip"]);
    let bytes = reply_of(handle(&req, Vec::new()));
    let (head, body) = split_reply(&bytes);
    assert!(head.starts_with("HTTP/1.1 200 OK\r\n"));
    assert!(head.contains("Content-Encoding: gzip\r\n"));
    assert!(head.ends_with(&format!("Content-Length: {}", body.len())));
    assert_eq!(gunzip(&body), line("abc"));
}

#[test]
fn echo_with_gzip_among_others_compresses_the_body() {
    let req = request(Method::Get, "/echo/hello", &["Accept-Encoding: deflate, gzip"]);
    let bytes = reply_of(handle(&req, Vec::new()));
    let (head, body) = split_reply(&bytes);
    assert!(head.contains("Content-Encoding: gzip\r\n"));
    assert_eq!(gunzip(&body), line("hello"));
}

#[test]
fn echo_without_overlap_is_not_compressed() {
    let req = request(Method::Get, "/echo/abc", &["Accept-Encoding: deflate"]);
    let bytes = reply_of(handle(&req, Vec::new()));
    let (head, body) = split_reply(&bytes);
    assert!(!head.contains("Content-Encoding"));
    assert_eq!(body, line("abc"));
}

#[test]
fn header_name_case_negotiates_identically() {
    let lower = reply_of(handle(
        &request(Method::Get, "/echo/abc", &["accept-encoding: gzip"]),
        Vec::new(),
    ));
    let mixed = reply_of(handle(
        &request(Method::Get, "/echo/abc", &["Accept-Encoding: gzip"]),
        Vec::new(),
    ));
    assert_eq!(lower, mixed);
}

#[test]
fn gzip_replies_are_deterministic() {
    let first = reply_of(handle(
        &request(Method::Get, "/echo/abc", &["Accept-Encoding: gzip"]),
        Vec::new(),
    ));
    let second = reply_of(handle(
        &request(Method::Get, "/echo/abc", &["Accept-Encoding: gzip"]),
        Vec::new(),
    ));
    assert_eq!(first, second);
}

#[test]
fn file_reply_with_gzip_negotiated_compresses_the_stored_bytes() {
    let req = request(Method::Get, "/files/report.txt", &["Accept-Encoding: gzip"]);
    let stored = line("hello");
    let bytes = minihttp::router::get_file(&req.headers, Some(stored)).unwrap();
    let (head, body) = split_reply(&bytes);
    assert!(head.contains("Content-Type: application/octet-stream\r\n"));
    assert!(head.contains("Content-Encoding: gzip\r\n"));
    assert_eq!(gunzip(&body), line("hello"));
}
