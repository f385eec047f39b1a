//! The response builder: exact serialized bytes, header order, and the
//! compression step.

use minihttp::headers::HeaderMap;
use minihttp::response::{Body, Response, Status};

fn line(s: &str) -> Vec<u8> {
    s.as_bytes().to_vec()
}

fn gunzip(bytes: &[u8]) -> Vec<u8> {
    let mut out = Vec::new();
    let mut decoder = flate2::read::GzDecoder::new(bytes);
    std::io::Read::read_to_end(&mut decoder, &mut out).expect("not a gzip stream");
    out
}

#[test]
fn ok_serializes_bare() {
    let bytes = Response::ok().to_bytes_mut().unwrap();
    assert_eq!(bytes, line("HTTP/1.1 200 OK\r\nContent-Length: 0\r\n\r\n"));
}

#[test]
fn created_serializes_bare() {
    let bytes = Response::created().to_bytes_mut().unwrap();
    assert_eq!(bytes, line("HTTP/1.1 201 Created\r\nContent-Length: 0\r\n\r\n"));
}

#[test]
fn not_found_serializes_bare() {
    let bytes = Response::not_found().to_bytes_mut().unwrap();
    assert_eq!(bytes, line("HTTP/1.1 404 Not Found\r\nContent-Length: 0\r\n\r\n"));
}

#[test]
fn new_without_encoder_sends_content_verbatim() {
    let resp = Response::new(Status::OK, &line("text/plain"), line("hi there"), None);
    let bytes = resp.to_bytes_mut().unwrap();
    assert_eq!(
        bytes,
        line("HTTP/1.1 200 OK\r\nContent-Type: text/plain\r\nContent-Length: 8\r\n\r\nhi there")
    );
}

#[test]
fn new_with_encoder_compresses_content() {
    let coding = line("gzip");
    let resp = Response::new(Status::OK, &line("text/plain"), line("hi there"), Some(&coding));
    let bytes = resp.to_bytes_mut().unwrap();
    let pos = bytes.windows(4).position(|w| w == b"\r\n\r\n").unwrap();
    let head = String::from_utf8(bytes[..pos].to_vec()).unwrap();
    let body = &bytes[pos + 4..];
    assert!(head.contains("Content-Encoding: gzip\r\n"));
    assert!(head.ends_with(&format!("Content-Length: {}", body.len())));
    assert_eq!(gunzip(body), line("hi there"));
}

#[test]
fn headers_serialize_in_insertion_order() {
    let mut headers = HeaderMap::new();
    headers.insert(line("B-Second"), line("2"));
    headers.insert(line("A-First"), line("1"));
    let resp = Response { status: Status::OK, headers, body: Body::Raw(line("x")) };
    let bytes = resp.to_bytes_mut().unwrap();
    assert_eq!(
        bytes,
        line("HTTP/1.1 200 OK\r\nB-Second: 2\r\nA-First: 1\r\nContent-Length: 1\r\n\r\nx")
    );
}

#[test]
fn content_length_counts_large_bodies_exactly() {
    let content: Vec<u8> = std::iter::repeat(b'a').take(12345).collect();
    let resp = Response::new(Status::OK, &line("text/plain"), content.clone(), None);
    let bytes = resp.to_bytes_mut().unwrap();
    let head = line("HTTP/1.1 200 OK\r\nContent-Type: text/plain\r\nContent-Length: 12345\r\n\r\n");
    assert_eq!(&bytes[..head.len()], &head[..]);
    assert_eq!(&bytes[head.len()..], &content[..]);
}
