//! Routing and the exact reply bytes of each route.

use minihttp::request::{Method, Request};
use minihttp::router::{get, get_file, get_user_agent, handle, post, Action};

fn line(s: &str) -> Vec<u8> {
    s.as_bytes().to_vec()
}

fn request(method: Method, url: &str, header_lines: &[&str]) -> Request {
    let lines: Vec<Vec<u8>> = header_lines.iter().map(|l| line(l)).collect();
    let headers = Request::parse_headers(&lines);
    Request::new(method, line(url), headers)
}

fn reply_of(action: Result<Action, minihttp::HttpError>) -> Vec<u8> {
    match action.unwrap() {
        Action::Reply(bytes) => bytes,
        _ => panic!("expected an immediate reply"),
    }
}

#[test]
fn root_returns_200_empty_body_no_content_type() {
    let req = request(Method::Get, "/", &[]);
    let bytes = reply_of(handle(&req, Vec::new()));
    assert_eq!(bytes, line("HTTP/1.1 200 OK\r\nContent-Length: 0\r\n\r\n"));
}

#[test]
fn echo_returns_text_verbatim() {
    let req = request(Method::Get, "/echo/abc", &[]);
    let bytes = reply_of(handle(&req, Vec::new()));
    assert_eq!(
        bytes,
        line("HTTP/1.1 200 OK\r\nContent-Type: text/plain\r\nContent-Length: 3\r\n\r\nabc")
    );
}

#[test]
fn echo_is_deterministic_across_connections() {
    let first = reply_of(handle(&request(Method::Get, "/echo/abc", &[]), Vec::new()));
    let second = reply_of(handle(&request(Method::Get, "/echo/abc", &[]), Vec::new()));
    assert_eq!(first, second);
}

#[test]
fn user_agent_route_reflects_header() {
    let req = request(Method::Get, "/user-agent", &["User-Agent: foo-bar/1.0"]);
    let bytes = reply_of(handle(&req, Vec::new()));
    assert_eq!(
        bytes,
        line("HTTP/1.1 200 OK\r\nContent-Type: text/plain\r\nContent-Length: 11\r\n\r\nfoo-bar/1.0")
    );
}

#[test]
fn user_agent_route_without_header_is_refused() {
    let req = request(Method::Get, "/user-agent", &[]);
    let r = get_user_agent(&req.headers);
    assert_eq!(r.unwrap_err(), minihttp::HttpError::MissingHeader);
}

#[test]
fn unknown_get_route_returns_404() {
    let req = request(Method::Get, "/unknown/path", &[]);
    let bytes = reply_of(handle(&req, Vec::new()));
    assert_eq!(bytes, line("HTTP/1.1 404 Not Found\r\nContent-Length: 0\r\n\r\n"));
}

#[test]
fn unknown_post_route_returns_404() {
    let req = request(Method::Post, "/unknown/path", &[]);
    let bytes = reply_of(handle(&req, line("ignored")));
    assert_eq!(bytes, line("HTTP/1.1 404 Not Found\r\nContent-Length: 0\r\n\r\n"));
}

#[test]
fn get_files_route_asks_for_a_read() {
    let req = request(Method::Get, "/files/report.txt", &[]);
    match handle(&req, Vec::new()).unwrap() {
        Action::ReadFile(name) => assert_eq!(name, line("report.txt")),
        _ => panic!("expected a file read"),
    }
}

#[test]
fn post_files_route_stores_body_and_returns_201() {
    let req = request(Method::Post, "/files/report.txt", &[]);
    match handle(&req, line("hello")).unwrap() {
        Action::WriteFile { name, contents, reply } => {
            assert_eq!(name, line("report.txt"));
            assert_eq!(contents, line("hello"));
            assert_eq!(reply, line("HTTP/1.1 201 Created\r\nContent-Length: 0\r\n\r\n"));
        },
        _ => panic!("expected a file write"),
    }
}

#[test]
fn file_round_trip_serves_stored_bytes() {
    let post_req = request(Method::Post, "/files/report.txt", &[]);
    let stored = match post(&post_req, line("hello")) {
        Action::WriteFile { contents, .. } => contents,
        _ => panic!("expected a file write"),
    };
    let get_req = request(Method::Get, "/files/report.txt", &[]);
    let bytes = get_file(&get_req.headers, Some(stored)).unwrap();
    assert_eq!(
        bytes,
        line(
            "HTTP/1.1 200 OK\r\nContent-Type: application/octet-stream\r\nContent-Length: 5\r\n\r\nhello"
        )
    );
}

#[test]
fn missing_file_returns_404_empty_body() {
    let req = request(Method::Get, "/files/does-not-exist", &[]);
    let bytes = get_file(&req.headers, None).unwrap();
    assert_eq!(bytes, line("HTTP/1.1 404 Not Found\r\nContent-Length: 0\r\n\r\n"));
}

#[test]
fn echo_without_text_is_not_routed() {
    let req = request(Method::Get, "/echo/", &[]);
    let bytes = reply_of(handle(&req, Vec::new()));
    assert_eq!(bytes, line("HTTP/1.1 404 Not Found\r\nContent-Length: 0\r\n\r\n"));
}

#[test]
fn trailing_slash_is_dropped_from_the_path() {
    let req = request(Method::Get, "/echo/abc/", &[]);
    let bytes = reply_of(get(&req));
    assert_eq!(
        bytes,
        line("HTTP/1.1 200 OK\r\nContent-Type: text/plain\r\nContent-Length: 3\r\n\r\nabc")
    );
}
