//! Routing: maps a parsed request to the reply to write back, or to the
//! one file-store action the route is defined to make. Routing itself is
//! pure; the caller performs the file read or write and, for a read,
//! builds the reply from what came back.

use crate::bytes::{bytes_eq, copy_of, lemma_lines_deep_view, split_bytes, split_on};
use crate::headers::{lookup, HeaderMap};
use crate::request::{Method, Request};
use crate::response::{gzip_of, message_bytes, Response, Status};
use crate::tokens::{
    lemma_segment_tokens_distinct, lemma_separator_lengths, s_accept_encoding, s_content_encoding,
    s_content_type, s_echo,
    s_files, s_octet_stream, s_slash, s_text_plain, s_user_agent, v_accept_encoding, v_echo,
    v_files, v_octet_stream, v_slash, v_text_plain, v_user_agent,
};
use crate::HttpError;
use vstd::pervasive::unreached;
use vstd::prelude::*;

verus! {

/// The segments of a request target: the target split on `/`, a final
/// empty segment (from a trailing slash, or from the bare target `/`)
/// dropped.
pub open spec fn path_segments(url: Seq<u8>) -> Seq<Seq<u8>> {
    let parts = split_bytes(url, s_slash());
    if parts.len() > 0 && parts.last().len() == 0 {
        parts.drop_last()
    } else {
        parts
    }
}

/// The root route `/`.
pub open spec fn is_root(segs: Seq<Seq<u8>>) -> bool {
    segs.len() == 1 && segs[0].len() == 0
}

/// The route `/echo/<text>`.
pub open spec fn is_echo_route(segs: Seq<Seq<u8>>) -> bool {
    segs.len() == 3 && segs[0].len() == 0 && segs[1] == s_echo()
}

/// The route `/user-agent`.
pub open spec fn is_user_agent_route(segs: Seq<Seq<u8>>) -> bool {
    segs.len() == 2 && segs[0].len() == 0 && segs[1] == s_user_agent()
}

/// The route `/files/<name>`.
pub open spec fn is_files_route(segs: Seq<Seq<u8>>) -> bool {
    segs.len() == 3 && segs[0].len() == 0 && segs[1] == s_files()
}

/// The serialized bare reply of `status`: no fields but the computed
/// zero `Content-Length`, empty body.
pub open spec fn bare_reply(status: Status) -> Seq<u8> {
    message_bytes(status, Seq::<(Seq<u8>, Seq<u8>)>::empty(), Seq::<u8>::empty())
}

/// The serialized 200 reply that carries `body` under `content_type`:
/// sent as it is when no coding was negotiated, compressed and labelled
/// when one was.
pub open spec fn content_reply(content_type: Seq<u8>, enc: Option<Seq<u8>>, body: Seq<u8>) -> Seq<
    u8,
> {
    match enc {
        None => message_bytes(Status::OK, seq![(s_content_type(), content_type)], body),
        Some(e) => message_bytes(
            Status::OK,
            seq![(s_content_type(), content_type), (s_content_encoding(), e)],
            gzip_of(body),
        ),
    }
}

/// The echo route's reply: `text` under `text/plain`, subject to the
/// request's negotiated coding.
pub open spec fn echo_reply(m: Seq<(Seq<u8>, Seq<u8>)>, text: Seq<u8>) -> Seq<u8> {
    content_reply(s_text_plain(), lookup(m, s_accept_encoding()), text)
}

/// The user-agent route's reply: the `user-agent` value under
/// `text/plain`, never compressed.
pub open spec fn user_agent_reply(ua: Seq<u8>) -> Seq<u8> {
    message_bytes(Status::OK, seq![(s_content_type(), s_text_plain())], ua)
}

/// The files route's reply on a read: the stored bytes under
/// `application/octet-stream`, subject to the request's negotiated
/// coding; a bare 404 when the file could not be read.
pub open spec fn file_reply(m: Seq<(Seq<u8>, Seq<u8>)>, contents: Option<Seq<u8>>) -> Seq<u8> {
    match contents {
        None => bare_reply(Status::NotFound),
        Some(c) => content_reply(s_octet_stream(), lookup(m, s_accept_encoding()), c),
    }
}

/// What the caller must do for one routed request.
pub enum Action {
    /// Write these bytes back on the stream.
    Reply(Vec<u8>),
    /// Read the named file from the store, then build the reply with
    /// `get_file`.
    ReadFile(Vec<u8>),
    /// Write `contents` to the named file, then write `reply` back; the
    /// reply is 201 whatever the store did with the write.
    WriteFile { name: Vec<u8>, contents: Vec<u8>, reply: Vec<u8> },
}

/// The bytes of the bare 200 reply.
pub fn ok_reply_bytes() -> (r: Vec<u8>)
    ensures
        r@ == bare_reply(Status::OK),
{
    match Response::ok().to_bytes_mut() {
        Ok(o) => o,
        Err(_) => unreached(),
    }
}

/// The bytes of the bare 201 reply.
pub fn created_reply_bytes() -> (r: Vec<u8>)
    ensures
        r@ == bare_reply(Status::Created),
{
    match Response::created().to_bytes_mut() {
        Ok(o) => o,
        Err(_) => unreached(),
    }
}

/// The bytes of the bare 404 reply.
pub fn not_found_reply_bytes() -> (r: Vec<u8>)
    ensures
        r@ == bare_reply(Status::NotFound),
{
    match Response::not_found().to_bytes_mut() {
        Ok(o) => o,
        Err(_) => unreached(),
    }
}

/// Replies to `GET /echo/<text>`: 200, `text/plain`, body exactly `text`,
/// compressed exactly when the request negotiated a coding. Fails only
/// when the codec does, which needs a negotiated coding.
pub fn echo(req_headers: &HeaderMap, endpoint: &Vec<u8>) -> (r: Result<Vec<u8>, HttpError>)
    ensures
        lookup(req_headers@, s_accept_encoding()) is None ==> r is Ok,
        r matches Ok(o) ==> o@ == echo_reply(req_headers@, endpoint@),
        r is Err ==> r->Err_0 == HttpError::Compression && lookup(
            req_headers@,
            s_accept_encoding(),
        ) is Some,
{
    let key = v_accept_encoding();
    let ct = v_text_plain();
    let enc = req_headers.get(&key);
    let resp = Response::new(Status::OK, &ct, copy_of(endpoint), enc);
    resp.to_bytes_mut()
}

/// Replies to `GET /user-agent`: 200, `text/plain`, body the request's
/// `user-agent` value. A request without that header has no reply.
pub fn get_user_agent(req_headers: &HeaderMap) -> (r: Result<Vec<u8>, HttpError>)
    ensures
        r is Ok <==> lookup(req_headers@, s_user_agent()) is Some,
        r matches Ok(o) ==> o@ == user_agent_reply(lookup(req_headers@, s_user_agent())->Some_0),
        r is Err ==> r->Err_0 == HttpError::MissingHeader,
{
    let key = v_user_agent();
    let ct = v_text_plain();
    match req_headers.get(&key) {
        None => Err(HttpError::MissingHeader),
        Some(ua) => {
            let resp = Response::new(Status::OK, &ct, copy_of(ua), None);
            match resp.to_bytes_mut() {
                Ok(o) => Ok(o),
                Err(_) => unreached(),
            }
        },
    }
}

/// Replies to `GET /files/<name>` once the store answered: the bytes read
/// under `application/octet-stream`, subject to the negotiated coding, or
/// a bare 404 when the read failed. Fails only when the codec does.
pub fn get_file(req_headers: &HeaderMap, contents: Option<Vec<u8>>) -> (r: Result<
    Vec<u8>,
    HttpError,
>)
    ensures
        contents is None || lookup(req_headers@, s_accept_encoding()) is None ==> r is Ok,
        r matches Ok(o) ==> o@ == file_reply(
            req_headers@,
            match contents {
                None => None,
                Some(c) => Some(c@),
            },
        ),
        r is Err ==> r->Err_0 == HttpError::Compression,
{
    match contents {
        None => {
            match Response::not_found().to_bytes_mut() {
                Ok(o) => Ok(o),
                Err(_) => unreached(),
            }
        },
        Some(c) => {
            let key = v_accept_encoding();
            let ct = v_octet_stream();
            let enc = req_headers.get(&key);
            let resp = Response::new(Status::OK, &ct, c, enc);
            resp.to_bytes_mut()
        },
    }
}

/// What `get` promises for its result.
pub open spec fn get_outcome(
    m: Seq<(Seq<u8>, Seq<u8>)>,
    segs: Seq<Seq<u8>>,
    r: Result<Action, HttpError>,
) -> bool {
    &&& is_root(segs) ==> (r matches Ok(Action::Reply(o)) && o@ == bare_reply(Status::OK))
    &&& is_echo_route(segs) ==> {
        &&& lookup(m, s_accept_encoding()) is None ==> r is Ok
        &&& match r {
            Ok(Action::Reply(o)) => o@ == echo_reply(m, segs[2]),
            Err(e) => e == HttpError::Compression && lookup(m, s_accept_encoding()) is Some,
            _ => false,
        }
    }
    &&& is_user_agent_route(segs) ==> match r {
        Ok(Action::Reply(o)) => lookup(m, s_user_agent()) matches Some(ua) && o@
            == user_agent_reply(ua),
        Err(e) => e == HttpError::MissingHeader && lookup(m, s_user_agent()) is None,
        _ => false,
    }
    &&& is_files_route(segs) ==> (r matches Ok(Action::ReadFile(n)) && n@ == segs[2])
    &&& !is_root(segs) && !is_echo_route(segs) && !is_user_agent_route(segs) && !is_files_route(
        segs,
    ) ==> (r matches Ok(Action::Reply(o)) && o@ == bare_reply(Status::NotFound))
}

/// What `post` promises for its result.
pub open spec fn post_outcome(segs: Seq<Seq<u8>>, body: Seq<u8>, r: Action) -> bool {
    &&& is_files_route(segs) ==> (r matches Action::WriteFile { name, contents, reply } && name@
        == segs[2] && contents@ == body && reply@ == bare_reply(Status::Created))
    &&& !is_files_route(segs) ==> (r matches Action::Reply(o) && o@ == bare_reply(
        Status::NotFound,
    ))
}

/// Splits a request target into its path segments.
pub fn split_path(url: &Vec<u8>) -> (parts: Vec<Vec<u8>>)
    ensures
        parts.deep_view() == path_segments(url@),
{
    let sep = v_slash();
    proof {
        lemma_separator_lengths();
    }
    let mut parts = split_on(url, &sep);
    proof {
        lemma_lines_deep_view(parts);
    }
    if parts.len() > 0 && parts[parts.len() - 1].len() == 0 {
        let ghost before = parts.deep_view();
        parts.pop();
        proof {
            lemma_lines_deep_view(parts);
            assert(parts.deep_view() =~= before.drop_last());
        }
    }
    parts
}

/// Routes a GET request: the root, echo, user-agent and file-read routes,
/// and a bare 404 for every other target.
pub fn get(req: &Request) -> (r: Result<Action, HttpError>)
    ensures
        get_outcome(req.headers@, path_segments(req.url@), r),
{
    let mut parts = split_path(&req.url);
    let ghost segs = path_segments(req.url@);
    proof {
        lemma_lines_deep_view(parts);
        lemma_segment_tokens_distinct();
    }
    if parts.len() == 1 && parts[0].len() == 0 {
        return Ok(Action::Reply(ok_reply_bytes()));
    }
    if parts.len() == 3 && parts[0].len() == 0 {
        let tok_echo = v_echo();
        if bytes_eq(&parts[1], &tok_echo) {
            return match echo(&req.headers, &parts[2]) {
                Ok(o) => Ok(Action::Reply(o)),
                Err(e) => Err(e),
            };
        }
        let tok_files = v_files();
        if bytes_eq(&parts[1], &tok_files) {
            let name = parts.remove(2);
            return Ok(Action::ReadFile(name));
        }
    }
    if parts.len() == 2 && parts[0].len() == 0 {
        let tok_ua = v_user_agent();
        if bytes_eq(&parts[1], &tok_ua) {
            return match get_user_agent(&req.headers) {
                Ok(o) => Ok(Action::Reply(o)),
                Err(e) => Err(e),
            };
        }
    }
    Ok(Action::Reply(not_found_reply_bytes()))
}

/// Routes a POST request: the file-write route, and a bare 404 for every
/// other target. The write itself is the caller's; the reply is fixed.
pub fn post(req: &Request, body: Vec<u8>) -> (r: Action)
    ensures
        post_outcome(path_segments(req.url@), body@, r),
{
    let mut parts = split_path(&req.url);
    proof {
        lemma_lines_deep_view(parts);
    }
    if parts.len() == 3 && parts[0].len() == 0 {
        let tok_files = v_files();
        if bytes_eq(&parts[1], &tok_files) {
            let name = parts.remove(2);
            return Action::WriteFile { name, contents: body, reply: created_reply_bytes() };
        }
    }
    Action::Reply(not_found_reply_bytes())
}

/// Routes one parsed request with its body.
pub fn handle(req: &Request, body: Vec<u8>) -> (r: Result<Action, HttpError>)
    ensures
        req.method == Method::Get ==> get_outcome(req.headers@, path_segments(req.url@), r),
        req.method == Method::Post ==> (r matches Ok(a) && post_outcome(
            path_segments(req.url@),
            body@,
            a,
        )),
{
    match req.method {
        Method::Get => get(req),
        Method::Post => Ok(post(req, body)),
    }
}

} // verus!
