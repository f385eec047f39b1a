//! The literal byte strings of the wire protocol: method names, route
//! segments, header names and values, status lines, and separators.

use crate::bytes::ascii_bytes;
use vstd::prelude::*;

verus! {

/// The method token `GET`, as a byte sequence.
pub open spec fn s_get() -> Seq<u8> {
    ascii_bytes("GET"@)
}

/// The method token `GET`, as bytes.
pub fn v_get() -> (r: Vec<u8>)
    ensures
        r@ == s_get(),
{
    proof {
        reveal_strlit("GET");
    }
    crate::bytes::ascii_vec("GET")
}

/// The method token `POST`, as a byte sequence.
pub open spec fn s_post() -> Seq<u8> {
    ascii_bytes("POST"@)
}

/// The method token `POST`, as bytes.
pub fn v_post() -> (r: Vec<u8>)
    ensures
        r@ == s_post(),
{
    proof {
        reveal_strlit("POST");
    }
    crate::bytes::ascii_vec("POST")
}

/// The route segment `echo`, as a byte sequence.
pub open spec fn s_echo() -> Seq<u8> {
    ascii_bytes("echo"@)
}

/// The route segment `echo`, as bytes.
pub fn v_echo() -> (r: Vec<u8>)
    ensures
        r@ == s_echo(),
{
    proof {
        reveal_strlit("echo");
    }
    crate::bytes::ascii_vec("echo")
}

/// The route segment `files`, as a byte sequence.
pub open spec fn s_files() -> Seq<u8> {
    ascii_bytes("files"@)
}

/// The route segment `files`, as bytes.
pub fn v_files() -> (r: Vec<u8>)
    ensures
        r@ == s_files(),
{
    proof {
        reveal_strlit("files");
    }
    crate::bytes::ascii_vec("files")
}

/// The `user-agent` route segment and request header name, as a byte sequence.
pub open spec fn s_user_agent() -> Seq<u8> {
    ascii_bytes("user-agent"@)
}

/// The `user-agent` route segment and request header name, as bytes.
pub fn v_user_agent() -> (r: Vec<u8>)
    ensures
        r@ == s_user_agent(),
{
    proof {
        reveal_strlit("user-agent");
    }
    crate::bytes::ascii_vec("user-agent")
}

/// The request header name `accept-encoding`, as a byte sequence.
pub open spec fn s_accept_encoding() -> Seq<u8> {
    ascii_bytes("accept-encoding"@)
}

/// The request header name `accept-encoding`, as bytes.
pub fn v_accept_encoding() -> (r: Vec<u8>)
    ensures
        r@ == s_accept_encoding(),
{
    proof {
        reveal_strlit("accept-encoding");
    }
    crate::bytes::ascii_vec("accept-encoding")
}

/// The request header name `content-length`, as a byte sequence.
pub open spec fn s_content_length_req() -> Seq<u8> {
    ascii_bytes("content-length"@)
}

/// The request header name `content-length`, as bytes.
pub fn v_content_length_req() -> (r: Vec<u8>)
    ensures
        r@ == s_content_length_req(),
{
    proof {
        reveal_strlit("content-length");
    }
    crate::bytes::ascii_vec("content-length")
}

/// The response header name `Content-Type`, as a byte sequence.
pub open spec fn s_content_type() -> Seq<u8> {
    ascii_bytes("Content-Type"@)
}

/// The response header name `Content-Type`, as bytes.
pub fn v_content_type() -> (r: Vec<u8>)
    ensures
        r@ == s_content_type(),
{
    proof {
        reveal_strlit("Content-Type");
    }
    crate::bytes::ascii_vec("Content-Type")
}

/// The response header name `Content-Encoding`, as a byte sequence.
pub open spec fn s_content_encoding() -> Seq<u8> {
    ascii_bytes("Content-Encoding"@)
}

/// The response header name `Content-Encoding`, as bytes.
pub fn v_content_encoding() -> (r: Vec<u8>)
    ensures
        r@ == s_content_encoding(),
{
    proof {
        reveal_strlit("Content-Encoding");
    }
    crate::bytes::ascii_vec("Content-Encoding")
}

/// The response header name `Content-Length`, as a byte sequence.
pub open spec fn s_content_length() -> Seq<u8> {
    ascii_bytes("Content-Length"@)
}

/// The response header name `Content-Length`, as bytes.
pub fn v_content_length() -> (r: Vec<u8>)
    ensures
        r@ == s_content_length(),
{
    proof {
        reveal_strlit("Content-Length");
    }
    crate::bytes::ascii_vec("Content-Length")
}

/// The media type `text/plain`, as a byte sequence.
pub open spec fn s_text_plain() -> Seq<u8> {
    ascii_bytes("text/plain"@)
}

/// The media type `text/plain`, as bytes.
pub fn v_text_plain() -> (r: Vec<u8>)
    ensures
        r@ == s_text_plain(),
{
    proof {
        reveal_strlit("text/plain");
    }
    crate::bytes::ascii_vec("text/plain")
}

/// The media type `application/octet-stream`, as a byte sequence.
pub open spec fn s_octet_stream() -> Seq<u8> {
    ascii_bytes("application/octet-stream"@)
}

/// The media type `application/octet-stream`, as bytes.
pub fn v_octet_stream() -> (r: Vec<u8>)
    ensures
        r@ == s_octet_stream(),
{
    proof {
        reveal_strlit("application/octet-stream");
    }
    crate::bytes::ascii_vec("application/octet-stream")
}

/// The content-coding name `gzip`, as a byte sequence.
pub open spec fn s_gzip() -> Seq<u8> {
    ascii_bytes("gzip"@)
}

/// The content-coding name `gzip`, as bytes.
pub fn v_gzip() -> (r: Vec<u8>)
    ensures
        r@ == s_gzip(),
{
    proof {
        reveal_strlit("gzip");
    }
    crate::bytes::ascii_vec("gzip")
}

/// The status line of a 200 response, as a byte sequence.
pub open spec fn s_status_200() -> Seq<u8> {
    ascii_bytes("HTTP/1.1 200 OK"@)
}

/// The status line of a 200 response, as bytes.
pub fn v_status_200() -> (r: Vec<u8>)
    ensures
        r@ == s_status_200(),
{
    proof {
        reveal_strlit("HTTP/1.1 200 OK");
    }
    crate::bytes::ascii_vec("HTTP/1.1 200 OK")
}

/// The status line of a 201 response, as a byte sequence.
pub open spec fn s_status_201() -> Seq<u8> {
    ascii_bytes("HTTP/1.1 201 Created"@)
}

/// The status line of a 201 response, as bytes.
pub fn v_status_201() -> (r: Vec<u8>)
    ensures
        r@ == s_status_201(),
{
    proof {
        reveal_strlit("HTTP/1.1 201 Created");
    }
    crate::bytes::ascii_vec("HTTP/1.1 201 Created")
}

/// The status line of a 404 response, as a byte sequence.
pub open spec fn s_status_404() -> Seq<u8> {
    ascii_bytes("HTTP/1.1 404 Not Found"@)
}

/// The status line of a 404 response, as bytes.
pub fn v_status_404() -> (r: Vec<u8>)
    ensures
        r@ == s_status_404(),
{
    proof {
        reveal_strlit("HTTP/1.1 404 Not Found");
    }
    crate::bytes::ascii_vec("HTTP/1.1 404 Not Found")
}

/// The request-line field separator, as a byte sequence.
pub open spec fn s_space() -> Seq<u8> {
    ascii_bytes(" "@)
}

/// The request-line field separator, as bytes.
pub fn v_space() -> (r: Vec<u8>)
    ensures
        r@ == s_space(),
{
    proof {
        reveal_strlit(" ");
    }
    crate::bytes::ascii_vec(" ")
}

/// The path segment separator, as a byte sequence.
pub open spec fn s_slash() -> Seq<u8> {
    ascii_bytes("/"@)
}

/// The path segment separator, as bytes.
pub fn v_slash() -> (r: Vec<u8>)
    ensures
        r@ == s_slash(),
{
    proof {
        reveal_strlit("/");
    }
    crate::bytes::ascii_vec("/")
}

/// The name/value separator of a header line, as a byte sequence.
pub open spec fn s_colon_space() -> Seq<u8> {
    ascii_bytes(": "@)
}

/// The name/value separator of a header line, as bytes.
pub fn v_colon_space() -> (r: Vec<u8>)
    ensures
        r@ == s_colon_space(),
{
    proof {
        reveal_strlit(": ");
    }
    crate::bytes::ascii_vec(": ")
}

/// The list separator of an `Accept-Encoding` value, as a byte sequence.
pub open spec fn s_comma_space() -> Seq<u8> {
    ascii_bytes(", "@)
}

/// The list separator of an `Accept-Encoding` value, as bytes.
pub fn v_comma_space() -> (r: Vec<u8>)
    ensures
        r@ == s_comma_space(),
{
    proof {
        reveal_strlit(", ");
    }
    crate::bytes::ascii_vec(", ")
}

/// The line terminator, as a byte sequence.
pub open spec fn s_crlf() -> Seq<u8> {
    ascii_bytes("\r\n"@)
}

/// The line terminator, as bytes.
pub fn v_crlf() -> (r: Vec<u8>)
    ensures
        r@ == s_crlf(),
{
    proof {
        reveal_strlit("\r\n");
    }
    crate::bytes::ascii_vec("\r\n")
}

/// The lengths of the separator tokens.
pub proof fn lemma_separator_lengths()
    ensures
        s_space().len() == 1,
        s_slash().len() == 1,
        s_colon_space().len() == 2,
        s_comma_space().len() == 2,
        s_crlf().len() == 2,
{
    reveal_strlit(" ");
    reveal_strlit("/");
    reveal_strlit(": ");
    reveal_strlit(", ");
    reveal_strlit("\r\n");
}

/// The route segment tokens are pairwise distinct.
pub proof fn lemma_segment_tokens_distinct()
    ensures
        s_echo() != s_files(),
        s_echo() != s_user_agent(),
        s_files() != s_user_agent(),
{
    reveal_strlit("echo");
    reveal_strlit("files");
    reveal_strlit("user-agent");
    assert(s_echo().len() == 4);
    assert(s_files().len() == 5);
    assert(s_user_agent().len() == 10);
}

/// The three names a response serialization stores are pairwise distinct,
/// so storing one never replaces another.
pub proof fn lemma_response_keys_distinct()
    ensures
        s_content_type() != s_content_length(),
        s_content_type() != s_content_encoding(),
        s_content_encoding() != s_content_length(),
{
    reveal_strlit("Content-Type");
    reveal_strlit("Content-Encoding");
    reveal_strlit("Content-Length");
    assert(s_content_type().len() == 12);
    assert(s_content_encoding().len() == 16);
    assert(s_content_length().len() == 14);
}

} // verus!
