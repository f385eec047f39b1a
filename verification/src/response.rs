//! Responses and their serialization: status line, header block with a
//! computed `Content-Length`, a blank line, then the payload — compressed
//! first when the response carries a compressed body.

use crate::bytes::copy_of;
use crate::decimal::{dec_digits, to_decimal};
use crate::headers::{store, HeaderMap};
use crate::tokens::{
    s_colon_space, s_content_encoding, s_content_length, s_content_type, s_crlf, s_status_200,
    s_status_201, s_status_404, v_colon_space, v_content_encoding, v_content_length,
    v_content_type, v_crlf, v_status_200, v_status_201, v_status_404,
};
use crate::HttpError;
use vstd::prelude::*;

verus! {

/// A status this server emits.
#[derive(Clone, Copy, Debug, PartialEq, Eq, Structural)]
pub enum Status {
    OK,
    Created,
    NotFound,
}

/// A response body: bytes sent as they are, or bytes compressed when the
/// response is serialized.
pub enum Body {
    Raw(Vec<u8>),
    Compress(Vec<u8>),
}

/// One logical response. Serializing it consumes it: compression happens
/// exactly once, and `Content-Length` is computed from the bytes actually
/// sent.
pub struct Response {
    pub status: Status,
    pub headers: HeaderMap,
    pub body: Body,
}

/// The status line of `s`.
pub open spec fn status_line(s: Status) -> Seq<u8> {
    match s {
        Status::OK => s_status_200(),
        Status::Created => s_status_201(),
        Status::NotFound => s_status_404(),
    }
}

/// The gzip stream that the compression codec yields for `b`.
pub uninterp spec fn gzip_of(b: Seq<u8>) -> Seq<u8>;

/// One serialized header field: `Name: Value` and the line terminator.
pub open spec fn header_line(kv: (Seq<u8>, Seq<u8>)) -> Seq<u8> {
    kv.0 + s_colon_space() + kv.1 + s_crlf()
}

/// A serialized header block: one line per field, in storage order.
pub open spec fn header_block(m: Seq<(Seq<u8>, Seq<u8>)>) -> Seq<u8>
    decreases m.len(),
{
    if m.len() == 0 {
        Seq::empty()
    } else {
        header_line(m[0]) + header_block(m.drop_first())
    }
}

/// A whole serialized message for payload bytes `payload`: the status
/// line, the header fields of `m` with `Content-Length` for `payload`
/// stored last, a blank line, then `payload` itself.
pub open spec fn message_bytes(status: Status, m: Seq<(Seq<u8>, Seq<u8>)>, payload: Seq<u8>) -> Seq<
    u8,
> {
    status_line(status) + s_crlf() + header_block(
        store(m, s_content_length(), dec_digits(payload.len())),
    ) + s_crlf() + payload
}

/// Relies on flate2's `write::GzEncoder` at the default compression level:
/// the default stream header carries no file name, a zero time stamp and a
/// fixed operating-system byte, so the stream the encoder writes is a
/// function of the input bytes alone.
#[verifier::external_body]
pub(crate) fn compress(body: &Vec<u8>) -> (r: Option<Vec<u8>>)
    ensures
        r matches Some(c) ==> c@ == gzip_of(body@),
{
    let mut e = flate2::write::GzEncoder::new(Vec::new(), flate2::Compression::default());
    let _ = std::io::Write::write_all(&mut e, body.as_slice());
    e.finish().ok()
}

/// Appends the bytes of `src` to `out`.
fn append_bytes(out: &mut Vec<u8>, src: &Vec<u8>)
    ensures
        final(out)@ == old(out)@ + src@,
{
    out.extend_from_slice(src.as_slice());
    assert(out@ =~= old(out)@ + src@);
}

/// A header block grows by one line per stored field.
proof fn lemma_header_block_push(m: Seq<(Seq<u8>, Seq<u8>)>, kv: (Seq<u8>, Seq<u8>))
    ensures
        header_block(m.push(kv)) == header_block(m) + header_line(kv),
    decreases m.len(),
{
    if m.len() == 0 {
        assert(m.push(kv)[0] == kv);
        assert(m.push(kv).drop_first() =~= m);
        assert(header_block(m.push(kv)) =~= header_block(m) + header_line(kv));
    } else {
        lemma_header_block_push(m.drop_first(), kv);
        assert(m.push(kv)[0] == m[0]);
        assert(m.push(kv).drop_first() =~= m.drop_first().push(kv));
        assert(header_line(m[0]) + (header_block(m.drop_first()) + header_line(kv)) =~= (
        header_line(m[0]) + header_block(m.drop_first())) + header_line(kv));
    }
}

/// Writes the header block of `m` after the bytes already in `out`.
#[verifier::loop_isolation(false)]
fn write_header_block(m: &HeaderMap, out: &mut Vec<u8>)
    ensures
        final(out)@ == old(out)@ + header_block(m@),
{
    let colon = v_colon_space();
    let crlf = v_crlf();
    let n = m.len();
    proof {
        assert(m@.take(0) =~= Seq::<(Seq<u8>, Seq<u8>)>::empty());
        assert(old(out)@ + header_block(m@.take(0)) =~= old(out)@);
    }
    let mut i: usize = 0;
    while i < n
        invariant
            i <= n,
            out@ == old(out)@ + header_block(m@.take(i as int)),
        decreases n - i,
    {
        let (k, v) = m.entry_at(i);
        let ghost out_before = out@;
        append_bytes(out, k);
        append_bytes(out, &colon);
        append_bytes(out, v);
        append_bytes(out, &crlf);
        proof {
            lemma_header_block_push(m@.take(i as int), m@[i as int]);
            assert(m@.take(i + 1) =~= m@.take(i as int).push(m@[i as int]));
            assert(out@ =~= out_before + header_line(m@[i as int]));
            assert(out@ =~= old(out)@ + header_block(m@.take(i + 1)));
        }
        i = i + 1;
    }
    proof {
        assert(m@.take(n as int) =~= m@);
    }
}

impl Response {
    /// A response carrying `content` under the given content type; when a
    /// content coding was negotiated, the body is marked for compression
    /// and the coding is named in a `Content-Encoding` field.
    pub fn new(status: Status, content_type: &Vec<u8>, content: Vec<u8>, encoder: Option<&Vec<u8>>) -> (r:
        Response)
        ensures
            r.status == status,
            match encoder {
                None => r.headers@ == seq![(s_content_type(), content_type@)] && r.body
                    == Body::Raw(content),
                Some(e) => r.headers@ == seq![(s_content_type(), content_type@), (s_content_encoding(), e@)]
                    && r.body == Body::Compress(content),
            },
    {
        let mut headers = HeaderMap::new();
        let ct_key = v_content_type();
        headers.insert(ct_key, copy_of(content_type));
        proof {
            assert(headers@ =~= seq![(s_content_type(), content_type@)]);
        }
        let body = match encoder {
            Some(e) => {
                proof {
                    crate::tokens::lemma_response_keys_distinct();
                }
                let ghost before = headers@;
                headers.insert(v_content_encoding(), copy_of(e));
                proof {
                    assert(headers@ == store(before, s_content_encoding(), e@));
                    assert(before[0] == (s_content_type(), content_type@));
                    assert(before.drop_first() =~= Seq::<(Seq<u8>, Seq<u8>)>::empty());
                    assert(store(before.drop_first(), s_content_encoding(), e@) == seq![
                        (s_content_encoding(), e@),
                    ]);
                    assert(headers@ =~= seq![
                        (s_content_type(), content_type@),
                        (s_content_encoding(), e@),
                    ]);
                }
                Body::Compress(content)
            },
            None => Body::Raw(content),
        };
        Response { status, headers, body }
    }

    /// A bare 404 response: no fields but the computed length, empty body.
    pub fn not_found() -> (r: Response)
        ensures
            r.status == Status::NotFound,
            r.headers@ == Seq::<(Seq<u8>, Seq<u8>)>::empty(),
            r.body matches Body::Raw(b) && b@ == Seq::<u8>::empty(),
    {
        Response { status: Status::NotFound, headers: HeaderMap::new(), body: Body::Raw(Vec::new()) }
    }

    /// A bare 200 response: no fields but the computed length, empty body.
    pub fn ok() -> (r: Response)
        ensures
            r.status == Status::OK,
            r.headers@ == Seq::<(Seq<u8>, Seq<u8>)>::empty(),
            r.body matches Body::Raw(b) && b@ == Seq::<u8>::empty(),
    {
        Response { status: Status::OK, headers: HeaderMap::new(), body: Body::Raw(Vec::new()) }
    }

    /// A bare 201 response: no fields but the computed length, empty body.
    pub fn created() -> (r: Response)
        ensures
            r.status == Status::Created,
            r.headers@ == Seq::<(Seq<u8>, Seq<u8>)>::empty(),
            r.body matches Body::Raw(b) && b@ == Seq::<u8>::empty(),
    {
        Response { status: Status::Created, headers: HeaderMap::new(), body: Body::Raw(Vec::new()) }
    }

    /// Serializes the response, consuming it. A raw body always
    /// serializes; a compressed body serializes unless the codec fails,
    /// and the payload written is the compressed stream.
    pub fn to_bytes_mut(self) -> (r: Result<Vec<u8>, HttpError>)
        ensures
            self.body matches Body::Raw(b) ==> r matches Ok(o) && o@ == message_bytes(
                self.status,
                self.headers@,
                b@,
            ),
            self.body matches Body::Compress(b) ==> {
                &&& r matches Ok(o) ==> o@ == message_bytes(
                    self.status,
                    self.headers@,
                    gzip_of(b@),
                )
                &&& r is Err ==> r->Err_0 == HttpError::Compression
            },
    {
        let Response { status, mut headers, body } = self;
        let payload: Vec<u8> = match body {
            Body::Raw(b) => b,
            Body::Compress(b) => match compress(&b) {
                Some(c) => c,
                None => {
                    return Err(HttpError::Compression);
                },
            },
        };
        let ghost fields = headers@;
        headers.insert(v_content_length(), to_decimal(payload.len()));
        let mut out = match status {
            Status::OK => v_status_200(),
            Status::Created => v_status_201(),
            Status::NotFound => v_status_404(),
        };
        let crlf = v_crlf();
        append_bytes(&mut out, &crlf);
        write_header_block(&headers, &mut out);
        append_bytes(&mut out, &crlf);
        append_bytes(&mut out, &payload);
        proof {
            assert(out@ =~= message_bytes(status, fields, payload@));
        }
        Ok(out)
    }
}

} // verus!
