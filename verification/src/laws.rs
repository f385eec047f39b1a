//! The protocol-level guarantees of this server, each proved from the
//! contracts of the routing and serialization functions.

use crate::bytes::{first_occurrence, lower};
use crate::decimal::dec_digits;
use crate::headers::{lookup, store};
use crate::request::{accepts_gzip, header_field, negotiated};
use crate::response::{gzip_of, header_block, status_line, Status};
use crate::router::{bare_reply, echo_reply, file_reply};
use crate::tokens::{
    lemma_response_keys_distinct, s_accept_encoding, s_colon_space, s_content_encoding,
    s_content_length, s_content_type, s_crlf, s_gzip, s_octet_stream, s_text_plain,
};
use vstd::prelude::*;

verus! {

/// When no content coding was negotiated, the echo route's reply carries
/// the text verbatim: its payload is exactly `text`, and the stored
/// `Content-Length` is the decimal of `text`'s byte length.
pub proof fn lemma_echo_body_exact(m: Seq<(Seq<u8>, Seq<u8>)>, text: Seq<u8>)
    requires
        lookup(m, s_accept_encoding()) is None,
    ensures
        ({
            let r = echo_reply(m, text);
            let fields = store(
                seq![(s_content_type(), s_text_plain())],
                s_content_length(),
                dec_digits(text.len()),
            );
            &&& r == status_line(Status::OK) + s_crlf() + header_block(fields) + s_crlf() + text
            &&& r.subrange(r.len() - text.len(), r.len() as int) == text
            &&& lookup(fields, s_content_length()) == Some(dec_digits(text.len()))
        }),
{
    let r = echo_reply(m, text);
    let fields = store(
        seq![(s_content_type(), s_text_plain())],
        s_content_length(),
        dec_digits(text.len()),
    );
    crate::headers::lemma_lookup_store(
        seq![(s_content_type(), s_text_plain())],
        s_content_length(),
        dec_digits(text.len()),
        s_content_length(),
    );
    assert(r.subrange(r.len() - text.len(), r.len() as int) =~= text);
}

/// When the client's `Accept-Encoding` list names `gzip` — alone or among
/// others — negotiation stores `gzip` as the chosen coding.
pub proof fn lemma_negotiation_picks_gzip(m: Seq<(Seq<u8>, Seq<u8>)>)
    requires
        lookup(m, s_accept_encoding()) matches Some(v) && accepts_gzip(v),
    ensures
        lookup(negotiated(m), s_accept_encoding()) == Some(s_gzip()),
{
    crate::headers::lemma_lookup_store(m, s_accept_encoding(), s_gzip(), s_accept_encoding());
}

/// With `gzip` negotiated, the echo route's reply names the coding in a
/// `Content-Encoding` field and its payload is the codec's stream for
/// `text` — the bytes that decompress to exactly `text`.
pub proof fn lemma_echo_gzip(m: Seq<(Seq<u8>, Seq<u8>)>, text: Seq<u8>)
    requires
        lookup(m, s_accept_encoding()) == Some(s_gzip()),
    ensures
        ({
            let r = echo_reply(m, text);
            let fields = store(
                seq![(s_content_type(), s_text_plain()), (s_content_encoding(), s_gzip())],
                s_content_length(),
                dec_digits(gzip_of(text).len()),
            );
            &&& r == status_line(Status::OK) + s_crlf() + header_block(fields) + s_crlf()
                + gzip_of(text)
            &&& lookup(fields, s_content_encoding()) == Some(s_gzip())
            &&& r.subrange(r.len() - gzip_of(text).len(), r.len() as int) == gzip_of(text)
        }),
{
    let r = echo_reply(m, text);
    let base = seq![(s_content_type(), s_text_plain()), (s_content_encoding(), s_gzip())];
    lemma_response_keys_distinct();
    crate::headers::lemma_lookup_store(
        base,
        s_content_length(),
        dec_digits(gzip_of(text).len()),
        s_content_encoding(),
    );
    assert(base.drop_first() =~= seq![(s_content_encoding(), s_gzip())]);
    assert(seq![(s_content_encoding(), s_gzip())][0] == (s_content_encoding(), s_gzip()));
    assert(lookup(seq![(s_content_encoding(), s_gzip())], s_content_encoding()) == Some(s_gzip()));
    assert(lookup(base, s_content_encoding()) == Some(s_gzip()));
    assert(r.subrange(r.len() - gzip_of(text).len(), r.len() as int) =~= gzip_of(text));
}

/// A bare reply — the root's 200, the file store's 404, the write's 201 —
/// has an empty body, a zero `Content-Length`, and no `Content-Type`.
pub proof fn lemma_bare_reply_shape(status: Status)
    ensures
        ({
            let r = bare_reply(status);
            let fields = store(
                Seq::<(Seq<u8>, Seq<u8>)>::empty(),
                s_content_length(),
                dec_digits(0),
            );
            &&& r == status_line(status) + s_crlf() + header_block(fields) + s_crlf()
            &&& lookup(fields, s_content_type()) is None
            &&& lookup(fields, s_content_length()) == Some(dec_digits(0))
        }),
{
    let fields = store(Seq::<(Seq<u8>, Seq<u8>)>::empty(), s_content_length(), dec_digits(0));
    lemma_response_keys_distinct();
    assert(fields == seq![(s_content_length(), dec_digits(0))]);
    assert(fields.drop_first() =~= Seq::<(Seq<u8>, Seq<u8>)>::empty());
    assert(lookup(fields.drop_first(), s_content_type()) is None);
    crate::headers::lemma_lookup_store(
        Seq::<(Seq<u8>, Seq<u8>)>::empty(),
        s_content_length(),
        dec_digits(0),
        s_content_length(),
    );
    assert(bare_reply(status) =~= status_line(status) + s_crlf() + header_block(fields)
        + s_crlf());
}

/// A file written and read back is served verbatim: when no coding was
/// negotiated, the files route's reply for stored bytes carries exactly
/// those bytes, under `application/octet-stream`.
pub proof fn lemma_file_round_trip(m: Seq<(Seq<u8>, Seq<u8>)>, stored: Seq<u8>)
    requires
        lookup(m, s_accept_encoding()) is None,
    ensures
        ({
            let r = file_reply(m, Some(stored));
            let fields = store(
                seq![(s_content_type(), s_octet_stream())],
                s_content_length(),
                dec_digits(stored.len()),
            );
            &&& r == status_line(Status::OK) + s_crlf() + header_block(fields) + s_crlf() + stored
            &&& r.subrange(r.len() - stored.len(), r.len() as int) == stored
            &&& lookup(fields, s_content_type()) == Some(s_octet_stream())
        }),
{
    let r = file_reply(m, Some(stored));
    let base = seq![(s_content_type(), s_octet_stream())];
    lemma_response_keys_distinct();
    crate::headers::lemma_lookup_store(
        base,
        s_content_length(),
        dec_digits(stored.len()),
        s_content_type(),
    );
    assert(r.subrange(r.len() - stored.len(), r.len() as int) =~= stored);
}

/// The echo reply is a function of the request alone: equal header maps
/// and equal texts give byte-identical replies, also on independent
/// connections.
pub proof fn lemma_echo_deterministic(
    m1: Seq<(Seq<u8>, Seq<u8>)>,
    m2: Seq<(Seq<u8>, Seq<u8>)>,
    t1: Seq<u8>,
    t2: Seq<u8>,
)
    requires
        m1 == m2,
        t1 == t2,
    ensures
        echo_reply(m1, t1) == echo_reply(m2, t2),
{
}

/// Header names are read without regard to ASCII case: two header lines
/// whose names agree up to case, with the same value, parse to the same
/// field — so they negotiate identically.
pub proof fn lemma_header_name_case_insensitive(l1: Seq<u8>, l2: Seq<u8>)
    requires
        first_occurrence(l1, s_colon_space()) == first_occurrence(l2, s_colon_space()),
        match first_occurrence(l1, s_colon_space()) {
            Some(i) => lower(l1.take(i)) == lower(l2.take(i)) && l1.skip(i + 2) == l2.skip(i + 2),
            None => true,
        },
    ensures
        header_field(l1) == header_field(l2),
{
}

} // verus!
