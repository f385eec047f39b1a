//! Request parsing: the request line, the header block, and the declared
//! body length. The caller reads lines from its stream (without their line
//! terminators) and hands them in as plain bytes.

use crate::bytes::{
    bytes_eq, copy_range, find_from, first_occurrence, lemma_lines_deep_view, lower, split_bytes,
    split_on, to_lower,
};
use crate::decimal::{dec_value, is_digits, parse_decimal};
use crate::headers::{erase, lookup, store, HeaderMap};
use crate::tokens::{
    lemma_separator_lengths, s_accept_encoding, s_colon_space, s_comma_space, s_content_length_req,
    s_get, s_gzip, s_post, s_space, v_accept_encoding, v_colon_space, v_comma_space,
    v_content_length_req, v_get, v_gzip, v_post, v_space,
};
use crate::HttpError;
use vstd::prelude::*;

verus! {

/// A method this server accepts.
#[derive(Clone, Copy, Debug, PartialEq, Eq, Structural)]
pub enum Method {
    Get,
    Post,
}

/// One parsed request: method, request-target, and header fields.
pub struct Request {
    pub method: Method,
    pub url: Vec<u8>,
    pub headers: HeaderMap,
}

/// The fields of a request line: the line split on single spaces.
pub open spec fn line_fields(line: Seq<u8>) -> Seq<Seq<u8>> {
    split_bytes(line, s_space())
}

/// A parsed header line: the name before the first `": "`, lowercased, and
/// the value after it, verbatim. `None` when the line has no `": "`; such
/// a line ends the header block.
pub open spec fn header_field(line: Seq<u8>) -> Option<(Seq<u8>, Seq<u8>)> {
    match first_occurrence(line, s_colon_space()) {
        None => None,
        Some(i) => Some((lower(line.take(i)), line.skip(i + 2))),
    }
}

/// The header pairs that a sequence of header lines adds to `acc`: lines
/// are taken in order until the first without a `": "` separator, and each
/// parsed field is stored, a later line under the same name winning.
pub open spec fn fold_header_lines(
    lines: Seq<Seq<u8>>,
    acc: Seq<(Seq<u8>, Seq<u8>)>,
) -> Seq<(Seq<u8>, Seq<u8>)>
    decreases lines.len(),
{
    if lines.len() == 0 {
        acc
    } else {
        match header_field(lines[0]) {
            None => acc,
            Some((k, v)) => fold_header_lines(lines.drop_first(), store(acc, k, v)),
        }
    }
}

/// True when the comma-space-separated list `v` names `gzip`.
pub open spec fn accepts_gzip(v: Seq<u8>) -> bool {
    exists|i: int|
        0 <= i < split_bytes(v, s_comma_space()).len() && split_bytes(v, s_comma_space())[i]
            == s_gzip()
}

/// A header map after content negotiation: an `accept-encoding` value
/// whose list names a coding the server supports is replaced by the chosen
/// coding, and one naming no supported coding is dropped.
pub open spec fn negotiated(m: Seq<(Seq<u8>, Seq<u8>)>) -> Seq<(Seq<u8>, Seq<u8>)> {
    match lookup(m, s_accept_encoding()) {
        None => m,
        Some(v) => if accepts_gzip(v) {
            store(m, s_accept_encoding(), s_gzip())
        } else {
            erase(m, s_accept_encoding())
        },
    }
}

/// The declared body length of a request: its `content-length` value read
/// as a decimal number, or zero when the header is absent or its value is
/// not a number the machine can hold.
pub open spec fn declared_body_length(m: Seq<(Seq<u8>, Seq<u8>)>) -> nat {
    match lookup(m, s_content_length_req()) {
        None => 0,
        Some(v) => if is_digits(v) && dec_value(v) <= usize::MAX {
            dec_value(v)
        } else {
            0
        },
    }
}

impl Request {
    /// Bundles the parsed pieces of one request.
    pub fn new(method: Method, url: Vec<u8>, headers: HeaderMap) -> (r: Request)
        ensures
            r.method == method,
            r.url == url,
            r.headers == headers,
    {
        Request { method, url, headers }
    }

    /// Reads method and request-target from a request line (handed in
    /// without its line terminator). A method token other than `GET` or
    /// `POST` is unsupported; a line with no second field has no target.
    pub fn parse_request(line: &Vec<u8>) -> (r: Result<(Method, Vec<u8>), HttpError>)
        ensures
            ({
                let fields = line_fields(line@);
                let known = fields[0] == s_get() || fields[0] == s_post();
                &&& r is Ok <==> known && fields.len() >= 2
                &&& r matches Ok((m, url)) ==> (m == Method::Get <==> fields[0] == s_get())
                    && url@ == fields[1]
                &&& r is Err ==> r->Err_0 == (if !known {
                    HttpError::UnsupportedMethod
                } else {
                    HttpError::MissingTarget
                })
            }),
    {
        let sep = v_space();
        proof {
            lemma_separator_lengths();
        }
        let mut parts = split_on(line, &sep);
        proof {
            lemma_lines_deep_view(parts);
            assert(line_fields(line@).len() >= 1);
            assert(parts@[0]@ == line_fields(line@)[0]);
        }
        let tok_get = v_get();
        let tok_post = v_post();
        let is_get = bytes_eq(&parts[0], &tok_get);
        let is_post = bytes_eq(&parts[0], &tok_post);
        if !is_get && !is_post {
            return Err(HttpError::UnsupportedMethod);
        }
        if parts.len() < 2 {
            return Err(HttpError::MissingTarget);
        }
        let url = parts.remove(1);
        proof {
            assert(url@ == line_fields(line@)[1]);
        }
        if is_get {
            Ok((Method::Get, url))
        } else {
            Ok((Method::Post, url))
        }
    }

    /// Parses one header line (without its line terminator) into a
    /// lowercased name and a verbatim value; `None` ends the header block.
    pub fn parse_header_line(line: &Vec<u8>) -> (r: Option<(Vec<u8>, Vec<u8>)>)
        ensures
            match r {
                None => header_field(line@) is None,
                Some((k, v)) => header_field(line@) == Some((k@, v@)),
            },
    {
        let sep = v_colon_space();
        proof {
            lemma_separator_lengths();
            assert(line@.skip(0) =~= line@);
        }
        match find_from(line, &sep, 0) {
            None => None,
            Some(i) => {
                proof {
                    assert(i + sep@.len() <= line@.len());
                }
                let name = copy_range(line, 0, i);
                let name = to_lower(&name);
                let value = copy_range(line, i + 2, line.len());
                proof {
                    assert(line@.subrange(0, i as int) =~= line@.take(i as int));
                    assert(line@.subrange(i + 2, line@.len() as int) =~= line@.skip(i + 2));
                }
                Some((name, value))
            },
        }
    }

    /// Builds the header map of one request from its header lines (each
    /// without its line terminator), then negotiates the content coding.
    #[verifier::loop_isolation(false)]
    pub fn parse_headers(lines: &Vec<Vec<u8>>) -> (m: HeaderMap)
        ensures
            m@ == negotiated(
                fold_header_lines(lines.deep_view(), Seq::<(Seq<u8>, Seq<u8>)>::empty()),
            ),
    {
        let ghost all = lines.deep_view();
        proof {
            lemma_lines_deep_view(*lines);
            assert(all.skip(0) =~= all);
        }
        let mut m = HeaderMap::new();
        let mut i: usize = 0;
        while i < lines.len()
            invariant
                i <= lines.len(),
                fold_header_lines(all, Seq::<(Seq<u8>, Seq<u8>)>::empty()) == fold_header_lines(
                    all.skip(i as int),
                    m@,
                ),
            decreases lines.len() - i,
        {
            let ghost before = m@;
            match Self::parse_header_line(&lines[i]) {
                None => {
                    proof {
                        assert(all.skip(i as int)[0] == all[i as int]);
                        assert(all[i as int] == lines@[i as int]@);
                    }
                    break ;
                },
                Some((k, v)) => {
                    proof {
                        assert(all.skip(i as int)[0] == all[i as int]);
                        assert(all[i as int] == lines@[i as int]@);
                        assert(all.skip(i as int).drop_first() =~= all.skip(i + 1));
                    }
                    m.insert(k, v);
                },
            }
            i = i + 1;
        }
        proof {
            if i >= lines.len() {
                assert(all.skip(lines@.len() as int) =~= Seq::<Seq<u8>>::empty());
            }
        }
        negotiate(&mut m);
        m
    }
}

/// Rewrites the `accept-encoding` field of a parsed header map to the
/// negotiated content coding: `gzip` when the client's list names it,
/// nothing when no listed coding is supported.
#[verifier::loop_isolation(false)]
pub fn negotiate(headers: &mut HeaderMap)
    ensures
        final(headers)@ == negotiated(old(headers)@),
{
    let ghost before = headers@;
    let key = v_accept_encoding();
    let value = match headers.get(&key) {
        None => {
            return ;
        },
        Some(v) => copy_range(v, 0, v.len()),
    };
    proof {
        assert(value@ =~= lookup(before, s_accept_encoding())->Some_0);
    }
    let sep = v_comma_space();
    proof {
        lemma_separator_lengths();
    }
    let parts = split_on(&value, &sep);
    proof {
        lemma_lines_deep_view(parts);
    }
    let tok = v_gzip();
    proof {
        assert(parts.deep_view() == split_bytes(value@, s_comma_space()));
    }
    let mut i: usize = 0;
    while i < parts.len()
        invariant
            i <= parts.len(),
            headers@ == before,
            forall|j: int| 0 <= j < i ==> split_bytes(value@, s_comma_space())[j] != s_gzip(),
        decreases parts.len() - i,
    {
        if bytes_eq(&parts[i], &tok) {
            proof {
                assert(split_bytes(value@, s_comma_space())[i as int] == s_gzip());
                assert(accepts_gzip(value@));
            }
            headers.insert(key, tok);
            return ;
        }
        i = i + 1;
    }
    proof {
        assert(!accepts_gzip(value@));
    }
    headers.remove(&key);
}

/// The number of body bytes a request declares, from its `content-length`
/// header.
pub fn body_length(headers: &HeaderMap) -> (n: usize)
    ensures
        n as nat == declared_body_length(headers@),
{
    let key = v_content_length_req();
    match headers.get(&key) {
        None => 0,
        Some(v) => match parse_decimal(v) {
            Some(n) => n,
            None => 0,
        },
    }
}

} // verus!
