//! A minimal HTTP/1.1 protocol core: hand-rolled request parsing, header
//! storage, content negotiation, routing, and response serialization over
//! raw bytes. Connection handling and file storage live outside this crate;
//! they hand the functions here plain byte values and take bytes back.

use vstd::prelude::*;

pub mod bytes;
pub mod decimal;
pub mod headers;
pub mod laws;
pub mod request;
pub mod response;
pub mod router;
pub mod tokens;

verus! {

/// A condition that is fatal to handling one request: the connection is
/// dropped without a response.
#[derive(Clone, Copy, Debug, PartialEq, Eq, Structural)]
pub enum HttpError {
    /// The request line names a method other than GET or POST.
    UnsupportedMethod,
    /// The request line has no request-target field.
    MissingTarget,
    /// A header that the route requires is absent.
    MissingHeader,
    /// The compression codec reported a failure.
    Compression,
}

} // verus!
