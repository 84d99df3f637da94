//! An outbound message: status, headers, and a sequence of byte frames.
//!
//! The frames are what this core hands to the transport layer for
//! emission; turning them into the transport's native outbound stream is
//! the transport layer's responsibility.

use vstd::prelude::*;

use crate::headers::HeaderMap;

verus! {

/// One outbound message. Ownership of the frames is exclusive to the
/// response until it is handed to the transport layer.
pub struct Response {
    status: usize,
    headers: HeaderMap,
    frames: Vec<Vec<u8>>,
}

impl Response {
    /// The status code of the response.
    pub closed spec fn status(&self) -> usize {
        self.status
    }

    /// The header entries of the response, oldest first.
    pub closed spec fn headers(&self) -> Seq<(Seq<u8>, Seq<u8>)> {
        self.headers.entries()
    }

    /// The byte frames of the response, in emission order.
    pub closed spec fn frames(&self) -> Seq<Seq<u8>> {
        self.frames.deep_view()
    }

    /// A response with the given status, headers and frames.
    pub fn new(status: usize, headers: HeaderMap, frames: Vec<Vec<u8>>) -> (r: Response)
        ensures
            r.status() == status,
            r.headers() == headers.entries(),
            r.frames() == frames.deep_view(),
    {
        Response { status, headers, frames }
    }

    /// The status code, executably.
    pub fn status_code(&self) -> (r: usize)
        ensures
            r == self.status(),
    {
        self.status
    }

    /// Hands out the header mapping and the frames for emission, consuming
    /// the response.
    pub fn into_parts(self) -> (r: (usize, HeaderMap, Vec<Vec<u8>>))
        ensures
            r.0 == self.status(),
            r.1.entries() == self.headers(),
            r.2.deep_view() == self.frames(),
    {
        (self.status, self.headers, self.frames)
    }
}

} // verus!
