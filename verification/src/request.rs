//! An inbound message: header metadata plus the unconsumed byte stream.

use vstd::prelude::*;

use crate::body::Body;
use crate::headers::Header;

verus! {

/// One inbound message, owning its header metadata and its body.
pub struct Request {
    pub header: Header,
    pub body: Body,
}

impl Request {
    /// Decomposes the request into its two parts, for callers that need to
    /// inspect headers without consuming the body, or vice versa. Consumes
    /// the request.
    pub fn split(self) -> (r: (Header, Body))
        ensures
            r.0 == self.header,
            r.1 == self.body,
    {
        (self.header, self.body)
    }
}

} // verus!
