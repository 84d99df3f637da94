//! The unified failure type for body consumption and service execution.
//!
//! A router returning no match is never an error: "no match" is the
//! designed try-next-route signal and is kept strictly apart from this
//! taxonomy.

use vstd::prelude::*;

verus! {

/// A per-request, non-retried failure surfaced by body collection or by a
/// committed handler.
#[derive(Debug)]
pub enum Error {
    /// An underlying stream or protocol error surfaced while reading a
    /// body, carrying the transport layer's description of the fault.
    TransportFault(String),
    /// The collected body bytes were not valid text when text decoding was
    /// requested. The raw bytes are not exposed.
    Encoding,
    /// The configured size bound was exceeded during body collection:
    /// `RequestTooLarge(actual, limit)` with the total length actually
    /// seen and the bound that was configured.
    RequestTooLarge(usize, usize),
}

impl Error {
    /// True of the transport-fault variant; lets callers that cannot speak
    /// of spec values branch on the taxonomy.
    pub fn is_transport_fault(&self) -> (r: bool)
        ensures
            r == (self is TransportFault),
    {
        match self {
            Error::TransportFault(_) => true,
            _ => false,
        }
    }

    /// True of the encoding variant.
    pub fn is_encoding(&self) -> (r: bool)
        ensures
            r == (self is Encoding),
    {
        match self {
            Error::Encoding => true,
            _ => false,
        }
    }

    /// The `(actual, limit)` pair of a size-bound failure, when it is one.
    pub fn too_large_sizes(&self) -> (r: Option<(usize, usize)>)
        ensures
            match r {
                Some(p) => self == Error::RequestTooLarge(p.0, p.1),
                None => !(self is RequestTooLarge),
            },
    {
        match self {
            Error::RequestTooLarge(actual, limit) => Some((*actual, *limit)),
            _ => None,
        }
    }
}

} // verus!
