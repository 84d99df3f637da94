//! The inbound byte stream of a request, and its two terminal consumption
//! operations.
//!
//! A `Body` holds what the transport layer produced for one request: the
//! chunks of the incoming stream in order, or the fault the stream ended
//! with. Both consumption operations take the body by value, so a body is
//! consumed at most once.

use vstd::prelude::*;

use crate::error::Error;

verus! {

/// What decoding a byte sequence as UTF-8 text yields: the characters when
/// the bytes are valid UTF-8, nothing otherwise. The decoding itself is
/// done by std; this names its result, which depends on the bytes alone.
pub uninterp spec fn utf8_decode(bytes: Seq<u8>) -> Option<Seq<char>>;

/// Relies on std's `String::from_utf8`: it succeeds exactly on the byte
/// sequences that are valid UTF-8, and the string it returns is a function
/// of the bytes alone.
#[verifier::external_body]
fn decode_utf8(bytes: Vec<u8>) -> (r: Option<String>)
    ensures
        r is Some <==> utf8_decode(bytes.deep_view()) is Some,
        r matches Some(s) ==> Some(s@) == utf8_decode(bytes.deep_view()),
{
    match String::from_utf8(bytes) {
        Ok(s) => Some(s),
        Err(_) => None,
    }
}

/// The concatenation of a sequence of chunks, in order.
pub open spec fn concat_of(chunks: Seq<Seq<u8>>) -> Seq<u8>
    decreases chunks.len(),
{
    if chunks.len() == 0 {
        Seq::empty()
    } else {
        concat_of(chunks.drop_last()) + chunks.last()
    }
}

/// An unconsumed handle on the incoming byte stream of one request.
pub struct Body {
    chunks: Vec<Vec<u8>>,
    fault: Option<String>,
}

/// What collecting a body's bytes yields: the transport fault when the
/// stream failed; otherwise the concatenation of the chunks in order, or
/// `RequestTooLarge(actual, limit)` when a bound is given and the total
/// exceeds it.
pub open spec fn spec_collect_bytes(body: Body, max_size: Option<usize>) -> Result<Seq<u8>, Error> {
    match body.fault() {
        Some(message) => Err(Error::TransportFault(message)),
        None => {
            let data = concat_of(body.chunks());
            match max_size {
                Some(limit) => if data.len() > limit {
                    Err(Error::RequestTooLarge(data.len() as usize, limit))
                } else {
                    Ok(data)
                },
                None => Ok(data),
            }
        },
    }
}

/// What collecting a body as text yields: the byte collection's failure
/// when it fails, the encoding failure when the bytes are not valid UTF-8,
/// and the decoded characters otherwise.
pub open spec fn spec_collect_str(body: Body, max_size: Option<usize>) -> Result<Seq<char>, Error> {
    match spec_collect_bytes(body, max_size) {
        Ok(data) => match utf8_decode(data) {
            Some(text) => Ok(text),
            None => Err(Error::Encoding),
        },
        Err(e) => Err(e),
    }
}

impl Body {
    /// The chunks of the stream, in the order the transport produced them.
    pub closed spec fn chunks(&self) -> Seq<Seq<u8>> {
        self.chunks.deep_view()
    }

    /// The fault the stream ended with, if it did not end cleanly.
    pub closed spec fn fault(&self) -> Option<String> {
        self.fault
    }

    /// A body whose stream produced exactly these chunks and ended
    /// cleanly.
    pub fn from_chunks(chunks: Vec<Vec<u8>>) -> (r: Body)
        ensures
            r.chunks() == chunks.deep_view(),
            r.fault() is None,
    {
        Body { chunks, fault: None }
    }

    /// A body whose stream failed with the given transport-level
    /// description. Whatever was drained before the fault is discarded.
    pub fn from_fault(message: String) -> (r: Body)
        ensures
            r.fault() == Some(message),
    {
        Body { chunks: Vec::new(), fault: Some(message) }
    }

    /// Drains the stream fully and concatenates all chunks, in order.
    /// Fails with the transport fault if the stream failed, and with
    /// `RequestTooLarge(actual, limit)` if a bound is given and the total
    /// length exceeds it; no partial data is returned in either case.
    /// Consumes the body.
    pub fn collect_bytes(self, max_size: Option<usize>) -> (r: Result<Vec<u8>, Error>)
        requires
            concat_of(self.chunks()).len() <= usize::MAX,
        ensures
            bytes_result_matches(r, spec_collect_bytes(self, max_size)),
    {
        let Body { chunks, fault } = self;
        let ghost cs = chunks.deep_view();
        if let Some(message) = fault {
            return Err(Error::TransportFault(message));
        }
        let total = total_len(&chunks);
        if let Some(limit) = max_size {
            if total > limit {
                return Err(Error::RequestTooLarge(total, limit));
            }
        }
        let mut out: Vec<u8> = Vec::new();
        let mut i: usize = 0;
        while i < chunks.len()
            invariant
                0 <= i <= chunks.len(),
                cs == chunks.deep_view(),
                out@ == concat_of(cs.take(i as int)),
            decreases chunks.len() - i,
        {
            let ghost before = out@;
            let chunk = &chunks[i];
            proof {
                assert(chunk@ =~= cs[i as int]);
            }
            let mut j: usize = 0;
            while j < chunk.len()
                invariant
                    0 <= j <= chunk.len(),
                    chunk@ == cs[i as int],
                    0 <= i < cs.len(),
                    out@ == before + cs[i as int].take(j as int),
                decreases chunk.len() - j,
            {
                out.push(chunk[j]);
                proof {
                    assert(cs[i as int].take(j + 1 as int) =~= cs[i as int].take(j as int).push(
                        cs[i as int][j as int],
                    ));
                    assert(out@ =~= before + cs[i as int].take(j + 1 as int));
                }
                j = j + 1;
            }
            proof {
                assert(cs[i as int].take(cs[i as int].len() as int) =~= cs[i as int]);
                assert(cs.take(i + 1 as int).drop_last() =~= cs.take(i as int));
                assert(cs.take(i + 1 as int).last() == cs[i as int]);
            }
            i = i + 1;
        }
        proof {
            assert(cs.take(cs.len() as int) =~= cs);
            assert(out@ =~= out.deep_view());
        }
        Ok(out)
    }

    /// Drains the stream fully as `collect_bytes` does, then validates the
    /// bytes as UTF-8 text. Invalid encoding fails with `Encoding`,
    /// without exposing the raw bytes. Consumes the body.
    pub fn collect_str(self, max_size: Option<usize>) -> (r: Result<String, Error>)
        requires
            concat_of(self.chunks()).len() <= usize::MAX,
        ensures
            str_result_matches(r, spec_collect_str(self, max_size)),
    {
        let bytes = match self.collect_bytes(max_size) {
            Ok(bytes) => bytes,
            Err(e) => {
                return Err(e);
            },
        };
        match decode_utf8(bytes) {
            Some(text) => Ok(text),
            None => Err(Error::Encoding),
        }
    }
}

/// Whether an executable byte-collection result carries exactly the value
/// of the corresponding mathematical one.
pub open spec fn bytes_result_matches(r: Result<Vec<u8>, Error>, s: Result<Seq<u8>, Error>) -> bool {
    match r {
        Ok(data) => s == Ok::<Seq<u8>, Error>(data.deep_view()),
        Err(e) => s == Err::<Seq<u8>, Error>(e),
    }
}

/// Whether an executable text-collection result carries exactly the value
/// of the corresponding mathematical one.
pub open spec fn str_result_matches(r: Result<String, Error>, s: Result<Seq<char>, Error>) -> bool {
    match r {
        Ok(text) => s == Ok::<Seq<char>, Error>(text@),
        Err(e) => s == Err::<Seq<char>, Error>(e),
    }
}

/// The total length of all chunks together.
fn total_len(chunks: &Vec<Vec<u8>>) -> (r: usize)
    requires
        concat_of(chunks.deep_view()).len() <= usize::MAX,
    ensures
        r == concat_of(chunks.deep_view()).len(),
{
    let ghost cs = chunks.deep_view();
    let mut total: usize = 0;
    let mut i: usize = 0;
    while i < chunks.len()
        invariant
            0 <= i <= chunks.len(),
            cs == chunks.deep_view(),
            concat_of(cs).len() <= usize::MAX,
            total == concat_of(cs.take(i as int)).len(),
        decreases chunks.len() - i,
    {
        proof {
            assert(cs.take(i + 1 as int).drop_last() =~= cs.take(i as int));
            assert(cs.take(i + 1 as int).last() == cs[i as int]);
            lemma_concat_take_len_mono(cs, i + 1 as int);
        }
        total = total + chunks[i].len();
        i = i + 1;
    }
    proof {
        assert(cs.take(cs.len() as int) =~= cs);
    }
    total
}

/// The concatenation of a prefix is never longer than the concatenation of
/// the whole.
proof fn lemma_concat_take_len_mono(chunks: Seq<Seq<u8>>, i: int)
    requires
        0 <= i <= chunks.len(),
    ensures
        concat_of(chunks.take(i)).len() <= concat_of(chunks).len(),
    decreases chunks.len() - i,
{
    if i == chunks.len() {
        assert(chunks.take(i) =~= chunks);
    } else {
        assert(chunks.take(i + 1).drop_last() =~= chunks.take(i));
        assert(chunks.take(i + 1).last() == chunks[i]);
        lemma_concat_take_len_mono(chunks, i + 1);
    }
}

/// Law: a body within its size bound (or with no bound given) collects to
/// exactly the concatenation of its chunks, in order.
pub proof fn lemma_collect_within_bound(body: Body, max_size: Option<usize>)
    requires
        body.fault() is None,
        max_size matches Some(limit) ==> concat_of(body.chunks()).len() <= limit,
    ensures
        spec_collect_bytes(body, max_size) == Ok::<Seq<u8>, Error>(concat_of(body.chunks())),
{
}

/// Law: a body longer than its size bound fails with
/// `RequestTooLarge(actual, limit)` and yields no bytes at all.
pub proof fn lemma_collect_over_bound(body: Body, limit: usize)
    requires
        body.fault() is None,
        concat_of(body.chunks()).len() > limit,
        concat_of(body.chunks()).len() <= usize::MAX,
    ensures
        spec_collect_bytes(body, Some(limit)) == Err::<Seq<u8>, Error>(
            Error::RequestTooLarge(concat_of(body.chunks()).len() as usize, limit),
        ),
{
}

/// Law: a body whose bytes are not valid UTF-8 fails text collection with
/// `Encoding`, while byte collection of the same body still succeeds with
/// exactly those bytes.
pub proof fn lemma_encoding_failure_preserves_bytes(body: Body, max_size: Option<usize>)
    requires
        body.fault() is None,
        max_size matches Some(limit) ==> concat_of(body.chunks()).len() <= limit,
        utf8_decode(concat_of(body.chunks())) is None,
    ensures
        spec_collect_str(body, max_size) == Err::<Seq<char>, Error>(Error::Encoding),
        spec_collect_bytes(body, max_size) == Ok::<Seq<u8>, Error>(concat_of(body.chunks())),
{
}

} // verus!
