//! Frames on a byte stream: each behind its length.
use crate::bytes::{
    be_bytes, be_bytes_len, be_round_trip, be_value, be_value_bound, byte_range_values, push_be,
    read_be,
};
use crate::cluster::protocol::{fails_as, reads_as, Frame, FrameView};
use crate::cluster::transport::traits::TransportError;
use crate::io::{IoError, IoErrorKind};
use vstd::prelude::*;

verus! {

/// The length of the length.
pub const LENGTH_SIZE: usize = 4;

/// What is written to the stream for the bytes of a frame: their number in four bytes, of which
/// only the lowest are kept, and the bytes.
pub open spec fn on_stream(bytes: Seq<u8>) -> Seq<u8> {
    be_bytes(bytes.len(), 4) + bytes
}

/// The length that is written before bytes.
pub fn length_prefix(bytes: &Vec<u8>) -> (r: Vec<u8>)
    ensures
        r@ == be_bytes(bytes@.len(), 4),
        r@.len() == 4,
{
    let mut out: Vec<u8> = Vec::new();
    push_be(&mut out, bytes.len() as u64, LENGTH_SIZE);
    proof {
        be_bytes_len(bytes@.len(), 4);
        assert(out@ =~= be_bytes(bytes@.len(), 4));
    }
    out
}

/// How the reading of a length ended.
#[derive(Debug)]
pub enum LengthRead {
    Full(Vec<u8>),
    Failed(IoError),
}

/// The number of bytes that follow a length, or the error of reading it. A stream that ends
/// before or in a length is closed.
pub fn frame_length(read: LengthRead) -> (r: Result<u64, TransportError>)
    requires
        read matches LengthRead::Full(b) ==> b@.len() == 4,
    ensures
        match read {
            LengthRead::Full(b) => r == Ok::<u64, TransportError>(be_value(b@) as u64),
            LengthRead::Failed(e) => r == Err::<u64, TransportError>(
                if e.kind == IoErrorKind::UnexpectedEof {
                    TransportError::ConnectionClosed
                } else {
                    TransportError::Io(e)
                },
            ),
        },
        r is Ok ==> r->Ok_0 <= u32::MAX,
{
    match read {
        LengthRead::Full(b) => {
            let n: u64 = read_be(b.as_slice(), 0, 4);
            proof {
                assert(b@.subrange(0, 4) =~= b@);
                be_value_bound(b@);
                byte_range_values();
            }
            Ok(n)
        },
        LengthRead::Failed(e) => if e.kind == IoErrorKind::UnexpectedEof {
            Err(TransportError::ConnectionClosed)
        } else {
            Err(TransportError::Io(e))
        },
    }
}

/// The frame in the bytes behind a length.
pub fn received_frame(bytes: &[u8]) -> (r: Result<Frame, TransportError>)
    ensures
        match r {
            Ok(f) => reads_as(bytes@, f@),
            Err(TransportError::Frame(e)) => fails_as(bytes@, e),
            Err(_) => false,
        },
        forall|f: FrameView|
            #![trigger reads_as(bytes@, f)]
            reads_as(bytes@, f) ==> r is Ok && r->Ok_0@ == f,
{
    match Frame::decode(bytes) {
        Ok(f) => Ok(f),
        Err(e) => Err(TransportError::Frame(e)),
    }
}

/// The transport over TCP.
pub struct TcpTransport;

impl TcpTransport {
    pub fn new() -> (r: Self)
        ensures
            r == TcpTransport,
    {
        TcpTransport
    }
}

/// A connection over a stream, until it is closed.
pub struct TcpConnection<S> {
    stream: Option<S>,
}

impl<S> TcpConnection<S> {
    pub closed spec fn open_stream(self) -> Option<S> {
        self.stream
    }

    pub fn new(stream: S) -> (r: Self)
        ensures
            r.open_stream() == Some(stream),
    {
        Self { stream: Some(stream) }
    }

    /// The stream to send and receive on.
    pub fn stream(&mut self) -> (r: Result<&mut S, TransportError>)
        ensures
            match r {
                Ok(s) => old(self).open_stream() == Some(*s) && final(self).open_stream() == Some(
                    *final(s),
                ),
                Err(e) => old(self).open_stream() is None && final(self).open_stream() is None && e
                    == TransportError::ConnectionClosed,
            },
    {
        match &mut self.stream {
            Some(s) => Ok(s),
            None => Err(TransportError::ConnectionClosed),
        }
    }

    /// Closes the connection: the stream is dropped.
    pub fn close(&mut self) -> (r: Result<(), TransportError>)
        ensures
            r is Ok,
            final(self).open_stream() is None,
    {
        self.stream = None;
        Ok(())
    }
}

/// What is read from the stream is what was written: the first four bytes give the number of
/// those behind them, where it fits four bytes.
pub proof fn stream_round_trip(bytes: Seq<u8>)
    requires
        bytes.len() <= u32::MAX,
    ensures
        be_value(on_stream(bytes).take(4)) == bytes.len(),
        on_stream(bytes).skip(4) == bytes,
        on_stream(bytes).len() == bytes.len() + 4,
{
    be_bytes_len(bytes.len(), 4);
    byte_range_values();
    be_round_trip(bytes.len(), 4);
    assert(on_stream(bytes).take(4) =~= be_bytes(bytes.len(), 4));
    assert(on_stream(bytes).skip(4) =~= bytes);
}

/// Frames on a stream stay apart: of two written one behind the other, the first length gives the
/// first one's bytes, and what is left is what was written for the second.
pub proof fn frames_on_a_stream_stay_apart(first: Seq<u8>, second: Seq<u8>)
    requires
        first.len() <= u32::MAX,
    ensures
        ({
            let stream = on_stream(first) + on_stream(second);
            let n = be_value(stream.take(4)) as int;
            &&& n == first.len()
            &&& stream.subrange(4, 4 + n) == first
            &&& stream.skip(4 + n) == on_stream(second)
        }),
{
    stream_round_trip(first);
    let stream = on_stream(first) + on_stream(second);
    be_bytes_len(first.len(), 4);
    assert(stream.take(4) =~= on_stream(first).take(4));
    let n = first.len() as int;
    assert(stream.subrange(4, 4 + n) =~= on_stream(first).skip(4));
    assert(stream.skip(4 + n) =~= on_stream(second));
}

} // verus!
