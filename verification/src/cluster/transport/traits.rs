//! What can go wrong on the way to another node.
use crate::cluster::protocol::{frame_error_text, FrameError};
use crate::io::IoError;
use vstd::prelude::*;
use vstd::string::*;

verus! {

/// An error of a transport.
#[derive(Debug)]
pub enum TransportError {
    Io(IoError),
    ConnectionClosed,
    Frame(FrameError),
}

/// The message of a transport error.
pub open spec fn transport_error_text(e: TransportError) -> Seq<char> {
    match e {
        TransportError::Io(io) => "io error: "@ + io.message@,
        TransportError::ConnectionClosed => "connection closed"@,
        TransportError::Frame(f) => "frame error: "@ + frame_error_text(f),
    }
}

impl TransportError {
    /// The message of the error.
    pub fn to_string(&self) -> (r: String)
        ensures
            r@ == transport_error_text(*self),
    {
        let mut s = String::new();
        match self {
            TransportError::Io(io) => {
                s.append("io error: ");
                s.append(io.message.as_str());
            },
            TransportError::ConnectionClosed => {
                s.append("connection closed");
            },
            TransportError::Frame(f) => {
                s.append("frame error: ");
                s.append(f.to_string().as_str());
            },
        }
        assert(s@ =~= transport_error_text(*self));
        s
    }
}

impl From<FrameError> for TransportError {
    fn from(e: FrameError) -> (r: Self) {
        TransportError::Frame(e)
    }
}

impl vstd::std_specs::convert::FromSpecImpl<FrameError> for TransportError {
    open spec fn obeys_from_spec() -> bool {
        true
    }

    open spec fn from_spec(e: FrameError) -> Self {
        TransportError::Frame(e)
    }
}

} // verus!
