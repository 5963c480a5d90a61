//! The certificates of nodes, and a transport that is not there yet.
use crate::cluster::addr::SocketAddr;
use crate::cluster::protocol::Frame;
use crate::cluster::transport::traits::TransportError;
use crate::io::{IoError, IoErrorKind};
use vstd::prelude::*;

verus! {

/// The fingerprint of a certificate.
pub type CertHash = [u8; 32];

/// The SHA-256 digest of bytes, as the `sha2` crate computes it.
pub uninterp spec fn sha256_digest(bytes: Seq<u8>) -> Seq<u8>;

/// `sha2::Sha256::digest`. Claimed: the digest depends on the bytes alone.
#[verifier::external_body]
fn sha256(bytes: &[u8]) -> (r: CertHash)
    ensures
        r@ == sha256_digest(bytes@),
{
    <sha2::Sha256 as sha2::Digest>::digest(bytes).into()
}

/// `rand::Rng::fill` with the thread's generator, on 64 bytes. The bytes are random, so nothing
/// is claimed of them.
#[verifier::external_body]
fn random_bytes() -> [u8; 64] {
    let mut buf = [0u8; 64];
    rand::Rng::fill(&mut rand::rng(), &mut buf[..]);
    buf
}

/// Whether the bytes were drawn at random.
pub closed spec fn are_drawn(bytes: [u8; 64]) -> bool {
    call_ensures(random_bytes, (), bytes)
}

/// A certificate and a key from random bytes, with the certificate's fingerprint.
pub fn generate_self_signed_cert() -> (r: (Vec<u8>, Vec<u8>, CertHash))
    ensures
        exists|bytes: [u8; 64]| #[trigger]
            are_drawn(bytes) && r.0@ == bytes@.subrange(0, 32) && r.1@ == bytes@.subrange(32, 64),
        r.0@.len() == 32,
        r.1@.len() == 32,
        r.2@ == sha256_digest(r.0@),
{
    let bytes = random_bytes();
    assert(are_drawn(bytes));
    let (cert, key) = split_bytes(&bytes);
    let hash = cert_fingerprint(cert.as_slice());
    (cert, key, hash)
}

/// The first half of the bytes, as a certificate, and the second, as its key.
pub fn split_bytes(bytes: &[u8; 64]) -> (r: (Vec<u8>, Vec<u8>))
    ensures
        r.0@ == bytes@.subrange(0, 32),
        r.1@ == bytes@.subrange(32, 64),
{
    let mut cert: Vec<u8> = Vec::new();
    let mut key: Vec<u8> = Vec::new();
    let mut i: usize = 0;
    while i < 32
        invariant
            i <= 32,
            bytes@.len() == 64,
            cert@ =~= bytes@.subrange(0, i as int),
            key@ =~= bytes@.subrange(32, 32 + i),
        decreases 32 - i,
    {
        cert.push(bytes[i]);
        key.push(bytes[32 + i]);
        i = i + 1;
    }
    (cert, key)
}

/// The fingerprint of a certificate: its SHA-256 digest.
pub fn cert_fingerprint(cert: &[u8]) -> (r: CertHash)
    ensures
        r@ == sha256_digest(cert@),
{
    sha256(cert)
}

/// The text of the error that every use of the transport gives.
pub open spec fn stub_text() -> Seq<char> {
    "QUIC transport not yet implemented (stub)"@
}

/// Whether an error says that the transport is not there.
pub open spec fn is_stub_error(e: TransportError) -> bool {
    e matches TransportError::Io(io) && io.kind == IoErrorKind::Unsupported && io.message@
        == stub_text()
}

/// The error that says that the transport is not there.
fn stub_error() -> (r: TransportError)
    ensures
        is_stub_error(r),
{
    TransportError::Io(
        IoError {
            kind: IoErrorKind::Unsupported,
            message: "QUIC transport not yet implemented (stub)".to_string(),
        },
    )
}

/// A transport over QUIC, which is not there yet.
pub struct QuicTransport {
    cert: Vec<u8>,
    key: Vec<u8>,
}

impl QuicTransport {
    pub closed spec fn certificate(self) -> Seq<u8> {
        self.cert@
    }

    pub closed spec fn private_key(self) -> Seq<u8> {
        self.key@
    }

    pub fn new(cert: Vec<u8>, key: Vec<u8>) -> (r: Self)
        ensures
            r.certificate() == cert@,
            r.private_key() == key@,
    {
        Self { cert, key }
    }

    /// Fails: the transport is not there yet.
    pub fn listen(&self, _addr: SocketAddr) -> (r: Result<QuicListener, TransportError>)
        ensures
            r is Err,
            is_stub_error(r->Err_0),
    {
        Err(stub_error())
    }

    /// Fails: the transport is not there yet.
    pub fn connect(&self, _addr: SocketAddr, _expected_cert_hash: CertHash) -> (r: Result<
        QuicConnection,
        TransportError,
    >)
        ensures
            r is Err,
            is_stub_error(r->Err_0),
    {
        Err(stub_error())
    }
}

/// A maker of connections over QUIC, which is not there yet.
pub struct QuicTransportConnector {
    cert: Vec<u8>,
    key: Vec<u8>,
    expected_cert_hash: CertHash,
}

impl QuicTransportConnector {
    pub closed spec fn certificate(self) -> Seq<u8> {
        self.cert@
    }

    pub closed spec fn private_key(self) -> Seq<u8> {
        self.key@
    }

    pub closed spec fn expected(self) -> CertHash {
        self.expected_cert_hash
    }

    pub fn new(cert: Vec<u8>, key: Vec<u8>, expected_cert_hash: CertHash) -> (r: Self)
        ensures
            r.certificate() == cert@,
            r.private_key() == key@,
            r.expected() == expected_cert_hash,
    {
        Self { cert, key, expected_cert_hash }
    }

    /// Fails: the transport is not there yet.
    pub fn connect(&self, _addr: SocketAddr) -> (r: Result<QuicConnection, TransportError>)
        ensures
            r is Err,
            is_stub_error(r->Err_0),
    {
        Err(stub_error())
    }
}

/// A listener over QUIC, which is not there yet.
pub struct QuicListener {
    addr: SocketAddr,
}

impl QuicListener {
    pub closed spec fn address(self) -> SocketAddr {
        self.addr
    }

    pub fn local_addr(&self) -> (r: SocketAddr)
        ensures
            r == self.address(),
    {
        self.addr
    }

    /// Fails: the transport is not there yet.
    pub fn accept(&self) -> (r: Result<QuicConnection, TransportError>)
        ensures
            r is Err,
            is_stub_error(r->Err_0),
    {
        Err(stub_error())
    }
}

/// A connection over QUIC, which is not there yet.
pub struct QuicConnection;

impl QuicConnection {
    /// Fails: the transport is not there yet.
    pub fn send(&mut self, _frame: &Frame) -> (r: Result<(), TransportError>)
        ensures
            r is Err,
            is_stub_error(r->Err_0),
    {
        Err(stub_error())
    }

    /// Fails: the transport is not there yet.
    pub fn recv(&mut self) -> (r: Result<Frame, TransportError>)
        ensures
            r is Err,
            is_stub_error(r->Err_0),
    {
        Err(stub_error())
    }

    /// Closes the connection.
    pub fn close(&mut self) -> (r: Result<(), TransportError>)
        ensures
            r is Ok,
    {
        Ok(())
    }
}

} // verus!
