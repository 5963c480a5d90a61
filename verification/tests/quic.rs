//! Certificates, and the transport that is not there yet.
use rebar::cluster::addr::SocketAddr;
use rebar::cluster::transport::quic::{
    cert_fingerprint, generate_self_signed_cert, split_bytes, QuicConnection, QuicTransport,
    QuicTransportConnector,
};

#[test]
fn generate_cert_returns_nonempty() {
    let (cert, key, hash) = generate_self_signed_cert();
    assert!(!cert.is_empty());
    assert!(!key.is_empty());
    assert_ne!(hash, [0u8; 32]);
}

#[test]
fn cert_fingerprint_is_deterministic() {
    let (cert, _, hash1) = generate_self_signed_cert();
    let hash2 = cert_fingerprint(&cert);
    assert_eq!(hash1, hash2);
}

#[test]
fn different_certs_have_different_fingerprints() {
    let (_, _, hash1) = generate_self_signed_cert();
    let (_, _, hash2) = generate_self_signed_cert();
    assert_ne!(hash1, hash2);
}

#[test]
fn quic_transport_listen_returns_stub_error() {
    let (cert, key, _) = generate_self_signed_cert();
    let transport = QuicTransport::new(cert, key);
    let result = transport
        .listen(SocketAddr::v4(127, 0, 0, 1, 0));
    assert!(result.is_err());
}

#[test]
fn quic_transport_connect_returns_stub_error() {
    let (cert, key, hash) = generate_self_signed_cert();
    let transport = QuicTransport::new(cert, key);
    let result = transport
        .connect(SocketAddr::v4(127, 0, 0, 1, 4000), hash);
    assert!(result.is_err());
}

#[test]
fn quic_transport_types_exist() {
    let (cert, key, _hash) = generate_self_signed_cert();
    let _transport = QuicTransport::new(cert, key);
}

#[test]
fn quic_cert_generation_works() {
    let (cert, _key, hash) = generate_self_signed_cert();

    assert!(
        !AsRef::<[u8]>::as_ref(&cert).is_empty(),
        "generated certificate must not be empty"
    );

    assert_ne!(hash, [0u8; 32], "certificate hash must not be all zeros");

    let recomputed = cert_fingerprint(&cert);
    assert_eq!(
        hash, recomputed,
        "cert_fingerprint must be deterministic for the same certificate"
    );
}

#[test]
fn fingerprint_is_the_sha_256_digest() {
    let digest = cert_fingerprint(b"abc");
    assert_eq!(digest[..4], [0xba, 0x78, 0x16, 0xbf]);
    assert_eq!(digest[28..], [0xf2, 0x00, 0x15, 0xad]);
}

#[test]
fn certificate_and_key_are_the_halves_of_the_bytes() {
    let mut bytes = [0u8; 64];
    for i in 0..64 {
        bytes[i] = i as u8;
    }
    let (cert, key) = split_bytes(&bytes);
    assert_eq!(cert, (0u8..32).collect::<Vec<u8>>());
    assert_eq!(key, (32u8..64).collect::<Vec<u8>>());
}

#[test]
fn generated_bytes_differ() {
    let (cert, key, _) = generate_self_signed_cert();
    let (other, _, _) = generate_self_signed_cert();
    assert_eq!(cert.len(), 32);
    assert_eq!(key.len(), 32);
    assert_ne!(cert, other);
    assert_ne!(cert, key);
}

#[test]
fn the_stub_says_what_it_is() {
    let (cert, key, hash) = generate_self_signed_cert();
    let connector = QuicTransportConnector::new(cert, key, hash);
    let error = connector.connect(SocketAddr::v4(127, 0, 0, 1, 4000)).err().unwrap();
    assert_eq!(
        error.to_string(),
        "io error: QUIC transport not yet implemented (stub)"
    );
    let mut connection = QuicConnection;
    assert!(connection.recv().is_err());
    assert!(connection.close().is_ok());
}
