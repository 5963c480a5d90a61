//! What other crates rely on in the protocol.
use rebar::cluster::protocol::{Frame, MsgType};
use rebar::term::Term;

#[test]
fn msg_type_variants_complete() {

    let variants: [(MsgType, u8); 13] = [
        (MsgType::Send, 0x01),
        (MsgType::Monitor, 0x02),
        (MsgType::Demonitor, 0x03),
        (MsgType::Link, 0x04),
        (MsgType::Unlink, 0x05),
        (MsgType::Exit, 0x06),
        (MsgType::ProcessDown, 0x07),
        (MsgType::NameLookup, 0x08),
        (MsgType::NameRegister, 0x09),
        (MsgType::NameUnregister, 0x0A),
        (MsgType::Heartbeat, 0x0B),
        (MsgType::HeartbeatAck, 0x0C),
        (MsgType::NodeInfo, 0x0D),
    ];

    for (variant, expected_value) in &variants {
        assert_eq!(
            variant.as_u8(), *expected_value,
            "MsgType::{:?} should have discriminant 0x{:02X}",
            variant, expected_value
        );
    }

    assert!(
        MsgType::from_u8(0x00).is_err(),
        "0x00 must not be a valid MsgType"
    );
    assert!(
        MsgType::from_u8(0x0E).is_err(),
        "0x0E must not be a valid MsgType"
    );
}

#[test]
fn frame_encode_decode_deterministic() {

    let frame = Frame {
        version: 1,
        msg_type: MsgType::Send,
        request_id: 12345,
        header: Term::Mapping(vec![(
            Term::from_text("key"),
            Term::from_u64(99),
        )]),
        payload: Term::from_text("deterministic"),
    };

    let bytes1 = frame.encode();
    let bytes2 = frame.encode();
    assert_eq!(bytes1, bytes2, "encoding the same frame twice must produce identical bytes");

    let decoded = Frame::decode(&bytes1).unwrap();
    assert_eq!(decoded.version, 1);
    assert_eq!(decoded.msg_type, MsgType::Send);
    assert_eq!(decoded.request_id, 12345);
    assert_eq!(
        decoded.payload,
        Term::from_text("deterministic")
    );
}
