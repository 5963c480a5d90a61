//! Frames and their bytes.
use rebar::cluster::protocol::{Frame, MsgType};
use rebar::term::Term;

#[test]
fn encode_decode_send() {
    let frame = Frame {
        version: 1,
        msg_type: MsgType::Send,
        request_id: 0,
        header: Term::Mapping(vec![(
            Term::from_text("dest"),
            Term::from_u64(42),
        )]),
        payload: Term::from_text("hello"),
    };
    let bytes = frame.encode();
    let decoded = Frame::decode(&bytes).unwrap();
    assert_eq!(decoded.version, 1);
    assert_eq!(decoded.msg_type, MsgType::Send);
    assert_eq!(decoded.payload, Term::from_text("hello"));
}

#[test]
fn encode_decode_heartbeat() {
    let frame = Frame {
        version: 1,
        msg_type: MsgType::Heartbeat,
        request_id: 0,
        header: Term::Nil,
        payload: Term::Nil,
    };
    let decoded = Frame::decode(&frame.encode()).unwrap();
    assert_eq!(decoded.msg_type, MsgType::Heartbeat);
}

#[test]
fn encode_decode_with_request_id() {
    let frame = Frame {
        version: 1,
        msg_type: MsgType::NameLookup,
        request_id: 12345,
        header: Term::Nil,
        payload: Term::Nil,
    };
    let decoded = Frame::decode(&frame.encode()).unwrap();
    assert_eq!(decoded.request_id, 12345);
}

#[test]
fn all_msg_types_roundtrip() {
    let types = [
        MsgType::Send,
        MsgType::Monitor,
        MsgType::Demonitor,
        MsgType::Link,
        MsgType::Unlink,
        MsgType::Exit,
        MsgType::ProcessDown,
        MsgType::NameLookup,
        MsgType::NameRegister,
        MsgType::NameUnregister,
        MsgType::Heartbeat,
        MsgType::HeartbeatAck,
        MsgType::NodeInfo,
    ];
    for msg_type in types {
        let frame = Frame {
            version: 1,
            msg_type,
            request_id: 0,
            header: Term::Nil,
            payload: Term::Nil,
        };
        let decoded = Frame::decode(&frame.encode()).unwrap();
        assert_eq!(decoded.msg_type, msg_type);
    }
}

#[test]
fn decode_invalid_msg_type() {
    let mut bytes = Frame {
        version: 1,
        msg_type: MsgType::Send,
        request_id: 0,
        header: Term::Nil,
        payload: Term::Nil,
    }
    .encode();
    bytes[1] = 0xFF;
    assert!(Frame::decode(&bytes).is_err());
}

#[test]
fn decode_truncated_header() {
    assert!(Frame::decode(&[0u8; 5]).is_err());
}

#[test]
fn decode_truncated_payload() {
    let frame = Frame {
        version: 1,
        msg_type: MsgType::Send,
        request_id: 0,
        header: Term::Nil,
        payload: Term::from_text("data"),
    };
    let bytes = frame.encode();
    let truncated = &bytes[..bytes.len() - 2];
    assert!(Frame::decode(truncated).is_err());
}

#[test]
fn decode_empty_bytes() {
    assert!(Frame::decode(&[]).is_err());
}

#[test]
fn large_payload_roundtrip() {
    let big_string = "x".repeat(100_000);
    let frame = Frame {
        version: 1,
        msg_type: MsgType::Send,
        request_id: 0,
        header: Term::Nil,
        payload: Term::from_text(&big_string),
    };
    let decoded = Frame::decode(&frame.encode()).unwrap();
    assert_eq!(decoded.payload.as_str().unwrap().len(), 100_000);
}

#[test]
fn binary_payload_roundtrip() {
    let data = vec![0xDE, 0xAD, 0xBE, 0xEF];
    let frame = Frame {
        version: 1,
        msg_type: MsgType::Send,
        request_id: 0,
        header: Term::Nil,
        payload: Term::Binary(data.clone()),
    };
    let decoded = Frame::decode(&frame.encode()).unwrap();
    assert_eq!(decoded.payload, Term::Binary(data));
}

#[test]
fn nested_map_payload() {
    let payload = Term::Mapping(vec![(
        Term::from_text("nested"),
        Term::Mapping(vec![(
            Term::from_text("deep"),
            Term::from_u64(42),
        )]),
    )]);
    let frame = Frame {
        version: 1,
        msg_type: MsgType::Send,
        request_id: 0,
        header: Term::Nil,
        payload,
    };
    let decoded = Frame::decode(&frame.encode()).unwrap();
    assert_eq!(decoded.payload.as_map().unwrap().len(), 1);
}

#[test]
fn max_request_id() {
    let frame = Frame {
        version: 1,
        msg_type: MsgType::Send,
        request_id: u64::MAX,
        header: Term::Nil,
        payload: Term::Nil,
    };
    let decoded = Frame::decode(&frame.encode()).unwrap();
    assert_eq!(decoded.request_id, u64::MAX);
}

#[test]
fn version_preserved() {
    let frame = Frame {
        version: 42,
        msg_type: MsgType::Send,
        request_id: 0,
        header: Term::Nil,
        payload: Term::Nil,
    };
    let decoded = Frame::decode(&frame.encode()).unwrap();
    assert_eq!(decoded.version, 42);
}

#[test]
fn encode_deterministic() {
    let frame = Frame {
        version: 1,
        msg_type: MsgType::Heartbeat,
        request_id: 0,
        header: Term::Nil,
        payload: Term::Nil,
    };
    let a = frame.encode();
    let b = frame.encode();
    assert_eq!(a, b);
}

#[test]
fn header_and_payload_both_populated() {
    let header = Term::Mapping(vec![
        (
            Term::from_text("from"),
            Term::from_u64(1),
        ),
        (
            Term::from_text("to"),
            Term::from_u64(2),
        ),
    ]);
    let payload = Term::from_text("body");
    let frame = Frame {
        version: 1,
        msg_type: MsgType::Send,
        request_id: 7,
        header,
        payload,
    };
    let decoded = Frame::decode(&frame.encode()).unwrap();
    assert_eq!(decoded.header.as_map().unwrap().len(), 2);
    assert_eq!(decoded.payload.as_str().unwrap(), "body");
}
