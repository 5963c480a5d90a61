//! The frames that nodes exchange, and their bytes.
use crate::bytes::{
    be_bytes, be_bytes_len, be_round_trip, be_value, be_value_bound, byte_range_values, push_be,
    read_be,
};
use crate::msgpack::{
    msgpack_read, read_depth, read_outcome, read_value, readable, term_bytes, write_value,
};
use crate::process::types::send_error_text;
use crate::process::SendError;
use crate::term::{Term, TermView};
use crate::text::{decimal, push_decimal};
use vstd::prelude::*;
use vstd::string::*;

verus! {

/// Why bytes are not a frame, or a frame could not be made or delivered.
#[derive(Debug)]
pub enum FrameError {
    InvalidMsgType(u8),
    TooShort { expected: u64, actual: u64 },
    MsgpackDecode(String),
    MsgpackEncode(String),
    MalformedFrame(&'static str),
    Send(SendError),
}

/// The message of a frame error.
pub open spec fn frame_error_text(e: FrameError) -> Seq<char> {
    match e {
        FrameError::InvalidMsgType(n) => "invalid message type: "@ + decimal(n as nat),
        FrameError::TooShort { expected, actual } => "frame too short: need at least "@ + decimal(
            expected as nat,
        ) + " bytes, got "@ + decimal(actual as nat),
        FrameError::MsgpackDecode(s) => "msgpack decode error: "@ + s@,
        FrameError::MsgpackEncode(s) => "msgpack encode error: "@ + s@,
        FrameError::MalformedFrame(s) => "malformed frame: "@ + s@,
        FrameError::Send(e) => send_error_text(e),
    }
}

impl FrameError {
    /// The message of the error.
    pub fn to_string(&self) -> (r: String)
        ensures
            r@ == frame_error_text(*self),
    {
        let mut s = String::new();
        match self {
            FrameError::InvalidMsgType(n) => {
                s.append("invalid message type: ");
                push_decimal(&mut s, *n as u64);
            },
            FrameError::TooShort { expected, actual } => {
                s.append("frame too short: need at least ");
                push_decimal(&mut s, *expected);
                s.append(" bytes, got ");
                push_decimal(&mut s, *actual);
            },
            FrameError::MsgpackDecode(text) => {
                s.append("msgpack decode error: ");
                s.append(text.as_str());
            },
            FrameError::MsgpackEncode(text) => {
                s.append("msgpack encode error: ");
                s.append(text.as_str());
            },
            FrameError::MalformedFrame(text) => {
                s.append("malformed frame: ");
                s.append(text);
            },
            FrameError::Send(e) => {
                s.append(e.to_string().as_str());
            },
        }
        assert(s@ =~= frame_error_text(*self));
        s
    }

    /// Whether two errors are of the same kind and carry the same content.
    pub open spec fn same(self, other: FrameError) -> bool {
        match (self, other) {
            (FrameError::InvalidMsgType(a), FrameError::InvalidMsgType(b)) => a == b,
            (
                FrameError::TooShort { expected: a, actual: x },
                FrameError::TooShort { expected: b, actual: y },
            ) => a == b && x == y,
            (FrameError::MsgpackDecode(a), FrameError::MsgpackDecode(b)) => a@ == b@,
            (FrameError::MsgpackEncode(a), FrameError::MsgpackEncode(b)) => a@ == b@,
            (FrameError::MalformedFrame(a), FrameError::MalformedFrame(b)) => a@ == b@,
            (FrameError::Send(a), FrameError::Send(b)) => a.same(b),
            _ => false,
        }
    }
}

impl PartialEq for FrameError {
    fn eq(&self, other: &Self) -> (r: bool) {
        match (self, other) {
            (FrameError::InvalidMsgType(a), FrameError::InvalidMsgType(b)) => *a == *b,
            (
                FrameError::TooShort { expected: a, actual: x },
                FrameError::TooShort { expected: b, actual: y },
            ) => *a == *b && *x == *y,
            (FrameError::MsgpackDecode(a), FrameError::MsgpackDecode(b)) => *a == *b,
            (FrameError::MsgpackEncode(a), FrameError::MsgpackEncode(b)) => *a == *b,
            (FrameError::MalformedFrame(a), FrameError::MalformedFrame(b)) => (*a).to_string()
                == (*b).to_string(),
            (FrameError::Send(a), FrameError::Send(b)) => *a == *b,
            _ => false,
        }
    }
}

impl vstd::std_specs::cmp::PartialEqSpecImpl for FrameError {
    open spec fn obeys_eq_spec() -> bool {
        true
    }

    open spec fn eq_spec(&self, other: &Self) -> bool {
        self.same(*other)
    }
}

impl From<SendError> for FrameError {
    fn from(e: SendError) -> (r: Self) {
        FrameError::Send(e)
    }
}

impl vstd::std_specs::convert::FromSpecImpl<SendError> for FrameError {
    open spec fn obeys_from_spec() -> bool {
        true
    }

    open spec fn from_spec(e: SendError) -> Self {
        FrameError::Send(e)
    }
}

/// The kinds of message between nodes.
#[derive(Debug, Clone, Copy, PartialEq, Eq, Structural)]
pub enum MsgType {
    Send,
    Monitor,
    Demonitor,
    Link,
    Unlink,
    Exit,
    ProcessDown,
    NameLookup,
    NameRegister,
    NameUnregister,
    Heartbeat,
    HeartbeatAck,
    NodeInfo,
}

impl MsgType {
    /// The code of the kind in a frame.
    pub open spec fn code(self) -> u8 {
        match self {
            MsgType::Send => 0x01,
            MsgType::Monitor => 0x02,
            MsgType::Demonitor => 0x03,
            MsgType::Link => 0x04,
            MsgType::Unlink => 0x05,
            MsgType::Exit => 0x06,
            MsgType::ProcessDown => 0x07,
            MsgType::NameLookup => 0x08,
            MsgType::NameRegister => 0x09,
            MsgType::NameUnregister => 0x0A,
            MsgType::Heartbeat => 0x0B,
            MsgType::HeartbeatAck => 0x0C,
            MsgType::NodeInfo => 0x0D,
        }
    }

    /// The code of the kind in a frame.
    pub fn as_u8(&self) -> (r: u8)
        ensures
            r == self.code(),
            1 <= r <= 0x0D,
    {
        match self {
            MsgType::Send => 0x01,
            MsgType::Monitor => 0x02,
            MsgType::Demonitor => 0x03,
            MsgType::Link => 0x04,
            MsgType::Unlink => 0x05,
            MsgType::Exit => 0x06,
            MsgType::ProcessDown => 0x07,
            MsgType::NameLookup => 0x08,
            MsgType::NameRegister => 0x09,
            MsgType::NameUnregister => 0x0A,
            MsgType::Heartbeat => 0x0B,
            MsgType::HeartbeatAck => 0x0C,
            MsgType::NodeInfo => 0x0D,
        }
    }

    /// The kind with a code.
    pub fn from_u8(v: u8) -> (r: Result<Self, FrameError>)
        ensures
            match r {
                Ok(t) => t.code() == v,
                Err(e) => e == FrameError::InvalidMsgType(v) && !(1 <= v <= 0x0D),
            },
    {
        match v {
            0x01 => Ok(MsgType::Send),
            0x02 => Ok(MsgType::Monitor),
            0x03 => Ok(MsgType::Demonitor),
            0x04 => Ok(MsgType::Link),
            0x05 => Ok(MsgType::Unlink),
            0x06 => Ok(MsgType::Exit),
            0x07 => Ok(MsgType::ProcessDown),
            0x08 => Ok(MsgType::NameLookup),
            0x09 => Ok(MsgType::NameRegister),
            0x0A => Ok(MsgType::NameUnregister),
            0x0B => Ok(MsgType::Heartbeat),
            0x0C => Ok(MsgType::HeartbeatAck),
            0x0D => Ok(MsgType::NodeInfo),
            _ => Err(FrameError::InvalidMsgType(v)),
        }
    }
}

/// No two kinds have the same code, and the codes are the numbers from 1 to 13.
pub proof fn msg_type_codes_are_distinct(a: MsgType, b: MsgType)
    ensures
        a.code() == b.code() ==> a == b,
        1 <= a.code() <= 0x0D,
{
}

/// A frame.
#[derive(Debug)]
pub struct Frame {
    pub version: u8,
    pub msg_type: MsgType,
    pub request_id: u64,
    pub header: Term,
    pub payload: Term,
}

/// The content of a frame.
pub struct FrameView {
    pub version: u8,
    pub msg_type: MsgType,
    pub request_id: u64,
    pub header: TermView,
    pub payload: TermView,
}

impl View for Frame {
    type V = FrameView;

    open spec fn view(&self) -> FrameView {
        FrameView {
            version: self.version,
            msg_type: self.msg_type,
            request_id: self.request_id,
            header: self.header@,
            payload: self.payload@,
        }
    }
}

impl Clone for Frame {
    fn clone(&self) -> (r: Self)
        ensures
            r@ == self@,
    {
        Frame {
            version: self.version,
            msg_type: self.msg_type,
            request_id: self.request_id,
            header: self.header.clone(),
            payload: self.payload.clone(),
        }
    }
}

/// The size of the fixed part: version, kind, request identifier and two lengths.
pub const FIXED_HEADER_SIZE: usize = 18;

/// The bytes of a frame, given the bytes of its header and payload: a version byte, a kind
/// byte, eight bytes of request identifier, four bytes each of header and payload length, the
/// header and the payload. Only the lowest four bytes of a length are kept.
pub open spec fn frame_bytes(
    version: u8,
    code: u8,
    request_id: u64,
    header: Seq<u8>,
    payload: Seq<u8>,
) -> Seq<u8> {
    seq![version, code] + be_bytes(request_id as nat, 8) + be_bytes(header.len(), 4) + be_bytes(
        payload.len(),
        4,
    ) + header + payload
}

/// The parts of a frame that its bytes give before the header and payload are read.
pub struct FrameLayout<'a> {
    pub version: u8,
    pub msg_type: MsgType,
    pub request_id: u64,
    pub header: &'a [u8],
    pub payload: &'a [u8],
}

/// The length that four bytes at a position give.
pub open spec fn length_at(bytes: Seq<u8>, at: int) -> nat {
    be_value(bytes.subrange(at, at + 4))
}

/// How many bytes a frame must have, by the lengths in its fixed part.
pub open spec fn frame_size(bytes: Seq<u8>) -> nat {
    18 + length_at(bytes, 10) + length_at(bytes, 14)
}

/// Whether bytes hold the fixed part with a valid kind and as many bytes behind it as it says.
pub open spec fn well_laid_out(bytes: Seq<u8>) -> bool {
    &&& bytes.len() >= 18
    &&& 1 <= bytes[1] <= 0x0D
    &&& bytes.len() >= frame_size(bytes)
}

/// The bytes of the header.
pub open spec fn header_part(bytes: Seq<u8>) -> Seq<u8> {
    bytes.subrange(18, (18 + length_at(bytes, 10)) as int)
}

/// The bytes of the payload.
pub open spec fn payload_part(bytes: Seq<u8>) -> Seq<u8> {
    bytes.subrange((18 + length_at(bytes, 10)) as int, frame_size(bytes) as int)
}

/// Takes the bytes of a frame apart, down to the bytes of its header and payload.
pub fn split_frame(bytes: &[u8]) -> (r: Result<FrameLayout<'_>, FrameError>)
    ensures
        match r {
            Ok(l) => {
                &&& well_laid_out(bytes@)
                &&& l.version == bytes@[0]
                &&& l.msg_type.code() == bytes@[1]
                &&& l.request_id == be_value(bytes@.subrange(2, 10))
                &&& l.header@ == header_part(bytes@)
                &&& l.payload@ == payload_part(bytes@)
            },
            Err(e) => {
                &&& !well_laid_out(bytes@)
                &&& e == layout_error(bytes@)
            },
        },
{
    if bytes.len() < FIXED_HEADER_SIZE {
        return Err(
            FrameError::TooShort { expected: FIXED_HEADER_SIZE as u64, actual: bytes.len() as u64 },
        );
    }
    let version: u8 = bytes[0];
    let msg_type = match MsgType::from_u8(bytes[1]) {
        Ok(t) => t,
        Err(e) => {
            return Err(e);
        },
    };
    let request_id: u64 = read_be(bytes, 2, 8);
    let header_len: u64 = read_be(bytes, 10, 4);
    let payload_len: u64 = read_be(bytes, 14, 4);
    proof {
        be_value_bound(bytes@.subrange(10, 14));
        be_value_bound(bytes@.subrange(14, 18));
        byte_range_values();
    }
    let expected: u64 = FIXED_HEADER_SIZE as u64 + header_len + payload_len;
    if (bytes.len() as u64) < expected {
        return Err(FrameError::TooShort { expected, actual: bytes.len() as u64 });
    }
    let header_end: usize = (FIXED_HEADER_SIZE as u64 + header_len) as usize;
    let payload_end: usize = expected as usize;
    let header = vstd::slice::slice_subrange(bytes, FIXED_HEADER_SIZE, header_end);
    let payload = vstd::slice::slice_subrange(bytes, header_end, payload_end);
    Ok(FrameLayout { version, msg_type, request_id, header, payload })
}

/// The error of bytes that are not laid out as a frame.
pub open spec fn layout_error(bytes: Seq<u8>) -> FrameError {
    if bytes.len() < 18 {
        FrameError::TooShort { expected: 18, actual: bytes.len() as u64 }
    } else if !(1 <= bytes[1] <= 0x0D) {
        FrameError::InvalidMsgType(bytes[1])
    } else {
        FrameError::TooShort { expected: frame_size(bytes) as u64, actual: bytes.len() as u64 }
    }
}

/// Puts the bytes of a frame together from those of its header and payload.
pub fn join_frame(
    version: u8,
    msg_type: MsgType,
    request_id: u64,
    header: &Vec<u8>,
    payload: &Vec<u8>,
) -> (r: Vec<u8>)
    ensures
        r@ == frame_bytes(version, msg_type.code(), request_id, header@, payload@),
{
    let mut out: Vec<u8> = Vec::new();
    out.push(version);
    out.push(msg_type.as_u8());
    push_be(&mut out, request_id, 8);
    push_be(&mut out, header.len() as u64, 4);
    push_be(&mut out, payload.len() as u64, 4);
    push_all(&mut out, header);
    push_all(&mut out, payload);
    assert(out@ =~= frame_bytes(version, msg_type.code(), request_id, header@, payload@));
    out
}

/// Appends bytes.
fn push_all(out: &mut Vec<u8>, bytes: &Vec<u8>)
    ensures
        final(out)@ == old(out)@ + bytes@,
{
    let mut i: usize = 0;
    assert(out@ =~= old(out)@ + bytes@.take(0));
    while i < bytes.len()
        invariant
            i <= bytes@.len(),
            out@ == old(out)@ + bytes@.take(i as int),
        decreases bytes@.len() - i,
    {
        out.push(bytes[i]);
        i = i + 1;
        assert(out@ =~= old(out)@ + bytes@.take(i as int));
    }
    assert(bytes@.take(i as int) =~= bytes@);
}

/// The frame of a layout whose header and payload were read, or the error of reading the
/// header, or else of reading the payload.
pub fn complete_frame(
    version: u8,
    msg_type: MsgType,
    request_id: u64,
    header: Result<Term, String>,
    payload: Result<Term, String>,
) -> (r: Result<Frame, FrameError>)
    ensures
        match (header, payload) {
            (Ok(h), Ok(p)) => r == Ok::<Frame, FrameError>(
                (Frame { version, msg_type, request_id, header: h, payload: p }),
            ),
            (Err(e), _) => r == Err::<Frame, FrameError>(FrameError::MsgpackDecode(e)),
            (Ok(_), Err(e)) => r == Err::<Frame, FrameError>(FrameError::MsgpackDecode(e)),
        },
{
    let header = match header {
        Ok(h) => h,
        Err(e) => {
            return Err(FrameError::MsgpackDecode(e));
        },
    };
    let payload = match payload {
        Ok(p) => p,
        Err(e) => {
            return Err(FrameError::MsgpackDecode(e));
        },
    };
    Ok(Frame { version, msg_type, request_id, header, payload })
}

/// Whether reading the bytes as a frame gives a frame of this content.
pub open spec fn reads_as(bytes: Seq<u8>, f: FrameView) -> bool {
    &&& well_laid_out(bytes)
    &&& f.version == bytes[0]
    &&& f.msg_type.code() == bytes[1]
    &&& f.request_id == be_value(bytes.subrange(2, 10))
    &&& msgpack_read(header_part(bytes)) == Ok::<TermView, Seq<char>>(f.header)
    &&& msgpack_read(payload_part(bytes)) == Ok::<TermView, Seq<char>>(f.payload)
}

/// Whether reading the bytes as a frame gives the error.
pub open spec fn fails_as(bytes: Seq<u8>, e: FrameError) -> bool {
    if !well_laid_out(bytes) {
        e == layout_error(bytes)
    } else if msgpack_read(header_part(bytes)) is Err {
        e is MsgpackDecode && e->MsgpackDecode_0@ == msgpack_read(header_part(bytes))->Err_0
    } else {
        &&& msgpack_read(payload_part(bytes)) is Err
        &&& e is MsgpackDecode
        &&& e->MsgpackDecode_0@ == msgpack_read(payload_part(bytes))->Err_0
    }
}

impl FrameView {
    /// Whether the frame can be read back from its bytes: header and payload can, and their
    /// lengths fit the four bytes that they are given.
    pub open spec fn can_travel(self) -> bool {
        &&& readable(self.header, read_depth())
        &&& readable(self.payload, read_depth())
        &&& term_bytes(self.header).len() <= u32::MAX
        &&& term_bytes(self.payload).len() <= u32::MAX
    }
}

impl Frame {
    /// The bytes of the frame. Reading them gives the frame back.
    pub fn encode(&self) -> (r: Vec<u8>)
        ensures
            r@ == frame_bytes(
                self.version,
                self.msg_type.code(),
                self.request_id,
                term_bytes(self.header@),
                term_bytes(self.payload@),
            ),
            self@.can_travel() ==> reads_as(r@, self@),
    {
        let header_buf = write_value(&self.header);
        let payload_buf = write_value(&self.payload);
        let out = join_frame(
            self.version,
            self.msg_type,
            self.request_id,
            &header_buf,
            &payload_buf,
        );
        proof {
            if self@.can_travel() {
                frame_parts(
                    self.version,
                    self.msg_type.code(),
                    self.request_id,
                    header_buf@,
                    payload_buf@,
                );
            }
        }
        out
    }

    /// Reads a frame from bytes; bytes behind the frame are ignored.
    pub fn decode(bytes: &[u8]) -> (r: Result<Self, FrameError>)
        ensures
            match r {
                Ok(f) => reads_as(bytes@, f@),
                Err(e) => fails_as(bytes@, e),
            },
            forall|f: FrameView|
                #![trigger reads_as(bytes@, f)]
                reads_as(bytes@, f) ==> r is Ok && r->Ok_0@ == f,
    {
        let layout = match split_frame(bytes) {
            Ok(l) => l,
            Err(e) => {
                return Err(e);
            },
        };
        let header = read_value(layout.header);
        let payload = read_value(layout.payload);
        proof {
            assert(msgpack_read(header_part(bytes@)) == read_outcome(header));
            assert(msgpack_read(payload_part(bytes@)) == read_outcome(payload));
        }
        complete_frame(layout.version, layout.msg_type, layout.request_id, header, payload)
    }
}

/// The parts of the bytes of a frame, where the lengths of header and payload fit four bytes.
pub proof fn frame_parts(
    version: u8,
    code: u8,
    request_id: u64,
    header: Seq<u8>,
    payload: Seq<u8>,
)
    requires
        1 <= code <= 0x0D,
        header.len() <= u32::MAX,
        payload.len() <= u32::MAX,
    ensures
        ({
            let b = frame_bytes(version, code, request_id, header, payload);
            &&& well_laid_out(b)
            &&& b.len() == frame_size(b)
            &&& b[0] == version
            &&& b[1] == code
            &&& be_value(b.subrange(2, 10)) == request_id
            &&& header_part(b) == header
            &&& payload_part(b) == payload
        }),
{
    let b = frame_bytes(version, code, request_id, header, payload);
    byte_range_values();
    be_bytes_len(request_id as nat, 8);
    be_bytes_len(header.len(), 4);
    be_bytes_len(payload.len(), 4);
    be_round_trip(request_id as nat, 8);
    be_round_trip(header.len(), 4);
    be_round_trip(payload.len(), 4);
    assert(b.subrange(2, 10) =~= be_bytes(request_id as nat, 8));
    assert(b.subrange(10, 14) =~= be_bytes(header.len(), 4));
    assert(b.subrange(14, 18) =~= be_bytes(payload.len(), 4));
    assert(header_part(b) =~= header);
    assert(payload_part(b) =~= payload);
}

/// Bytes read as one frame at most.
pub proof fn frame_is_determined(bytes: Seq<u8>, f: FrameView, g: FrameView)
    requires
        reads_as(bytes, f),
        reads_as(bytes, g),
    ensures
        f == g,
{
    msg_type_codes_are_distinct(f.msg_type, g.msg_type);
}

/// What comes behind a frame does not matter: bytes that read as a frame read as the same frame
/// with any bytes behind them.
pub proof fn bytes_behind_a_frame_are_ignored(bytes: Seq<u8>, more: Seq<u8>, f: FrameView)
    requires
        reads_as(bytes, f),
    ensures
        reads_as(bytes + more, f),
{
    let all = bytes + more;
    assert(all.subrange(2, 10) =~= bytes.subrange(2, 10));
    assert(all.subrange(10, 14) =~= bytes.subrange(10, 14));
    assert(all.subrange(14, 18) =~= bytes.subrange(14, 18));
    assert(header_part(all) =~= header_part(bytes));
    assert(payload_part(all) =~= payload_part(bytes));
}

/// A frame that was cut short is no frame: whatever part of its bytes is left, the error says how
/// many there are, and that more are needed.
pub proof fn frames_cut_short_are_refused(
    version: u8,
    code: u8,
    request_id: u64,
    header: Seq<u8>,
    payload: Seq<u8>,
    n: int,
    e: FrameError,
)
    requires
        1 <= code <= 0x0D,
        header.len() <= u32::MAX,
        payload.len() <= u32::MAX,
        0 <= n < frame_bytes(version, code, request_id, header, payload).len(),
        fails_as(frame_bytes(version, code, request_id, header, payload).take(n), e),
    ensures
        !well_laid_out(frame_bytes(version, code, request_id, header, payload).take(n)),
        e is TooShort,
        e->actual == n,
        e->expected > n,
{
    let all = frame_bytes(version, code, request_id, header, payload);
    let cut = all.take(n);
    frame_parts(version, code, request_id, header, payload);
    byte_range_values();
    be_value_bound(all.subrange(10, 14));
    be_value_bound(all.subrange(14, 18));
    if n >= 18 {
        assert(cut.subrange(10, 14) =~= all.subrange(10, 14));
        assert(cut.subrange(14, 18) =~= all.subrange(14, 18));
    }
}

/// Bytes with a kind that there is not are no frame, and the error names the kind.
pub proof fn unknown_kinds_are_refused(bytes: Seq<u8>, f: FrameView, e: FrameError)
    requires
        bytes.len() >= 18,
        bytes[1] == 0 || bytes[1] > 13,
    ensures
        !reads_as(bytes, f),
        fails_as(bytes, e) ==> e == FrameError::InvalidMsgType(bytes[1]),
{
}

/// Bytes are a frame or they are not: what reads as a frame does not fail.
pub proof fn frames_do_not_fail(bytes: Seq<u8>, f: FrameView, e: FrameError)
    requires
        reads_as(bytes, f),
    ensures
        !fails_as(bytes, e),
{
}

/// Comparing errors of frames is an equality: every error is the same as itself, it does not
/// matter in which order two are compared, and what is the same reads the same.
pub proof fn same_frame_errors_read_the_same(a: FrameError, b: FrameError)
    ensures
        a.same(a),
        a.same(b) <==> b.same(a),
        a.same(b) ==> frame_error_text(a) == frame_error_text(b),
        a.same(b) && a is InvalidMsgType ==> b == a,
        a.same(b) && a is TooShort ==> b == a,
        a.same(b) && a is MsgpackDecode ==> b is MsgpackDecode,
        a.same(b) && a is MsgpackEncode ==> b is MsgpackEncode,
        a.same(b) && a is MalformedFrame ==> b is MalformedFrame,
        a.same(b) && a is Send ==> b is Send,
{
    match (a, b) {
        (FrameError::Send(x), FrameError::Send(y)) => {
            crate::process::types::same_send_errors_read_the_same(x, y, y);
        },
        _ => {},
    }
}

} // verus!
