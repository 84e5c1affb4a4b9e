//! The frame codec: `[u32 little-endian frame length][envelope]`, where the
//! envelope is bincode's layout of `(code: u32, payload: bytes)`.
use vstd::prelude::*;
use crate::wire::{
    deserialize_envelope, envelope_bytes, envelope_code, envelope_complete, envelope_payload,
    le_u32, le_u64, lemma_le_u32_round_trip, lemma_le_u64_round_trip, read_u32_le, seq_body,
    seq_bytes, serialize_envelope, u32_le, u32_le_bytes, u64_le_bytes,
};

verus! {

/// Why a frame could not be encoded or decoded.
#[derive(Debug)]
pub enum MsgError {
    /// Fewer bytes than a length prefix needs.
    DataSizeTooSmall { min_size: usize },
    /// bincode refused to encode a value.
    Serialize(Box<bincode::ErrorKind>),
    /// An envelope or a payload is malformed.
    Deserialize(Box<bincode::ErrorKind>),
    /// The frame breaks a rule of the protocol (zero length, too long).
    LogicError { msg: String },
}

/// One decoded frame: the message code and its still-encoded payload.
#[derive(Debug)]
pub struct MsgInfo {
    pub code: u32,
    pub data: Vec<u8>,
}

impl View for MsgInfo {
    type V = (u32, Seq<u8>);

    open spec fn view(&self) -> (u32, Seq<u8>) {
        (self.code, self.data@)
    }
}

impl MsgInfo {
    pub fn new(code: u32, data: Vec<u8>) -> (r: MsgInfo)
        ensures
            r@ == (code, data@),
    {
        MsgInfo { code, data }
    }

    /// The payload bytes, as the sender encoded them.
    pub fn data(&self) -> (r: &[u8])
        ensures
            r@ == self@.1,
    {
        self.data.as_slice()
    }
}

/// A decoded frame and the bytes that follow it.
pub struct MsgStream<'a> {
    pub msginfo: MsgInfo,
    pub buffer_rem: &'a [u8],
}

impl<'a> MsgStream<'a> {
    fn new(msginfo: MsgInfo, buffer_rem: &'a [u8]) -> (r: Self)
        ensures
            r.msginfo == msginfo,
            r.buffer_rem == buffer_rem,
    {
        MsgStream { msginfo, buffer_rem }
    }
}

/// What the start of a byte buffer holds.
pub enum Decoded {
    /// Not a whole frame yet: keep the bytes and wait for more.
    Incomplete,
    /// A frame that declares a length of zero.
    ZeroLength,
    /// A whole frame whose envelope cannot be read.
    Malformed,
    /// A frame of `size` bytes in all.
    Frame { code: u32, payload: Seq<u8>, size: nat },
}

/// The length that a frame declares for its envelope.
pub open spec fn frame_length(b: Seq<u8>) -> nat
    recommends
        b.len() >= 4,
{
    le_u32(b)
}

/// What the start of `b` holds, as the codec reads it.
pub open spec fn decode_one(b: Seq<u8>) -> Decoded {
    if b.len() < 4 {
        Decoded::Incomplete
    } else if frame_length(b) == 0 {
        Decoded::ZeroLength
    } else if b.len() < 4 + frame_length(b) {
        Decoded::Incomplete
    } else {
        let envelope = b.subrange(4, 4 + frame_length(b) as int);
        if envelope_complete(envelope) {
            Decoded::Frame {
                code: envelope_code(envelope),
                payload: envelope_payload(envelope),
                size: 4 + frame_length(b),
            }
        } else {
            Decoded::Malformed
        }
    }
}

/// The bytes of one frame for `code` and `payload`.
pub open spec fn frame_bytes(code: u32, payload: Seq<u8>) -> Seq<u8> {
    u32_le_bytes(envelope_bytes(code, payload).len()) + envelope_bytes(code, payload)
}

/// A payload of this many bytes fits in a frame: the envelope adds twelve
/// bytes and its length must fit the u32 prefix.
pub open spec fn payload_fits(len: nat) -> bool {
    len + 12 <= u32::MAX
}

/// Encodes one frame: the envelope's length, then the envelope.
pub fn serialize_data(code: u32, data: &[u8]) -> (r: Result<Vec<u8>, MsgError>)
    ensures
        r is Ok <==> payload_fits(data@.len()),
        r is Ok ==> r->Ok_0@ == frame_bytes(code, data@),
        r is Err ==> r->Err_0 is LogicError,
{
    if data.len() > (u32::MAX - 12) as usize {
        return Err(MsgError::LogicError { msg: "payload too large for one frame".to_owned() });
    }
    let mut msg_data = match serialize_envelope(code, data) {
        Ok(v) => v,
        Err(e) => return Err(MsgError::Serialize(e)),
    };
    let ghost envelope = msg_data@;
    assert(envelope.len() == 12 + data@.len()) by {
        lemma_le_u64_round_trip(data@.len());
    }
    let sz = msg_data.len() as u32;
    let mut buffer = u32_le(sz);
    buffer.append(&mut msg_data);
    assert(buffer@ =~= frame_bytes(code, data@));
    Ok(buffer)
}

/// Reads the length prefix at the start of `bytes`.
fn msg_size(bytes: &[u8]) -> (r: Result<u32, MsgError>)
    ensures
        bytes@.len() < 4 ==> (r matches Err(MsgError::DataSizeTooSmall { min_size }) && min_size
            == 4),
        bytes@.len() >= 4 ==> r is Ok,
        bytes@.len() >= 4 ==> r->Ok_0 == frame_length(bytes@),
{
    if bytes.len() < 4 {
        return Err(MsgError::DataSizeTooSmall { min_size: 4 });
    }
    Ok(read_u32_le(bytes))
}

/// Reads the envelope that fills `bytes`.
fn decode_msginfo(bytes: &[u8]) -> (r: Result<MsgInfo, MsgError>)
    ensures
        r is Ok <==> envelope_complete(bytes@),
        r is Ok ==> r->Ok_0@ == (envelope_code(bytes@), envelope_payload(bytes@)),
        r is Err ==> r->Err_0 is Deserialize,
{
    match deserialize_envelope(bytes) {
        Ok(v) => Ok(MsgInfo { code: v.0, data: v.1 }),
        Err(e) => Err(MsgError::Deserialize(e)),
    }
}

/// Decodes the frame at the start of `buffer`. `Ok(None)` means that more
/// bytes are needed and nothing was consumed.
pub fn parse_msgstream(buffer: &[u8]) -> (r: Result<Option<MsgStream<'_>>, MsgError>)
    ensures
        decode_one(buffer@) is Incomplete ==> r matches Ok(None),
        decode_one(buffer@) is ZeroLength ==> r matches Err(MsgError::LogicError { .. }),
        decode_one(buffer@) is Malformed ==> r matches Err(MsgError::Deserialize(_)),
        decode_one(buffer@) is Frame ==> (r matches Ok(Some(ms)) && ms.msginfo@ == (
            decode_one(buffer@)->code,
            decode_one(buffer@)->payload,
        )),
        decode_one(buffer@) is Frame ==> (r matches Ok(Some(ms)) && ms.buffer_rem@
            == buffer@.subrange(decode_one(buffer@)->size as int, buffer@.len() as int)),
{
    let sz = match msg_size(buffer) {
        Ok(sz) => sz,
        Err(_) => return Ok(None),
    };
    if sz == 0 {
        return Err(MsgError::LogicError { msg: "zero-length frame".to_owned() });
    }
    let total: u64 = 4 + sz as u64;
    if (buffer.len() as u64) < total {
        return Ok(None);
    }
    let end = total as usize;
    let msginfo = match decode_msginfo(&buffer[4..end]) {
        Ok(m) => m,
        Err(e) => return Err(e),
    };
    let rest = &buffer[end..buffer.len()];
    Ok(Some(MsgStream::new(msginfo, rest)))
}

/// Decoding an encoded frame gives back its code and payload, whatever bytes
/// follow it, and consumes exactly the frame.
pub proof fn lemma_round_trip(code: u32, payload: Seq<u8>, rest: Seq<u8>)
    requires
        payload_fits(payload.len()),
    ensures
        decode_one(frame_bytes(code, payload) + rest) == (Decoded::Frame {
            code,
            payload,
            size: frame_bytes(code, payload).len(),
        }),
{
    let env = envelope_bytes(code, payload);
    lemma_le_u32_round_trip(code as nat);
    lemma_le_u64_round_trip(payload.len());
    assert(env.len() == 12 + payload.len());
    lemma_le_u32_round_trip(env.len());
    let b = frame_bytes(code, payload) + rest;
    assert(b.subrange(0, 4) =~= u32_le_bytes(env.len()));
    assert(frame_length(b) == le_u32(b.subrange(0, 4)));
    assert(frame_length(b) == env.len());
    let e = b.subrange(4, 4 + frame_length(b) as int);
    assert(e =~= env);
    assert(e.subrange(0, 4) =~= u32_le_bytes(code as nat));
    assert(le_u32(e) == le_u32(e.subrange(0, 4)));
    let tail = e.subrange(4, e.len() as int);
    assert(tail =~= seq_bytes(payload));
    assert(tail.subrange(0, 8) =~= u64_le_bytes(payload.len()));
    assert(le_u64(tail) == le_u64(tail.subrange(0, 8))) by {
        assert(tail.subrange(0, 8).subrange(4, 8) =~= tail.subrange(4, 8));
    }
    assert(seq_body(tail) =~= payload);
}

} // verus!
