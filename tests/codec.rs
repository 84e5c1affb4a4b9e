use chat::connection::{accept_verdict, actor_step, read_verdict, AcceptAction, AcceptStatus, ActorEvent, ActorState, ClientData, ReadStatus, ReadVerdict, Side};
use chat::message_stream::{parse_msgstream, serialize_data, MsgError};

fn frame(code: u32, payload: &[u8]) -> Vec<u8> {
    serialize_data(code, payload).unwrap()
}

#[test]
fn encode_gives_exact_bytes() {
    let bytes = frame(7, &[1, 2, 3]);
    let expected: Vec<u8> = vec![
        15, 0, 0, 0, // frame length: the envelope only
        7, 0, 0, 0, // code
        3, 0, 0, 0, 0, 0, 0, 0, // payload length
        1, 2, 3,
    ];
    assert_eq!(bytes, expected);
}

#[test]
fn encode_empty_payload() {
    let bytes = frame(0x01020304, &[]);
    assert_eq!(bytes, vec![12, 0, 0, 0, 4, 3, 2, 1, 0, 0, 0, 0, 0, 0, 0, 0]);
}

#[test]
fn round_trip_decodes_code_and_payload() {
    let payload: Vec<u8> = (0..=255u8).collect();
    let bytes = frame(42, &payload);
    let ms = parse_msgstream(&bytes).unwrap().unwrap();
    assert_eq!(ms.msginfo.code, 42);
    assert_eq!(ms.msginfo.data(), payload.as_slice());
    assert!(ms.buffer_rem.is_empty());
}

#[test]
fn round_trip_keeps_following_bytes() {
    let mut bytes = frame(3, b"abc");
    bytes.extend_from_slice(&[9, 9]);
    let ms = parse_msgstream(&bytes).unwrap().unwrap();
    assert_eq!(ms.msginfo.code, 3);
    assert_eq!(ms.msginfo.data(), b"abc");
    assert_eq!(ms.buffer_rem, &[9u8, 9][..]);
}

#[test]
fn fewer_than_four_bytes_is_incomplete() {
    for n in 0..4usize {
        let bytes = vec![5u8; n];
        assert!(matches!(parse_msgstream(&bytes), Ok(None)));
    }
}

#[test]
fn prefix_shorter_than_declared_length_is_incomplete() {
    let bytes = frame(1, &[1, 2, 3, 4, 5]);
    for k in 4..bytes.len() {
        assert!(matches!(parse_msgstream(&bytes[..k]), Ok(None)), "prefix of {} bytes", k);
    }
}

#[test]
fn zero_length_frame_is_protocol_error() {
    let bytes = vec![0u8, 0, 0, 0, 1, 2, 3];
    assert!(matches!(parse_msgstream(&bytes), Err(MsgError::LogicError { .. })));
}

#[test]
fn malformed_envelope_is_deserialize_error() {
    // a whole frame of three bytes cannot hold a code and a payload length
    let bytes = vec![3u8, 0, 0, 0, 1, 2, 3];
    assert!(matches!(parse_msgstream(&bytes), Err(MsgError::Deserialize(_))));
    // the payload length points past the end of the frame
    let bytes = vec![12u8, 0, 0, 0, 1, 0, 0, 0, 9, 0, 0, 0, 0, 0, 0, 0];
    assert!(matches!(parse_msgstream(&bytes), Err(MsgError::Deserialize(_))));
}

#[test]
fn split_frame_reassembles_at_every_offset() {
    let whole = frame(9, b"hello there");
    for k in 0..whole.len() {
        let mut acc = ClientData::new();
        let first = acc.absorb(&whole[..k]);
        assert!(first.frames.is_empty());
        assert!(first.error.is_none());
        assert_eq!(acc.msg, whole[..k].to_vec());
        let second = acc.absorb(&whole[k..]);
        assert!(second.error.is_none());
        assert_eq!(second.frames.len(), 1);
        assert_eq!(second.frames[0].code, 9);
        assert_eq!(second.frames[0].data(), b"hello there");
        assert!(acc.msg.is_empty());
    }
}

#[test]
fn several_frames_in_one_chunk_arrive_in_order() {
    let mut bytes = frame(1, b"a");
    bytes.extend(frame(2, b"bb"));
    bytes.extend(frame(3, b"ccc"));
    let tail = frame(4, b"dddd");
    bytes.extend_from_slice(&tail[..6]);
    let mut acc = ClientData::new();
    let out = acc.absorb(&bytes);
    assert!(out.error.is_none());
    let codes: Vec<u32> = out.frames.iter().map(|m| m.code).collect();
    assert_eq!(codes, vec![1, 2, 3]);
    assert_eq!(out.frames[2].data(), b"ccc");
    assert_eq!(acc.msg, tail[..6].to_vec());
}

#[test]
fn decode_error_resets_accumulator_and_keeps_earlier_frames() {
    let mut bytes = frame(1, b"ok");
    bytes.extend_from_slice(&[0, 0, 0, 0, 7, 7]);
    let mut acc = ClientData::new();
    let out = acc.absorb(&bytes);
    assert_eq!(out.frames.len(), 1);
    assert_eq!(out.frames[0].code, 1);
    assert!(matches!(out.error, Some(MsgError::LogicError { .. })));
    assert!(acc.msg.is_empty());
    // the stream resynchronises on the next whole frame
    let again = acc.absorb(&frame(5, b"x"));
    assert!(again.error.is_none());
    assert_eq!(again.frames.len(), 1);
    assert_eq!(again.frames[0].code, 5);
}

#[test]
fn read_verdicts() {
    assert!(matches!(read_verdict(Side::Server, ReadStatus::Data { len: 10 }), ReadVerdict::Absorb));
    assert!(matches!(read_verdict(Side::Client, ReadStatus::Data { len: 1 }), ReadVerdict::Absorb));
    assert!(matches!(read_verdict(Side::Server, ReadStatus::Data { len: 0 }), ReadVerdict::Disconnect));
    assert!(matches!(read_verdict(Side::Client, ReadStatus::Data { len: 0 }), ReadVerdict::Idle));
    assert!(matches!(read_verdict(Side::Server, ReadStatus::WouldBlock), ReadVerdict::Idle));
    assert!(matches!(read_verdict(Side::Client, ReadStatus::Interrupted), ReadVerdict::Idle));
    assert!(matches!(read_verdict(Side::Client, ReadStatus::Failed), ReadVerdict::Disconnect));
    assert!(matches!(read_verdict(Side::Server, ReadStatus::Failed), ReadVerdict::Disconnect));
}

#[test]
fn accept_verdicts() {
    assert!(matches!(accept_verdict(AcceptStatus::Accepted, true), AcceptAction::Admit));
    assert!(matches!(accept_verdict(AcceptStatus::Accepted, false), AcceptAction::Refuse));
    assert!(matches!(accept_verdict(AcceptStatus::WouldBlock, true), AcceptAction::Sleep));
    assert!(matches!(accept_verdict(AcceptStatus::Failed, true), AcceptAction::Stop));
}

#[test]
fn read_loop_states() {
    let s = actor_step(ActorState::Running, ActorEvent::Read(ReadVerdict::Absorb));
    assert!(matches!(s, ActorState::Running));
    let s = actor_step(s, ActorEvent::Read(ReadVerdict::Idle));
    assert!(matches!(s, ActorState::Running));
    let s = actor_step(s, ActorEvent::ShutdownSeen);
    assert!(matches!(s, ActorState::ShuttingDown));
    let s = actor_step(s, ActorEvent::Read(ReadVerdict::Absorb));
    assert!(matches!(s, ActorState::ShuttingDown));
    let s = actor_step(s, ActorEvent::CleanedUp);
    assert!(matches!(s, ActorState::Closed));
    let s = actor_step(s, ActorEvent::ShutdownSeen);
    assert!(matches!(s, ActorState::Closed));
    let fatal = actor_step(ActorState::Running, ActorEvent::Read(ReadVerdict::Disconnect));
    assert!(matches!(fatal, ActorState::ShuttingDown));
}
