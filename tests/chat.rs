use chat::client_impl::{ClientImpl, ClientNotice, MainThreadCode};
use chat::connection::ClientData;
use chat::message_stream::{parse_msgstream, serialize_data, MsgInfo};
use chat::messages::client::{Message as ClientMessage, MsgOnSent as SentRequest};
use chat::messages::server::{Message as ServerMessage, MsgOnDisconnect, MsgOnSent};
use chat::registry::{PeerAddr, Registry};
use chat::server_impl::{ClientInfo, ServerImpl, ServerReply};

fn peer(n: u16) -> PeerAddr {
    PeerAddr { ip: 0xffff_7f00_0001, port: n }
}

/// Decodes a frame that a peer would receive.
fn decode(bytes: &[u8]) -> MsgInfo {
    let mut acc = ClientData::new();
    let mut out = acc.absorb(bytes);
    assert!(out.error.is_none());
    assert_eq!(out.frames.len(), 1);
    assert!(acc.msg.is_empty());
    out.frames.remove(0)
}

fn register_frame(name: &str) -> MsgInfo {
    decode(&ClientImpl::new().register_user(name).unwrap())
}

fn sent_frame(msg: &str) -> MsgInfo {
    let payload = SentRequest { msg }.to_payload();
    decode(&serialize_data(ClientMessage::OnSent.code(), &payload).unwrap())
}

fn reply_bytes(r: ServerReply) -> Vec<u8> {
    match r {
        ServerReply::Reply(b) => b,
        _ => panic!("expected a reply"),
    }
}

fn notice_code(bytes: &[u8]) -> Option<MainThreadCode> {
    let info = decode(bytes);
    ClientImpl::new().on_read(&info).main_thread_code()
}

#[test]
fn message_codes() {
    assert_eq!(ClientMessage::OnRegisterUser.code(), 0);
    assert_eq!(ClientMessage::OnSent.code(), 1);
    assert_eq!(ServerMessage::OnConnect.code(), 0);
    assert_eq!(ServerMessage::OnDisconnect.code(), 1);
    assert_eq!(ServerMessage::OnRegisterUser.code(), 2);
    assert_eq!(ServerMessage::OnAlreadyRegisteredUser.code(), 3);
    assert_eq!(ServerMessage::OnRegistrationSuccess.code(), 4);
    assert_eq!(ServerMessage::OnSent.code(), 5);
}

#[test]
fn register_user_frame_bytes() {
    let bytes = ClientImpl::new().register_user("alice").unwrap();
    let mut expected: Vec<u8> = vec![25, 0, 0, 0, 0, 0, 0, 0, 13, 0, 0, 0, 0, 0, 0, 0];
    expected.extend_from_slice(&[5, 0, 0, 0, 0, 0, 0, 0]);
    expected.extend_from_slice(b"alice");
    assert_eq!(bytes, expected);
}

#[test]
fn text_payloads_round_trip() {
    let payload = MsgOnSent { user: "bob", msg: "héllo" }.to_payload();
    let mut expected: Vec<u8> = vec![3, 0, 0, 0, 0, 0, 0, 0];
    expected.extend_from_slice(b"bob");
    expected.extend_from_slice(&[6, 0, 0, 0, 0, 0, 0, 0]);
    expected.extend_from_slice("héllo".as_bytes());
    assert_eq!(payload, expected);
    let back = MsgOnSent::from_payload(&payload).unwrap();
    assert_eq!(back.user, "bob");
    assert_eq!(back.msg, "héllo");
    let one = MsgOnDisconnect { user: "zoë" }.to_payload();
    assert_eq!(MsgOnDisconnect::from_payload(&one).unwrap().user, "zoë");
}

#[test]
fn undecodable_payloads() {
    assert!(MsgOnDisconnect::from_payload(&[1, 2, 3]).is_err());
    // declared length 1, byte 0xff is not UTF-8
    assert!(MsgOnDisconnect::from_payload(&[1, 0, 0, 0, 0, 0, 0, 0, 0xff]).is_err());
    let one = MsgOnDisconnect { user: "x" }.to_payload();
    assert!(MsgOnSent::from_payload(&one).is_err());
    let info = MsgInfo::new(ServerMessage::OnSent.code(), vec![0, 0]);
    assert!(matches!(ClientImpl::new().on_read(&info), ClientNotice::Undecodable));
    let info = MsgInfo::new(99, vec![]);
    assert!(matches!(ClientImpl::new().on_read(&info), ClientNotice::Unknown(99)));
}

#[test]
fn registration_race_gives_one_success() {
    let mut server = ServerImpl::new();
    let first = reply_bytes(server.on_read(peer(1), &register_frame("alice")));
    let second = reply_bytes(server.on_read(peer(2), &register_frame("alice")));
    assert_eq!(notice_code(&first), Some(MainThreadCode::RegistrationSucecssful));
    assert_eq!(notice_code(&second), Some(MainThreadCode::NameAlreadyRegistered));
    let ms = parse_msgstream(&second).unwrap().unwrap();
    assert_eq!(ms.msginfo.code, ServerMessage::OnAlreadyRegisteredUser.code());
}

#[test]
fn unregistered_sender_is_not_relayed() {
    let mut server = ServerImpl::new();
    assert!(matches!(server.on_read(peer(1), &sent_frame("hi")), ServerReply::Nothing));
    assert!(matches!(server.on_read(peer(1), &MsgInfo::new(77, vec![])), ServerReply::Nothing));
    assert!(matches!(server.on_read(peer(1), &MsgInfo::new(0, vec![1])), ServerReply::Nothing));
    assert!(server.on_disconnect(peer(1)).is_none());
    assert!(server.allow_connect(peer(1)));
}

#[test]
fn end_to_end_scenario() {
    let (a, b) = (peer(1), peer(2));
    let mut server = ServerImpl::new();
    let mut live: Registry<u16> = Registry::new();
    live.insert(a, 1);
    live.insert(b, 2);

    let r = reply_bytes(server.on_read(a, &register_frame("alice")));
    assert_eq!(notice_code(&r), Some(MainThreadCode::RegistrationSucecssful));
    let r = reply_bytes(server.on_read(b, &register_frame("alice")));
    assert_eq!(notice_code(&r), Some(MainThreadCode::NameAlreadyRegistered));
    let r = reply_bytes(server.on_read(b, &register_frame("bob")));
    assert_eq!(notice_code(&r), Some(MainThreadCode::RegistrationSucecssful));

    // A says "hi": it goes to everyone but A
    let out = match server.on_read(a, &sent_frame("hi")) {
        ServerReply::BroadcastOthers(bytes) => bytes,
        _ => panic!("expected a broadcast"),
    };
    let targets = live.snapshot_except_one(a);
    assert_eq!(targets, vec![(b, 2)]);
    let info = decode(&out);
    match ClientImpl::new().on_read(&info) {
        ClientNotice::Said { user, msg } => {
            assert_eq!(user, "alice");
            assert_eq!(msg, "hi");
        }
        _ => panic!("expected a line of chat"),
    }

    // A's socket dies: removed once, B told once
    let gone = live.remove_all(&vec![a]);
    assert_eq!(gone.len(), 1);
    let notice = server.on_disconnect(a).unwrap();
    assert_eq!(live.snapshot_except_one(a), vec![(b, 2)]);
    let info = decode(&notice);
    assert_eq!(info.code, ServerMessage::OnDisconnect.code());
    assert!(matches!(ClientImpl::new().on_read(&info), ClientNotice::Left("alice")));
    // the other removal path finds A gone and notifies no one
    assert!(live.remove(a).is_none());
    assert!(server.on_disconnect(a).is_none());

    // "alice" is free again
    let r = reply_bytes(server.on_read(peer(3), &register_frame("alice")));
    assert_eq!(notice_code(&r), Some(MainThreadCode::RegistrationSucecssful));
}

#[test]
fn client_notices_and_codes() {
    let client = ClientImpl::new();
    assert_eq!(client.on_disconnect(), MainThreadCode::Disconnected);
    let joined = MsgInfo::new(ServerMessage::OnRegisterUser.code(), chat::messages::server::MsgOnRegisterUser { user: "eve" }.to_payload());
    let n = client.on_read(&joined);
    assert!(matches!(n, ClientNotice::Joined("eve")));
    assert_eq!(n.main_thread_code(), None);
    let info = ClientInfo::new("eve".to_string());
    assert_eq!(info.name, "eve");
}
