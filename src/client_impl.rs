//! The client's chat rules: what each frame from the server means, and which
//! of them the main thread waits for.
use vstd::prelude::*;
use crate::message_stream::{frame_bytes, payload_fits, serialize_data, MsgError, MsgInfo};
use crate::messages::client::{Message as ClientMessage, MsgOnRegisterUser as RegisterRequest};
use crate::messages::server::{
    Message as ServerMessage, MsgAlreadyRegisteredUser, MsgOnDisconnect, MsgOnRegisterUser,
    MsgOnSent, MsgRegistrationSuccess,
};
use crate::messages::{read_text, read_text_pair, text_payload};

verus! {

/// What the reader thread tells the main thread.
#[derive(Debug, PartialEq, Eq, Structural)]
pub enum MainThreadCode {
    NameAlreadyRegistered,
    RegistrationSucecssful,
    Disconnected,
}

/// One frame from the server, decoded.
pub enum ClientNotice<'a> {
    Joined(&'a str),
    NameTaken(&'a str),
    Registered(&'a str),
    Left(&'a str),
    Said { user: &'a str, msg: &'a str },
    /// The payload does not fit the schema of its code: the frame is dropped.
    Undecodable,
    /// A code that the client does not handle: the frame is ignored.
    Unknown(u32),
}

pub enum Notice {
    Joined(Seq<char>),
    NameTaken(Seq<char>),
    Registered(Seq<char>),
    Left(Seq<char>),
    Said(Seq<char>, Seq<char>),
    Undecodable,
    Unknown(u32),
}

impl<'a> View for ClientNotice<'a> {
    type V = Notice;

    open spec fn view(&self) -> Notice {
        match self {
            ClientNotice::Joined(u) => Notice::Joined(u@),
            ClientNotice::NameTaken(u) => Notice::NameTaken(u@),
            ClientNotice::Registered(u) => Notice::Registered(u@),
            ClientNotice::Left(u) => Notice::Left(u@),
            ClientNotice::Said { user, msg } => Notice::Said(user@, msg@),
            ClientNotice::Undecodable => Notice::Undecodable,
            ClientNotice::Unknown(c) => Notice::Unknown(*c),
        }
    }
}

/// A one-name notice from a payload, or `Undecodable`.
pub open spec fn name_notice(data: Seq<u8>, f: spec_fn(Seq<char>) -> Notice) -> Notice {
    match read_text(data) {
        Some(u) => f(u),
        None => Notice::Undecodable,
    }
}

/// What a frame from the server means.
pub open spec fn notice_of(m: (u32, Seq<u8>)) -> Notice {
    if m.0 == ServerMessage::OnRegisterUser.spec_code() {
        name_notice(m.1, |u: Seq<char>| Notice::Joined(u))
    } else if m.0 == ServerMessage::OnAlreadyRegisteredUser.spec_code() {
        name_notice(m.1, |u: Seq<char>| Notice::NameTaken(u))
    } else if m.0 == ServerMessage::OnRegistrationSuccess.spec_code() {
        name_notice(m.1, |u: Seq<char>| Notice::Registered(u))
    } else if m.0 == ServerMessage::OnDisconnect.spec_code() {
        name_notice(m.1, |u: Seq<char>| Notice::Left(u))
    } else if m.0 == ServerMessage::OnSent.spec_code() {
        match read_text_pair(m.1) {
            Some(p) => Notice::Said(p.0, p.1),
            None => Notice::Undecodable,
        }
    } else {
        Notice::Unknown(m.0)
    }
}

impl<'a> ClientNotice<'a> {
    /// The code that the main thread waits for, if this notice carries one.
    pub fn main_thread_code(&self) -> (r: Option<MainThreadCode>)
        ensures
            self@ is NameTaken ==> r == Some(MainThreadCode::NameAlreadyRegistered),
            self@ is Registered ==> r == Some(MainThreadCode::RegistrationSucecssful),
            !(self@ is NameTaken) && !(self@ is Registered) ==> r is None,
    {
        match self {
            ClientNotice::NameTaken(_) => Some(MainThreadCode::NameAlreadyRegistered),
            ClientNotice::Registered(_) => Some(MainThreadCode::RegistrationSucecssful),
            _ => None,
        }
    }
}

/// The client's side of the chat rules.
pub struct ClientImpl {}

impl ClientImpl {
    pub fn new() -> Self {
        ClientImpl {  }
    }

    /// Decodes one frame from the server.
    pub fn on_read<'a>(&self, msginfo: &'a MsgInfo) -> (r: ClientNotice<'a>)
        ensures
            r@ == notice_of(msginfo@),
    {
        let code = msginfo.code;
        let data = msginfo.data();
        if code == ServerMessage::OnRegisterUser.code() {
            match MsgOnRegisterUser::from_payload(data) {
                Ok(m) => ClientNotice::Joined(m.user),
                Err(_) => ClientNotice::Undecodable,
            }
        } else if code == ServerMessage::OnAlreadyRegisteredUser.code() {
            match MsgAlreadyRegisteredUser::from_payload(data) {
                Ok(m) => ClientNotice::NameTaken(m.user),
                Err(_) => ClientNotice::Undecodable,
            }
        } else if code == ServerMessage::OnRegistrationSuccess.code() {
            match MsgRegistrationSuccess::from_payload(data) {
                Ok(m) => ClientNotice::Registered(m.user),
                Err(_) => ClientNotice::Undecodable,
            }
        } else if code == ServerMessage::OnDisconnect.code() {
            match MsgOnDisconnect::from_payload(data) {
                Ok(m) => ClientNotice::Left(m.user),
                Err(_) => ClientNotice::Undecodable,
            }
        } else if code == ServerMessage::OnSent.code() {
            match MsgOnSent::from_payload(data) {
                Ok(m) => ClientNotice::Said { user: m.user, msg: m.msg },
                Err(_) => ClientNotice::Undecodable,
            }
        } else {
            ClientNotice::Unknown(code)
        }
    }

    /// The connection to the server is gone.
    pub fn on_disconnect(&self) -> (r: MainThreadCode)
        ensures
            r == MainThreadCode::Disconnected,
    {
        MainThreadCode::Disconnected
    }

    /// The frame that asks the server for `name`.
    pub fn register_user(&self, name: &str) -> (r: Result<Vec<u8>, MsgError>)
        ensures
            r is Ok <==> payload_fits(text_payload(name@).len()),
            r is Ok ==> r->Ok_0@ == frame_bytes(
                ClientMessage::OnRegisterUser.spec_code(),
                text_payload(name@),
            ),
            r is Err ==> r->Err_0 is LogicError,
    {
        let payload = RegisterRequest { user: name }.to_payload();
        serialize_data(ClientMessage::OnRegisterUser.code(), payload.as_slice())
    }
}

} // verus!
